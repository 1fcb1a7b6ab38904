//! Cascade invalidation: once an operation is rolled back, every later
//! operation that ran, or is running, rests on a state that no longer
//! exists and is marked undone.

use vstd::prelude::*;
use vstd::string::*;
use crate::models::{ActionStatus, ChatMessage, MessageView, StatusView};

verus! {

/// Mathematical value of a list of messages.
pub open spec fn messages_view(messages: Seq<ChatMessage>) -> Seq<MessageView> {
    messages.map_values(|m: ChatMessage| m@)
}

/// The note that an invalidated operation gets in its log.
pub open spec fn cascade_note() -> Seq<char> {
    "\n(因回溯已失效)"@
}

/// A rollback of the operation `target` invalidates this message: it is a
/// later one and it succeeded or is running.
pub open spec fn is_invalidated(message: MessageView, target: usize) -> bool {
    &&& message.id > target
    &&& (message.status is Success || message.status is Running)
}

/// An invalidated message: undone, with the note appended to its log.
pub open spec fn invalidate(message: MessageView) -> MessageView {
    MessageView { status: StatusView::Undone, text: message.text + cascade_note(), ..message }
}

/// The messages after the cascade of a rollback of `target`.
pub open spec fn cascaded(messages: Seq<MessageView>, target: usize) -> Seq<MessageView> {
    messages.map_values(
        |m: MessageView|
            if is_invalidated(m, target) {
                invalidate(m)
            } else {
                m
            },
    )
}

/// The ids that the cascade invalidates, in the order of the messages.
pub open spec fn invalidated_ids(messages: Seq<MessageView>, target: usize) -> Seq<usize> {
    messages.filter(|m: MessageView| is_invalidated(m, target)).map_values(|m: MessageView| m.id)
}

/// Invalidates every message after `target` that succeeded or is running,
/// and returns their ids. Messages that were cancelled, failed or are
/// already undone are left as they are, and so is `target` itself.
pub fn cascade_invalidate(messages: &mut Vec<ChatMessage>, target: usize) -> (hit: Vec<usize>)
    ensures
        messages_view(final(messages)@) == cascaded(messages_view(old(messages)@), target),
        hit@ == invalidated_ids(messages_view(old(messages)@), target),
{
    let mut hit: Vec<usize> = Vec::new();
    let mut i: usize = 0;
    let ghost before = messages_view(messages@);
    let ghost pred = |m: MessageView| is_invalidated(m, target);
    proof {
        reveal(Seq::filter);
        assert(before.take(0) =~= Seq::empty());
        assert(hit@ =~= before.take(0).filter(pred).map_values(|m: MessageView| m.id));
    }
    while i < messages.len()
        invariant
            i <= messages.len(),
            messages.len() == before.len(),
            pred == (|m: MessageView| is_invalidated(m, target)),
            forall|k: int| 0 <= k < i ==> messages[k]@ == cascaded(before, target)[k],
            forall|k: int| i <= k < messages.len() ==> messages[k]@ == before[k],
            hit@ == before.take(i as int).filter(pred).map_values(|m: MessageView| m.id),
        decreases messages.len() - i,
    {
        let ghost seen = before.take(i as int);
        let ghost current = messages[i as int]@;
        let touched = messages[i].id > target && match messages[i].status {
            ActionStatus::Success => true,
            ActionStatus::Running => true,
            _ => false,
        };
        assert(touched == pred(current));
        if touched {
            let message = &mut messages[i];
            message.status = ActionStatus::Undone;
            message.text.append("\n(因回溯已失效)");
            hit.push(message.id);
        }
        proof {
            crate::restore::lemma_filter_push(seen, current, pred);
            assert(before.take(i + 1) =~= seen.push(current));
            assert(hit@ =~= before.take(i + 1).filter(pred).map_values(|m: MessageView| m.id));
        }
        i += 1;
    }
    assert(before.take(i as int) =~= before);
    assert(messages_view(messages@) =~= cascaded(before, target));
    hit
}

} // verus!

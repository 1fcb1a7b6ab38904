//! Text helpers shared by the engine: lower-casing, substring search,
//! trimming, and decimal rendering of counters and timestamps.
//!
//! Texts are modelled as sequences of characters.

use vstd::prelude::*;
use vstd::std_specs::iter::IteratorSpec;
use vstd::string::*;

verus! {

/// The lower-case form of a text, as the standard library computes it.
pub uninterp spec fn lowercase_of(text: Seq<char>) -> Seq<char>;

/// Calls `str::to_lowercase`. Trusted: the result is the Unicode lower-case
/// mapping of the argument, a function of the characters alone, which this
/// crate names [`lowercase_of`] and does not spell out.
#[verifier::external_body]
pub(crate) fn to_lowercase(text: &str) -> (lower: String)
    ensures
        lower@ == lowercase_of(text@),
{
    text.to_lowercase()
}

/// The characters of a text.
pub fn chars_of(text: &str) -> (chars: Vec<char>)
    ensures
        chars@ == text@,
{
    let mut chars: Vec<char> = Vec::new();
    for c in it: text.chars()
        invariant
            it.seq() == text@,
            chars@ == it.seq().take(it.index() as int),
    {
        chars.push(c);
        assert(chars@ =~= it.seq().take(it.index() + 1));
    }
    assert(chars@ =~= text@);
    chars
}

/// The part of a text from character `from` up to character `to`.
pub fn slice_text(text: &str, from: usize, to: usize) -> (part: String)
    requires
        from <= to <= text@.len(),
    ensures
        part@ == text@.subrange(from as int, to as int),
{
    text.substring_char(from, to).to_owned()
}

/// `needle` occurs in `hay` starting at position `at`.
pub open spec fn occurs_at(hay: Seq<char>, needle: Seq<char>, at: int) -> bool {
    &&& 0 <= at
    &&& at + needle.len() <= hay.len()
    &&& hay.subrange(at, at + needle.len()) == needle
}

/// The text `hay` mentions `word`: `word` occurs somewhere in it. Every
/// text mentions the empty word.
pub open spec fn mentions(hay: Seq<char>, word: Seq<char>) -> bool {
    exists|at: int| occurs_at(hay, word, at)
}

/// The text `hay` mentions at least one of `words`.
pub open spec fn mentions_any(hay: Seq<char>, words: Seq<Seq<char>>) -> bool {
    exists|k: int| 0 <= k < words.len() && mentions(hay, #[trigger] words[k])
}

/// `at` is the first position from `from` on at which `needle` occurs in
/// `hay`.
pub open spec fn is_first_from(hay: Seq<char>, needle: Seq<char>, from: int, at: int) -> bool {
    &&& from <= at
    &&& occurs_at(hay, needle, at)
    &&& forall|k: int| from <= k < at ==> !occurs_at(hay, needle, k)
}

/// The first position from `from` on at which `needle` occurs in `hay`, if
/// there is one.
pub open spec fn first_from(hay: Seq<char>, needle: Seq<char>, from: int) -> Option<int> {
    if exists|at: int| is_first_from(hay, needle, from, at) {
        Some(choose|at: int| is_first_from(hay, needle, from, at))
    } else {
        None
    }
}

/// The first position is unique.
pub proof fn lemma_first_is_unique(
    hay: Seq<char>,
    needle: Seq<char>,
    from: int,
    a: int,
    b: int,
)
    requires
        is_first_from(hay, needle, from, a),
        is_first_from(hay, needle, from, b),
    ensures
        a == b,
{
}

/// A text that holds `word` between any two texts mentions it.
pub proof fn lemma_mentions_infix(before: Seq<char>, word: Seq<char>, after: Seq<char>)
    ensures
        mentions(before + word + after, word),
{
    let hay = before + word + after;
    assert(hay.subrange(before.len() as int, (before.len() + word.len()) as int) =~= word);
    assert(occurs_at(hay, word, before.len() as int));
}

/// Every text mentions the empty word.
pub proof fn lemma_mentions_empty(hay: Seq<char>)
    ensures
        mentions(hay, Seq::<char>::empty()),
{
    assert(hay.subrange(0, 0) =~= Seq::<char>::empty());
    assert(occurs_at(hay, Seq::<char>::empty(), 0));
}

/// A text that mentions a phrase mentions every word inside the phrase.
pub proof fn lemma_mentions_part(
    hay: Seq<char>,
    before: Seq<char>,
    word: Seq<char>,
    after: Seq<char>,
)
    requires
        mentions(hay, before + word + after),
    ensures
        mentions(hay, word),
{
    let phrase = before + word + after;
    let at = choose|at: int| occurs_at(hay, phrase, at);
    let inner = at + before.len();
    assert(hay.subrange(inner, inner + word.len()) =~= hay.subrange(
        at,
        at + phrase.len(),
    ).subrange(before.len() as int, (before.len() + word.len()) as int));
    assert(phrase.subrange(before.len() as int, (before.len() + word.len()) as int) =~= word);
    assert(occurs_at(hay, word, inner));
}

fn matches_at(hay: &Vec<char>, needle: &Vec<char>, at: usize) -> (hit: bool)
    requires
        at + needle.len() <= hay.len(),
    ensures
        hit == occurs_at(hay@, needle@, at as int),
{
    let len: usize = needle.len();
    let mut k: usize = 0;
    while k < len
        invariant
            len == needle.len(),
            k <= len,
            at + len <= hay.len(),
            forall|j: int| 0 <= j < k ==> hay@[at + j] == needle@[j],
        decreases len - k,
    {
        if hay[at + k] != needle[k] {
            assert(hay@.subrange(at as int, at + len)[k as int] != needle@[k as int]);
            return false;
        }
        k += 1;
    }
    assert(hay@.subrange(at as int, at + len) =~= needle@);
    true
}

/// Finds the first position from `from` on at which `needle` occurs in
/// `hay`.
pub fn find_from(hay: &Vec<char>, needle: &Vec<char>, from: usize) -> (found: Option<usize>)
    ensures
        match found {
            Some(at) => first_from(hay@, needle@, from as int) == Some(at as int),
            None => first_from(hay@, needle@, from as int) is None,
        },
        match found {
            Some(at) => is_first_from(hay@, needle@, from as int, at as int),
            None => forall|k: int| from <= k ==> !occurs_at(hay@, needle@, k),
        },
{
    let found = find_first(hay, needle, from);
    proof {
        match found {
            Some(at) => {
                let chosen = choose|c: int| is_first_from(hay@, needle@, from as int, c);
                lemma_first_is_unique(hay@, needle@, from as int, at as int, chosen);
            },
            None => {},
        }
    }
    found
}

fn find_first(hay: &Vec<char>, needle: &Vec<char>, from: usize) -> (found: Option<usize>)
    ensures
        match found {
            Some(at) => is_first_from(hay@, needle@, from as int, at as int),
            None => forall|k: int| from <= k ==> !occurs_at(hay@, needle@, k),
        },
{
    if needle.len() > hay.len() || from > hay.len() - needle.len() {
        return None;
    }
    let last: usize = hay.len() - needle.len();
    let mut at: usize = from;
    while at < last
        invariant
            last == hay.len() - needle.len(),
            from <= at <= last,
            forall|k: int| from <= k < at ==> !occurs_at(hay@, needle@, k),
        decreases last - at,
    {
        if matches_at(hay, needle, at) {
            return Some(at);
        }
        at += 1;
    }
    if matches_at(hay, needle, last) {
        Some(last)
    } else {
        None
    }
}

/// Whether `hay` mentions `needle`.
pub fn contains(hay: &str, needle: &str) -> (found: bool)
    ensures
        found == mentions(hay@, needle@),
{
    let h = chars_of(hay);
    let n = chars_of(needle);
    find_first(&h, &n, 0).is_some()
}

/// Whether `prefix` occurs in `text` at position `at`.
pub fn starts_with_at(text: &Vec<char>, prefix: &Vec<char>, at: usize) -> (hit: bool)
    ensures
        hit == occurs_at(text@, prefix@, at as int),
{
    if prefix.len() > text.len() || at > text.len() - prefix.len() {
        return false;
    }
    matches_at(text, prefix, at)
}

/// White space, as `char::is_whitespace` has it: the characters with the
/// Unicode property `White_Space`.
pub open spec fn is_space(c: char) -> bool {
    let n = c as u32;
    ||| 0x09 <= n <= 0x0d
    ||| n == 0x20
    ||| n == 0x85
    ||| n == 0xa0
    ||| n == 0x1680
    ||| 0x2000 <= n <= 0x200a
    ||| n == 0x2028
    ||| n == 0x2029
    ||| n == 0x202f
    ||| n == 0x205f
    ||| n == 0x3000
}

/// Whether a character is white space.
pub fn is_whitespace(c: char) -> (space: bool)
    ensures
        space == is_space(c),
{
    let n: u32 = c as u32;
    (0x09 <= n && n <= 0x0d) || n == 0x20 || n == 0x85 || n == 0xa0 || n == 0x1680 || (0x2000
        <= n && n <= 0x200a) || n == 0x2028 || n == 0x2029 || n == 0x202f || n == 0x205f || n
        == 0x3000
}

/// The text without its leading white space.
pub open spec fn trim_start(text: Seq<char>) -> Seq<char>
    decreases text.len(),
{
    if text.len() > 0 && is_space(text[0]) {
        trim_start(text.drop_first())
    } else {
        text
    }
}

/// The text without its trailing white space.
pub open spec fn trim_end(text: Seq<char>) -> Seq<char>
    decreases text.len(),
{
    if text.len() > 0 && is_space(text.last()) {
        trim_end(text.drop_last())
    } else {
        text
    }
}

/// The text without its leading and trailing white space.
pub open spec fn trim(text: Seq<char>) -> Seq<char> {
    trim_end(trim_start(text))
}

/// The bounds of the trimmed part of the characters from `from` up to `to`.
pub fn trim_bounds(text: &Vec<char>, from: usize, to: usize) -> (bounds: (usize, usize))
    requires
        from <= to <= text.len(),
    ensures
        from <= bounds.0 <= bounds.1 <= to,
        text@.subrange(bounds.0 as int, to as int) == trim_start(
            text@.subrange(from as int, to as int),
        ),
        text@.subrange(bounds.0 as int, bounds.1 as int) == trim(
            text@.subrange(from as int, to as int),
        ),
{
    let ghost part = text@.subrange(from as int, to as int);
    let mut a: usize = from;
    assert(text@.subrange(a as int, to as int) =~= part);
    while a < to && is_whitespace(text[a])
        invariant
            from <= a <= to <= text.len(),
            trim_start(part) == trim_start(text@.subrange(a as int, to as int)),
        decreases to - a,
    {
        assert(text@.subrange(a as int, to as int).drop_first() =~= text@.subrange(
            a + 1,
            to as int,
        ));
        a += 1;
    }
    let ghost left = text@.subrange(a as int, to as int);
    assert(trim_start(part) == left);
    let mut b: usize = to;
    assert(text@.subrange(a as int, b as int) =~= left);
    while b > a && is_whitespace(text[b - 1])
        invariant
            a <= b <= to <= text.len(),
            trim_end(left) == trim_end(text@.subrange(a as int, b as int)),
        decreases b - a,
    {
        assert(text@.subrange(a as int, b as int).drop_last() =~= text@.subrange(
            a as int,
            b - 1,
        ));
        b -= 1;
    }
    (a, b)
}

/// The text without its leading and trailing white space.
pub fn trimmed(text: &str) -> (part: String)
    ensures
        part@ == trim(text@),
{
    let chars = chars_of(text);
    let (a, b) = trim_bounds(&chars, 0, chars.len());
    assert(chars@.subrange(0, chars.len() as int) =~= text@);
    slice_text(text, a, b)
}

/// The character of one decimal digit.
pub open spec fn digit_char(d: nat) -> char
    recommends
        d < 10,
{
    if d == 0 {
        '0'
    } else if d == 1 {
        '1'
    } else if d == 2 {
        '2'
    } else if d == 3 {
        '3'
    } else if d == 4 {
        '4'
    } else if d == 5 {
        '5'
    } else if d == 6 {
        '6'
    } else if d == 7 {
        '7'
    } else if d == 8 {
        '8'
    } else {
        '9'
    }
}

/// The decimal digits of `n`, most significant first, without leading
/// zeros; `0` is `"0"`.
pub open spec fn decimal_digits(n: nat) -> Seq<char>
    decreases n,
{
    if n < 10 {
        seq![digit_char(n)]
    } else {
        decimal_digits(n / 10).push(digit_char(n % 10))
    }
}

fn digit_text(d: u8) -> (text: &'static str)
    requires
        d < 10,
    ensures
        text@ == seq![digit_char(d as nat)],
{
    proof {
        reveal_strlit("0");
        reveal_strlit("1");
        reveal_strlit("2");
        reveal_strlit("3");
        reveal_strlit("4");
        reveal_strlit("5");
        reveal_strlit("6");
        reveal_strlit("7");
        reveal_strlit("8");
        reveal_strlit("9");
    }
    let text = if d == 0 {
        "0"
    } else if d == 1 {
        "1"
    } else if d == 2 {
        "2"
    } else if d == 3 {
        "3"
    } else if d == 4 {
        "4"
    } else if d == 5 {
        "5"
    } else if d == 6 {
        "6"
    } else if d == 7 {
        "7"
    } else if d == 8 {
        "8"
    } else {
        "9"
    };
    assert(text@ =~= seq![digit_char(d as nat)]);
    text
}

/// Renders `n` in decimal.
pub fn decimal(n: u128) -> (text: String)
    ensures
        text@ == decimal_digits(n as nat),
    decreases n,
{
    if n < 10 {
        digit_text(n as u8).to_owned()
    } else {
        let mut text = decimal(n / 10);
        text.append(digit_text((n % 10) as u8));
        text
    }
}

/// `a` followed by `b`.
pub fn concat2(a: &str, b: &str) -> (text: String)
    ensures
        text@ == a@ + b@,
{
    let mut text = a.to_owned();
    text.append(b);
    text
}

} // verus!

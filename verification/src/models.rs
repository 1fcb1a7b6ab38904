//! The data the engine works on: chat messages that double as operation
//! records, their status, and the model profiles of the configuration.

use vstd::prelude::*;

verus! {

/// Which surface the window currently shows.
#[derive(Clone, Copy, Debug, PartialEq, Eq, Structural)]
pub enum WindowMode {
    /// The small floating capsule.
    Widget,
    /// The chat panel.
    Main,
    /// The settings panel.
    Settings,
}

/// Status of one message, seen as an operation record.
#[derive(Debug, PartialEq)]
pub enum ActionStatus {
    /// A plain message that carries no operation.
    Idle,
    /// A reply is being generated.
    Loading,
    /// A script was generated and waits for the user's confirmation.
    WaitingConfirmation,
    /// The script is being snapshotted for, or executed.
    Running,
    /// The script ran and its output showed no failure.
    Success,
    /// The script failed; the payload is the diagnostic.
    Error(String),
    /// The user declined to run the script.
    Cancelled,
    /// The operation was rolled back, directly or by an earlier rollback.
    Undone,
}

/// Mathematical value of an [`ActionStatus`].
pub enum StatusView {
    Idle,
    Loading,
    WaitingConfirmation,
    Running,
    Success,
    Error(Seq<char>),
    Cancelled,
    Undone,
}

impl View for ActionStatus {
    type V = StatusView;

    open spec fn view(&self) -> StatusView {
        match self {
            ActionStatus::Idle => StatusView::Idle,
            ActionStatus::Loading => StatusView::Loading,
            ActionStatus::WaitingConfirmation => StatusView::WaitingConfirmation,
            ActionStatus::Running => StatusView::Running,
            ActionStatus::Success => StatusView::Success,
            ActionStatus::Error(e) => StatusView::Error(e@),
            ActionStatus::Cancelled => StatusView::Cancelled,
            ActionStatus::Undone => StatusView::Undone,
        }
    }
}

impl Clone for ActionStatus {
    fn clone(&self) -> (copy: Self)
        ensures
            copy@ == self@,
    {
        match self {
            ActionStatus::Idle => ActionStatus::Idle,
            ActionStatus::Loading => ActionStatus::Loading,
            ActionStatus::WaitingConfirmation => ActionStatus::WaitingConfirmation,
            ActionStatus::Running => ActionStatus::Running,
            ActionStatus::Success => ActionStatus::Success,
            ActionStatus::Error(e) => ActionStatus::Error(e.clone()),
            ActionStatus::Cancelled => ActionStatus::Cancelled,
            ActionStatus::Undone => ActionStatus::Undone,
        }
    }
}

/// A snapshot pair: the path of a file and the path of its point-in-time copy.
pub type BackupPair = (String, String);

/// Mathematical value of a list of snapshot pairs.
pub type PairsView = Seq<(Seq<char>, Seq<char>)>;

/// One chat message. A message that carries a generated script is the
/// operation record of that script: `text` is its append-only log,
/// `pending_code` the script, and `backup_paths` the snapshot set taken
/// before the script first ran.
#[derive(Debug, PartialEq)]
pub struct ChatMessage {
    pub id: usize,
    pub text: String,
    pub is_user: bool,
    /// An HTML table to show with the message, if any.
    pub table: Option<String>,
    pub temp_id: Option<String>,
    pub status: ActionStatus,
    /// Path of an image to show with the message, if any.
    pub image: Option<String>,
    /// The generated script, pending or already executed.
    pub pending_code: Option<String>,
    /// `(original_path, backup_path)` pairs captured before the script ran.
    pub backup_paths: Option<Vec<BackupPair>>,
}

/// Mathematical value of a [`ChatMessage`].
pub struct MessageView {
    pub id: usize,
    pub text: Seq<char>,
    pub is_user: bool,
    pub table: Option<Seq<char>>,
    pub temp_id: Option<Seq<char>>,
    pub status: StatusView,
    pub image: Option<Seq<char>>,
    pub pending_code: Option<Seq<char>>,
    pub backup_paths: Option<PairsView>,
}

impl View for ChatMessage {
    type V = MessageView;

    open spec fn view(&self) -> MessageView {
        MessageView {
            id: self.id,
            text: self.text@,
            is_user: self.is_user,
            table: self.table.deep_view(),
            temp_id: self.temp_id.deep_view(),
            status: self.status@,
            image: self.image.deep_view(),
            pending_code: self.pending_code.deep_view(),
            backup_paths: self.backup_paths.deep_view(),
        }
    }
}

/// The text of the placeholder shown while a reply is generated.
pub open spec fn thinking_text() -> Seq<char> {
    "正在思考..."@
}

/// Copies an optional string.
pub fn clone_opt(value: &Option<String>) -> (copy: Option<String>)
    ensures
        copy.deep_view() == value.deep_view(),
{
    match value {
        Some(s) => Some(s.clone()),
        None => None,
    }
}

/// Copies a list of snapshot pairs.
pub fn clone_pairs(pairs: &Vec<BackupPair>) -> (copy: Vec<BackupPair>)
    ensures
        copy.deep_view() == pairs.deep_view(),
{
    let mut copy: Vec<BackupPair> = Vec::new();
    let mut i: usize = 0;
    while i < pairs.len()
        invariant
            i <= pairs.len(),
            copy.len() == i,
            forall|k: int| 0 <= k < i ==> copy[k].deep_view() == pairs[k].deep_view(),
        decreases pairs.len() - i,
    {
        copy.push((pairs[i].0.clone(), pairs[i].1.clone()));
        i += 1;
    }
    assert(copy.deep_view() =~= pairs.deep_view());
    copy
}

impl Clone for ChatMessage {
    fn clone(&self) -> (copy: Self)
        ensures
            copy@ == self@,
    {
        let backup_paths = match &self.backup_paths {
            Some(pairs) => Some(clone_pairs(pairs)),
            None => None,
        };
        ChatMessage {
            id: self.id,
            text: self.text.clone(),
            is_user: self.is_user,
            table: clone_opt(&self.table),
            temp_id: clone_opt(&self.temp_id),
            status: self.status.clone(),
            image: clone_opt(&self.image),
            pending_code: clone_opt(&self.pending_code),
            backup_paths,
        }
    }
}

impl ChatMessage {
    /// A plain message: no status, no script, no snapshot.
    pub fn new(id: usize, text: &str, is_user: bool) -> (msg: Self)
        ensures
            msg@ == (MessageView {
                id,
                text: text@,
                is_user,
                table: None,
                temp_id: None,
                status: StatusView::Idle,
                image: None,
                pending_code: None,
                backup_paths: None,
            }),
    {
        ChatMessage {
            id,
            text: text.to_owned(),
            is_user,
            table: None,
            temp_id: None,
            status: ActionStatus::Idle,
            image: None,
            pending_code: None,
            backup_paths: None,
        }
    }

    /// The assistant's placeholder while a reply is generated.
    pub fn loading(id: usize) -> (msg: Self)
        ensures
            msg@ == (MessageView {
                id,
                text: thinking_text(),
                is_user: false,
                table: None,
                temp_id: None,
                status: StatusView::Loading,
                image: None,
                pending_code: None,
                backup_paths: None,
            }),
    {
        ChatMessage {
            id,
            text: "正在思考...".to_owned(),
            is_user: false,
            table: None,
            temp_id: None,
            status: ActionStatus::Loading,
            image: None,
            pending_code: None,
            backup_paths: None,
        }
    }
}

/// Calls `uuid::Uuid::new_v4` and renders the identifier with its
/// `Display` impl. Trusted: the text is the hyphenated form, which is 36
/// characters long; which identifier it is depends on the system's random
/// source, and the call panics if that source fails.
#[verifier::external_body]
pub(crate) fn random_id() -> (id: String)
    ensures
        id@.len() == 36,
{
    uuid::Uuid::new_v4().to_string()
}

/// The settings of one language model endpoint.
#[derive(Debug, PartialEq)]
pub struct ModelProfile {
    pub id: String,
    pub name: String,
    pub base_url: String,
    pub model_id: String,
    pub api_key: String,
}

/// Mathematical value of a [`ModelProfile`].
pub struct ProfileView {
    pub id: Seq<char>,
    pub name: Seq<char>,
    pub base_url: Seq<char>,
    pub model_id: Seq<char>,
    pub api_key: Seq<char>,
}

impl View for ModelProfile {
    type V = ProfileView;

    open spec fn view(&self) -> ProfileView {
        ProfileView {
            id: self.id@,
            name: self.name@,
            base_url: self.base_url@,
            model_id: self.model_id@,
            api_key: self.api_key@,
        }
    }
}

impl Clone for ModelProfile {
    fn clone(&self) -> (copy: Self)
        ensures
            copy@ == self@,
    {
        ModelProfile {
            id: self.id.clone(),
            name: self.name.clone(),
            base_url: self.base_url.clone(),
            model_id: self.model_id.clone(),
            api_key: self.api_key.clone(),
        }
    }
}

/// A profile as [`ModelProfile::new`] makes it: a fresh id of 36
/// characters, the placeholder name, the default endpoint and model, and no
/// key.
pub open spec fn is_blank_profile(profile: ProfileView) -> bool {
    &&& profile.id.len() == 36
    &&& profile.name == "New Profile"@
    &&& profile.base_url == "https://api.openai.com/v1"@
    &&& profile.model_id == "gpt-3.5-turbo"@
    &&& profile.api_key == Seq::<char>::empty()
}

/// The profile that a default configuration holds.
pub open spec fn default_profile() -> ProfileView {
    ProfileView {
        id: "default"@,
        name: "Moonshot"@,
        base_url: "https://api.moonshot.cn/v1"@,
        model_id: "moonshot-v1-8k"@,
        api_key: Seq::empty(),
    }
}

impl ModelProfile {
    /// A blank profile with a fresh random id.
    pub fn new() -> (profile: Self)
        ensures
            is_blank_profile(profile@),
    {
        ModelProfile {
            id: random_id(),
            name: "New Profile".to_owned(),
            base_url: "https://api.openai.com/v1".to_owned(),
            model_id: "gpt-3.5-turbo".to_owned(),
            api_key: String::new(),
        }
    }
}

/// The configuration: the model profiles and which of them is active.
#[derive(Debug, PartialEq)]
pub struct AppConfig {
    pub profiles: Vec<ModelProfile>,
    pub active_profile_id: Option<String>,
    pub custom_prompt: Option<String>,
}

/// Mathematical value of an [`AppConfig`].
pub struct ConfigView {
    pub profiles: Seq<ProfileView>,
    pub active_profile_id: Option<Seq<char>>,
    pub custom_prompt: Option<Seq<char>>,
}

/// Mathematical value of a list of profiles.
pub open spec fn profiles_view(profiles: Seq<ModelProfile>) -> Seq<ProfileView> {
    profiles.map_values(|p: ModelProfile| p@)
}

impl View for AppConfig {
    type V = ConfigView;

    open spec fn view(&self) -> ConfigView {
        ConfigView {
            profiles: profiles_view(self.profiles@),
            active_profile_id: self.active_profile_id.deep_view(),
            custom_prompt: self.custom_prompt.deep_view(),
        }
    }
}

/// Copies a list of profiles.
pub fn clone_profiles(profiles: &Vec<ModelProfile>) -> (copy: Vec<ModelProfile>)
    ensures
        profiles_view(copy@) == profiles_view(profiles@),
{
    let mut copy: Vec<ModelProfile> = Vec::new();
    let mut i: usize = 0;
    while i < profiles.len()
        invariant
            i <= profiles.len(),
            copy.len() == i,
            forall|k: int| 0 <= k < i ==> copy[k]@ == profiles[k]@,
        decreases profiles.len() - i,
    {
        copy.push(profiles[i].clone());
        i += 1;
    }
    assert(profiles_view(copy@) =~= profiles_view(profiles@));
    copy
}

impl Clone for AppConfig {
    fn clone(&self) -> (copy: Self)
        ensures
            copy@ == self@,
    {
        AppConfig {
            profiles: clone_profiles(&self.profiles),
            active_profile_id: clone_opt(&self.active_profile_id),
            custom_prompt: clone_opt(&self.custom_prompt),
        }
    }
}

/// The profile at `i` is the first one with the id `id`.
pub open spec fn is_first_with_id(profiles: Seq<ProfileView>, id: Seq<char>, i: int) -> bool {
    &&& 0 <= i < profiles.len()
    &&& profiles[i].id == id
    &&& forall|j: int| 0 <= j < i ==> (#[trigger] profiles[j]).id != id
}

/// The position of the first profile with the id `id`, if there is one.
pub open spec fn position_of(profiles: Seq<ProfileView>, id: Seq<char>) -> Option<int> {
    if exists|i: int| is_first_with_id(profiles, id, i) {
        Some(choose|i: int| is_first_with_id(profiles, id, i))
    } else {
        None
    }
}

impl ConfigView {
    /// The position of the profile in use: the first one with the active
    /// id; the first one of all where no id is active or no profile has it;
    /// none where there is no profile.
    pub open spec fn selected(self) -> Option<int> {
        let chosen = match self.active_profile_id {
            Some(id) => position_of(self.profiles, id),
            None => None,
        };
        if chosen is Some {
            chosen
        } else if self.profiles.len() > 0 {
            Some(0)
        } else {
            None
        }
    }
}

/// The position of the first profile with the id `id`.
pub fn find_profile(profiles: &Vec<ModelProfile>, id: &String) -> (found: Option<usize>)
    ensures
        match found {
            Some(i) => position_of(profiles_view(profiles@), id@) == Some(i as int),
            None => position_of(profiles_view(profiles@), id@) is None,
        },
{
    let ghost all = profiles_view(profiles@);
    let mut i: usize = 0;
    while i < profiles.len()
        invariant
            i <= profiles.len(),
            all == profiles_view(profiles@),
            forall|j: int| 0 <= j < i ==> (#[trigger] all[j]).id != id@,
        decreases profiles.len() - i,
    {
        if profiles[i].id == *id {
            proof {
                assert(all[i as int].id == id@);
                assert(is_first_with_id(all, id@, i as int));
                let k = choose|k: int| is_first_with_id(all, id@, k);
                assert(k == i) by {
                    if k < i {
                        assert(all[k].id != id@);
                    }
                    if i < k {
                        assert(all[i as int].id != id@);
                    }
                }
            }
            return Some(i);
        }
        i += 1;
    }
    proof {
        assert forall|k: int| !is_first_with_id(all, id@, k) by {
            if 0 <= k < all.len() {
                assert(all[k].id != id@);
            }
        }
    }
    None
}

impl AppConfig {
    /// The configuration of a first start: one profile, which is active.
    pub fn default() -> (config: Self)
        ensures
            config@ == (ConfigView {
                profiles: seq![default_profile()],
                active_profile_id: Some("default"@),
                custom_prompt: None,
            }),
    {
        let profile = ModelProfile {
            id: "default".to_owned(),
            name: "Moonshot".to_owned(),
            base_url: "https://api.moonshot.cn/v1".to_owned(),
            model_id: "moonshot-v1-8k".to_owned(),
            api_key: String::new(),
        };
        let mut profiles: Vec<ModelProfile> = Vec::new();
        profiles.push(profile);
        let config = AppConfig {
            profiles,
            active_profile_id: Some("default".to_owned()),
            custom_prompt: None,
        };
        assert(config@.profiles =~= seq![default_profile()]);
        config
    }

    /// The profile in use: the first profile with the active id; the first
    /// profile of all where no id is active or no profile has the active
    /// id; a blank profile where there is none at all.
    pub fn active_profile(&self) -> (profile: ModelProfile)
        ensures
            match self@.selected() {
                Some(i) => profile@ == self@.profiles[i],
                None => is_blank_profile(profile@),
            },
    {
        if let Some(id) = &self.active_profile_id {
            if let Some(i) = find_profile(&self.profiles, id) {
                return self.profiles[i].clone();
            }
        }
        if self.profiles.len() > 0 {
            self.profiles[0].clone()
        } else {
            ModelProfile::new()
        }
    }
}

impl ConfigView {
    /// The position of the profile that requests can be made with: the
    /// first one with the active id, if it has a key.
    pub open spec fn usable(self) -> Option<int> {
        match self.active_profile_id {
            Some(id) => match position_of(self.profiles, id) {
                Some(i) => if self.profiles[i].api_key.len() > 0 {
                    Some(i)
                } else {
                    None
                },
                None => None,
            },
            None => None,
        }
    }
}

/// The configuration after the profile with the id of `edited` was
/// replaced by `edited`; unchanged where no profile has that id.
pub open spec fn with_profile_replaced(config: ConfigView, edited: ProfileView) -> ConfigView {
    match position_of(config.profiles, edited.id) {
        Some(i) => ConfigView { profiles: config.profiles.update(i, edited), ..config },
        None => config,
    }
}

/// The configuration after `profile` was added and made active.
pub open spec fn with_profile_added(config: ConfigView, profile: ProfileView) -> ConfigView {
    ConfigView {
        profiles: config.profiles.push(profile),
        active_profile_id: Some(profile.id),
        ..config
    }
}

/// The configuration after every profile with the id `id` was removed. The
/// last profile is never removed. Where the removed id was the active one,
/// the first profile that is left becomes active.
pub open spec fn with_profile_deleted(config: ConfigView, id: Seq<char>) -> ConfigView {
    if config.profiles.len() <= 1 {
        config
    } else {
        let kept = config.profiles.filter(|p: ProfileView| p.id != id);
        ConfigView {
            profiles: kept,
            active_profile_id: if config.active_profile_id == Some(id) && kept.len() > 0 {
                Some(kept[0].id)
            } else {
                config.active_profile_id
            },
            ..config
        }
    }
}

impl AppConfig {
    /// The profile that requests can be made with: the active one, if
    /// there is one and it has a key. Without it no request is made.
    pub fn usable_profile(&self) -> (profile: Option<ModelProfile>)
        ensures
            match profile {
                Some(p) => self@.usable() is Some && p@ == self@.profiles[self@.usable()->0],
                None => self@.usable() is None,
            },
    {
        match &self.active_profile_id {
            Some(id) => match find_profile(&self.profiles, id) {
                Some(i) => {
                    if self.profiles[i].api_key.as_str().is_empty() {
                        None
                    } else {
                        Some(self.profiles[i].clone())
                    }
                },
                None => None,
            },
            None => None,
        }
    }

    /// Replaces the first profile that has the id of `edited` by `edited`.
    /// Returns whether there was one; where there was none, nothing changes.
    pub fn replace_profile(&mut self, edited: ModelProfile) -> (replaced: bool)
        ensures
            final(self)@ == with_profile_replaced(old(self)@, edited@),
            replaced == position_of(old(self)@.profiles, edited@.id) is Some,
    {
        match find_profile(&self.profiles, &edited.id) {
            Some(i) => {
                self.profiles[i] = edited;
                assert(self@.profiles =~= old(self)@.profiles.update(i as int, edited@));
                true
            },
            None => false,
        }
    }

    /// Adds a blank profile with a fresh id and makes it active.
    pub fn add_profile(&mut self)
        ensures
            exists|profile: ProfileView|
                is_blank_profile(profile) && final(self)@ == with_profile_added(
                    old(self)@,
                    profile,
                ),
    {
        let profile = ModelProfile::new();
        let ghost added = profile@;
        self.active_profile_id = Some(profile.id.clone());
        self.profiles.push(profile);
        assert(self@.profiles =~= old(self)@.profiles.push(added));
        assert(self@ == with_profile_added(old(self)@, added));
    }

    /// Removes every profile with the id `id`, unless the configuration
    /// holds a single profile, which is never removed. Where the removed id
    /// was active, the first profile that is left becomes active. Returns
    /// whether the configuration held more than one profile.
    pub fn delete_profile(&mut self, id: &String) -> (done: bool)
        ensures
            final(self)@ == with_profile_deleted(old(self)@, id@),
            done == (old(self)@.profiles.len() > 1),
    {
        if self.profiles.len() <= 1 {
            return false;
        }
        let ghost pred = |p: ProfileView| p.id != id@;
        let ghost all = profiles_view(self.profiles@);
        let mut kept: Vec<ModelProfile> = Vec::new();
        let mut i: usize = 0;
        proof {
            reveal(Seq::filter);
            assert(all.take(0) =~= Seq::empty());
            assert(profiles_view(kept@) =~= Seq::empty());
        }
        while i < self.profiles.len()
            invariant
                i <= self.profiles.len(),
                *self == *old(self),
                all == profiles_view(self.profiles@),
                pred == (|p: ProfileView| p.id != id@),
                profiles_view(kept@) == all.take(i as int).filter(pred),
            decreases self.profiles.len() - i,
        {
            let ghost before = profiles_view(kept@);
            if self.profiles[i].id != *id {
                kept.push(self.profiles[i].clone());
                assert(profiles_view(kept@) =~= before.push(all[i as int]));
            }
            proof {
                reveal(Seq::filter);
                assert(all.take(i + 1).drop_last() =~= all.take(i as int));
                assert(all.take(i + 1).last() == all[i as int]);
            }
            i += 1;
        }
        assert(all.take(i as int) =~= all);
        let was_active = match &self.active_profile_id {
            Some(active) => *active == *id,
            None => false,
        };
        if was_active && kept.len() > 0 {
            self.active_profile_id = Some(kept[0].id.clone());
        }
        self.profiles = kept;
        true
    }
}

} // verus!

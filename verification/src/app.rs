//! The session controller: the state of one session, the messages that reach
//! it, and the effects that it asks for in answer. It does no work outside
//! its state; whoever runs it performs each effect and hands the result back
//! as a message.

use crate::db_manager::{clone_lines, clone_profiles, profiles_view, Profile, ProfileView};
use crate::dns_lookup::{error_text, plan_lookup, planned, LookupPlan, LookupPlanView};
use crate::host_manager::{
    lines_view, localhost_entry, localhost_line, Entry, EntryView, Line, LineView,
};
use crate::text::{clone_option, is_text, option_view};
use vstd::prelude::*;
use vstd::string::StringExecFns;

verus! {

/// Whether a record is being edited, and with which draft.
#[derive(Clone, Debug)]
pub enum EditState {
    Idle,
    Editing { index: usize, ip: String, hostname: String },
}

/// What an [`EditState`] holds, as character sequences.
pub enum EditView {
    Idle,
    Editing { index: usize, ip: Seq<char>, hostname: Seq<char> },
}

impl View for EditState {
    type V = EditView;

    open spec fn view(&self) -> EditView {
        match *self {
            EditState::Idle => EditView::Idle,
            EditState::Editing { index, ip, hostname } => EditView::Editing {
                index,
                ip: ip@,
                hostname: hostname@,
            },
        }
    }
}

/// The state of one session.
#[derive(Debug)]
pub struct MyApp {
    /// The host name to look up.
    pub input_text: String,
    /// The name server to ask; empty for the resolver's own.
    pub input_dns_server: String,
    /// The address of the record to add by hand.
    pub input_ip: String,
    /// The host name of the record to add by hand.
    pub input_hostname: String,
    /// The working copy of the lines of the selected profile.
    pub file_lines: Vec<Line>,
    pub editing: EditState,
    pub error_message: Option<String>,
    pub success_message: Option<String>,
    /// The profiles as they were last loaded.
    pub profiles: Vec<Profile>,
    pub selected_profile: Option<Profile>,
    pub new_profile_name: String,
    pub view: crate::screen::View,
}

/// What a [`MyApp`] holds, as sequences.
pub struct MyAppView {
    pub input_text: Seq<char>,
    pub input_dns_server: Seq<char>,
    pub input_ip: Seq<char>,
    pub input_hostname: Seq<char>,
    pub file_lines: Seq<LineView>,
    pub editing: EditView,
    pub error_message: Option<Seq<char>>,
    pub success_message: Option<Seq<char>>,
    pub profiles: Seq<ProfileView>,
    pub selected_profile: Option<ProfileView>,
    pub new_profile_name: Seq<char>,
    pub view: crate::screen::View,
}

/// The view of an optional profile.
pub open spec fn selection_view(p: Option<Profile>) -> Option<ProfileView> {
    match p {
        Some(q) => Some(q@),
        None => None,
    }
}

impl View for MyApp {
    type V = MyAppView;

    open spec fn view(&self) -> MyAppView {
        MyAppView {
            input_text: self.input_text@,
            input_dns_server: self.input_dns_server@,
            input_ip: self.input_ip@,
            input_hostname: self.input_hostname@,
            file_lines: lines_view(self.file_lines@),
            editing: self.editing@,
            error_message: option_view(self.error_message),
            success_message: option_view(self.success_message),
            profiles: profiles_view(self.profiles@),
            selected_profile: selection_view(self.selected_profile),
            new_profile_name: self.new_profile_name@,
            view: self.view,
        }
    }
}

/// The state in which a session starts: nothing entered, nothing loaded,
/// nothing selected, the main screen shown.
pub open spec fn initial() -> MyAppView {
    MyAppView {
        input_text: Seq::empty(),
        input_dns_server: Seq::empty(),
        input_ip: Seq::empty(),
        input_hostname: Seq::empty(),
        file_lines: Seq::empty(),
        editing: EditView::Idle,
        error_message: None,
        success_message: None,
        profiles: Seq::empty(),
        selected_profile: None,
        new_profile_name: Seq::empty(),
        view: crate::screen::View::Main,
    }
}

impl MyApp {
    /// The state in which a session starts.
    pub fn new() -> (state: Self)
        ensures
            state@ == initial(),
    {
        let state = MyApp {
            input_text: String::new(),
            input_dns_server: String::new(),
            input_ip: String::new(),
            input_hostname: String::new(),
            file_lines: Vec::new(),
            editing: EditState::Idle,
            error_message: None,
            success_message: None,
            profiles: Vec::new(),
            selected_profile: None,
            new_profile_name: String::new(),
            view: crate::screen::View::Main,
        };
        assert(state@.file_lines =~= Seq::empty());
        assert(state@.profiles =~= Seq::empty());
        state
    }
}

impl Default for MyApp {
    fn default() -> (state: Self)
        ensures
            state@ == initial(),
    {
        MyApp::new()
    }
}

/// What reaches the session: what the user does, and what comes back from the
/// effects that the session asked for.
#[derive(Debug)]
pub enum Message {
    InputIpChanged(String),
    InputHostnameChanged(String),
    ManualAddButtonPressed,
    InputChanged(String),
    InputDnsServerChanged(String),
    DnsLookupButtonPressed,
    DnsLookupResult(Result<String, String>),
    DeleteEntry(usize),
    EditEntry(usize),
    EditIpChanged(String),
    EditHostnameChanged(String),
    SaveEditedEntry,
    CancelEdit,
    SaveSuccess,
    SaveError(String),
    ProfileSelected(Profile),
    NewProfileNameChanged(String),
    CreateProfileButtonPressed,
    LoadProfiles,
    LoadProfilesResult(Result<Vec<Profile>, String>),
    ShowMainView,
    ShowProfilesView,
    DeleteProfile(String),
    UpdateDatabaseResult(Result<(), String>),
    ExportProfilesButtonPressed,
    ImportProfilesButtonPressed,
    ExportProfilesResult(Result<(), String>),
    ImportProfilesResult(Result<(), String>),
}

/// What a [`Message`] holds, as sequences.
pub enum MessageView {
    InputIpChanged(Seq<char>),
    InputHostnameChanged(Seq<char>),
    ManualAddButtonPressed,
    InputChanged(Seq<char>),
    InputDnsServerChanged(Seq<char>),
    DnsLookupButtonPressed,
    DnsLookupResult(Result<Seq<char>, Seq<char>>),
    DeleteEntry(usize),
    EditEntry(usize),
    EditIpChanged(Seq<char>),
    EditHostnameChanged(Seq<char>),
    SaveEditedEntry,
    CancelEdit,
    SaveSuccess,
    SaveError(Seq<char>),
    ProfileSelected(ProfileView),
    NewProfileNameChanged(Seq<char>),
    CreateProfileButtonPressed,
    LoadProfiles,
    LoadProfilesResult(Result<Seq<ProfileView>, Seq<char>>),
    ShowMainView,
    ShowProfilesView,
    DeleteProfile(Seq<char>),
    UpdateDatabaseResult(Result<(), Seq<char>>),
    ExportProfilesButtonPressed,
    ImportProfilesButtonPressed,
    ExportProfilesResult(Result<(), Seq<char>>),
    ImportProfilesResult(Result<(), Seq<char>>),
}

/// The view of the result of an effect that gives nothing but its success.
pub open spec fn done_view(r: Result<(), String>) -> Result<(), Seq<char>> {
    match r {
        Ok(_) => Ok(()),
        Err(e) => Err(e@),
    }
}

/// The view of the result of a lookup.
pub open spec fn found_view(r: Result<String, String>) -> Result<Seq<char>, Seq<char>> {
    match r {
        Ok(a) => Ok(a@),
        Err(e) => Err(e@),
    }
}

/// The view of the result of reading the profiles.
pub open spec fn loaded_view(r: Result<Vec<Profile>, String>) -> Result<
    Seq<ProfileView>,
    Seq<char>,
> {
    match r {
        Ok(profiles) => Ok(profiles_view(profiles@)),
        Err(e) => Err(e@),
    }
}

impl View for Message {
    type V = MessageView;

    open spec fn view(&self) -> MessageView {
        match *self {
            Message::InputIpChanged(v) => MessageView::InputIpChanged(v@),
            Message::InputHostnameChanged(v) => MessageView::InputHostnameChanged(v@),
            Message::ManualAddButtonPressed => MessageView::ManualAddButtonPressed,
            Message::InputChanged(v) => MessageView::InputChanged(v@),
            Message::InputDnsServerChanged(v) => MessageView::InputDnsServerChanged(v@),
            Message::DnsLookupButtonPressed => MessageView::DnsLookupButtonPressed,
            Message::DnsLookupResult(r) => MessageView::DnsLookupResult(found_view(r)),
            Message::DeleteEntry(i) => MessageView::DeleteEntry(i),
            Message::EditEntry(i) => MessageView::EditEntry(i),
            Message::EditIpChanged(v) => MessageView::EditIpChanged(v@),
            Message::EditHostnameChanged(v) => MessageView::EditHostnameChanged(v@),
            Message::SaveEditedEntry => MessageView::SaveEditedEntry,
            Message::CancelEdit => MessageView::CancelEdit,
            Message::SaveSuccess => MessageView::SaveSuccess,
            Message::SaveError(e) => MessageView::SaveError(e@),
            Message::ProfileSelected(p) => MessageView::ProfileSelected(p@),
            Message::NewProfileNameChanged(v) => MessageView::NewProfileNameChanged(v@),
            Message::CreateProfileButtonPressed => MessageView::CreateProfileButtonPressed,
            Message::LoadProfiles => MessageView::LoadProfiles,
            Message::LoadProfilesResult(r) => MessageView::LoadProfilesResult(loaded_view(r)),
            Message::ShowMainView => MessageView::ShowMainView,
            Message::ShowProfilesView => MessageView::ShowProfilesView,
            Message::DeleteProfile(id) => MessageView::DeleteProfile(id@),
            Message::UpdateDatabaseResult(r) => MessageView::UpdateDatabaseResult(done_view(r)),
            Message::ExportProfilesButtonPressed => MessageView::ExportProfilesButtonPressed,
            Message::ImportProfilesButtonPressed => MessageView::ImportProfilesButtonPressed,
            Message::ExportProfilesResult(r) => MessageView::ExportProfilesResult(done_view(r)),
            Message::ImportProfilesResult(r) => MessageView::ImportProfilesResult(done_view(r)),
        }
    }
}

/// A copy of the result of an effect that gives nothing but its success.
fn clone_done(r: &Result<(), String>) -> (c: Result<(), String>)
    ensures
        done_view(c) == done_view(*r),
{
    match r {
        Ok(_) => Ok(()),
        Err(e) => Err(e.clone()),
    }
}

impl Clone for Message {
    fn clone(&self) -> (r: Self)
        ensures
            r@ == self@,
    {
        match self {
            Message::InputIpChanged(v) => Message::InputIpChanged(v.clone()),
            Message::InputHostnameChanged(v) => Message::InputHostnameChanged(v.clone()),
            Message::ManualAddButtonPressed => Message::ManualAddButtonPressed,
            Message::InputChanged(v) => Message::InputChanged(v.clone()),
            Message::InputDnsServerChanged(v) => Message::InputDnsServerChanged(v.clone()),
            Message::DnsLookupButtonPressed => Message::DnsLookupButtonPressed,
            Message::DnsLookupResult(r) => Message::DnsLookupResult(
                match r {
                    Ok(a) => Ok(a.clone()),
                    Err(e) => Err(e.clone()),
                },
            ),
            Message::DeleteEntry(i) => Message::DeleteEntry(*i),
            Message::EditEntry(i) => Message::EditEntry(*i),
            Message::EditIpChanged(v) => Message::EditIpChanged(v.clone()),
            Message::EditHostnameChanged(v) => Message::EditHostnameChanged(v.clone()),
            Message::SaveEditedEntry => Message::SaveEditedEntry,
            Message::CancelEdit => Message::CancelEdit,
            Message::SaveSuccess => Message::SaveSuccess,
            Message::SaveError(e) => Message::SaveError(e.clone()),
            Message::ProfileSelected(p) => Message::ProfileSelected(p.clone()),
            Message::NewProfileNameChanged(v) => Message::NewProfileNameChanged(v.clone()),
            Message::CreateProfileButtonPressed => Message::CreateProfileButtonPressed,
            Message::LoadProfiles => Message::LoadProfiles,
            Message::LoadProfilesResult(r) => Message::LoadProfilesResult(
                match r {
                    Ok(profiles) => Ok(clone_profiles(profiles.as_slice())),
                    Err(e) => Err(e.clone()),
                },
            ),
            Message::ShowMainView => Message::ShowMainView,
            Message::ShowProfilesView => Message::ShowProfilesView,
            Message::DeleteProfile(id) => Message::DeleteProfile(id.clone()),
            Message::UpdateDatabaseResult(r) => Message::UpdateDatabaseResult(clone_done(r)),
            Message::ExportProfilesButtonPressed => Message::ExportProfilesButtonPressed,
            Message::ImportProfilesButtonPressed => Message::ImportProfilesButtonPressed,
            Message::ExportProfilesResult(r) => Message::ExportProfilesResult(clone_done(r)),
            Message::ImportProfilesResult(r) => Message::ImportProfilesResult(clone_done(r)),
        }
    }
}

/// One unit of work that the session asks for. Each runs by itself: of two
/// asked for together either may end first, and each reports its own result.
#[derive(Clone, Debug)]
pub enum Effect {
    /// Write the lines to the hosts file. Answered by `SaveSuccess` or
    /// `SaveError`.
    WriteHosts(Vec<Line>),
    /// Store the lines of the profile. Answered by `UpdateDatabaseResult`.
    UpdateProfile(Profile),
    /// Make the lookup. Answered by `DnsLookupResult`.
    Resolve(LookupPlan),
    /// Read all profiles. Answered by `LoadProfilesResult`.
    LoadProfiles,
    /// Create the profile `Default` from the lines of the hosts file as it
    /// is. Answered by `LoadProfiles` or `SaveError`.
    SeedDefaultProfile,
    /// Make the profile with this identifier the active one. Answered by
    /// `LoadProfiles` or `SaveError`.
    ActivateProfile(String),
    /// Create a profile. Answered by `LoadProfiles` or `SaveError`.
    CreateProfile { name: String, hosts: Vec<Line> },
    /// Delete the profile with this identifier. Answered by `LoadProfiles` or
    /// `SaveError`.
    DeleteProfile(String),
    /// Write the profile to a file of the user's choice. Answered by
    /// `ExportProfilesResult`.
    ExportProfile(Profile),
    /// Read a profile from a file of the user's choice and add it to the
    /// store. Answered by `ImportProfilesResult`.
    ImportProfile,
}

/// What an [`Effect`] holds, as sequences.
pub enum EffectView {
    WriteHosts(Seq<LineView>),
    UpdateProfile(ProfileView),
    Resolve(LookupPlanView),
    LoadProfiles,
    SeedDefaultProfile,
    ActivateProfile(Seq<char>),
    CreateProfile { name: Seq<char>, hosts: Seq<LineView> },
    DeleteProfile(Seq<char>),
    ExportProfile(ProfileView),
    ImportProfile,
}

impl View for Effect {
    type V = EffectView;

    open spec fn view(&self) -> EffectView {
        match *self {
            Effect::WriteHosts(lines) => EffectView::WriteHosts(lines_view(lines@)),
            Effect::UpdateProfile(p) => EffectView::UpdateProfile(p@),
            Effect::Resolve(plan) => EffectView::Resolve(plan@),
            Effect::LoadProfiles => EffectView::LoadProfiles,
            Effect::SeedDefaultProfile => EffectView::SeedDefaultProfile,
            Effect::ActivateProfile(id) => EffectView::ActivateProfile(id@),
            Effect::CreateProfile { name, hosts } => EffectView::CreateProfile {
                name: name@,
                hosts: lines_view(hosts@),
            },
            Effect::DeleteProfile(id) => EffectView::DeleteProfile(id@),
            Effect::ExportProfile(p) => EffectView::ExportProfile(p@),
            Effect::ImportProfile => EffectView::ImportProfile,
        }
    }
}

/// The views of a sequence of effects, in order.
pub open spec fn effects_view(effects: Seq<Effect>) -> Seq<EffectView> {
    Seq::new(effects.len(), |i: int| effects[i]@)
}

/// The name of the profile that cannot be deleted.
pub open spec fn default_name() -> Seq<char> {
    "Default"@
}

/// The name of the profile that cannot be deleted.
pub fn default_profile_name() -> (name: String)
    ensures
        name@ == default_name(),
{
    String::from_str("Default")
}

/// A state and the effects asked for on reaching it.
pub struct Outcome {
    pub state: MyAppView,
    pub effects: Seq<EffectView>,
}

/// `s`, and nothing to do.
pub open spec fn quiet(s: MyAppView) -> Outcome {
    Outcome { state: s, effects: Seq::empty() }
}

/// `s` with `text` as its error, and nothing to do.
pub open spec fn failed(s: MyAppView, text: Seq<char>) -> Outcome {
    quiet(MyAppView { error_message: Some(text), ..s })
}

/// `s` with `text` as its success message, and nothing to do.
pub open spec fn succeeded(s: MyAppView, text: Seq<char>) -> Outcome {
    quiet(MyAppView { success_message: Some(text), ..s })
}

/// `s` with `text` as its success message, and `effect` to do.
pub open spec fn started(s: MyAppView, text: Seq<char>, effect: EffectView) -> Outcome {
    Outcome { state: MyAppView { success_message: Some(text), ..s }, effects: seq![effect] }
}

/// `s` without its error and its success message.
pub open spec fn cleared(s: MyAppView) -> MyAppView {
    MyAppView { error_message: None, success_message: None, ..s }
}

/// A record in force, without a comment.
pub open spec fn new_entry(ip: Seq<char>, hostname: Seq<char>) -> LineView {
    LineView::Entry(EntryView { ip, hostname, enabled: true, comment: None })
}

/// What follows a change of the working lines. Where a profile is selected,
/// it takes the working lines, and two effects are asked for: the write of
/// the hosts file and the update of the stored profile. Where none is, the
/// change fails with `failure` and nothing is asked for.
pub open spec fn synced(s: MyAppView, failure: Seq<char>) -> Outcome {
    match s.selected_profile {
        Some(p) => {
            let q = ProfileView { hosts: s.file_lines, ..p };
            Outcome {
                state: MyAppView { selected_profile: Some(q), ..s },
                effects: seq![EffectView::WriteHosts(s.file_lines), EffectView::UpdateProfile(q)],
            }
        },
        None => failed(s, failure),
    }
}

/// The user asks to add the record that was entered by hand.
pub open spec fn after_manual_add(s: MyAppView) -> Outcome {
    if s.input_hostname.len() == 0 || s.input_ip.len() == 0 {
        failed(s, "IP e Hostname non possono essere vuoti."@)
    } else {
        synced(
            MyAppView {
                input_ip: Seq::empty(),
                input_hostname: Seq::empty(),
                file_lines: s.file_lines.push(new_entry(s.input_ip, s.input_hostname)),
                ..s
            },
            "Seleziona un profilo per aggiungere un host."@,
        )
    }
}

/// The user asks to look a host name up.
pub open spec fn after_lookup_pressed(s: MyAppView) -> Outcome {
    if s.input_text.len() == 0 {
        failed(s, "L'hostname non può essere vuoto per il lookup DNS."@)
    } else {
        match planned(s.input_text, s.input_dns_server) {
            Ok(plan) => started(s, "Ricerca IP in corso..."@, EffectView::Resolve(plan)),
            Err(e) => failed(s, error_text(e)),
        }
    }
}

/// A lookup gave the address `ip`: a record for the name in the input is
/// added. The name stays in the input while a profile is selected.
pub open spec fn after_lookup_found(s: MyAppView, ip: Seq<char>) -> Outcome {
    let found = MyAppView {
        success_message: Some("IP trovato: "@ + ip),
        file_lines: s.file_lines.push(new_entry(ip, s.input_text)),
        ..s
    };
    let synced = synced(found, "Seleziona un profilo per aggiungere un host."@);
    if s.selected_profile is Some {
        synced
    } else {
        quiet(MyAppView { input_text: Seq::empty(), ..synced.state })
    }
}

/// The user asks to delete the line at `index`.
pub open spec fn after_delete_entry(s: MyAppView, index: usize) -> Outcome {
    if index < s.file_lines.len() {
        synced(
            MyAppView { file_lines: s.file_lines.remove(index as int), ..s },
            "Seleziona un profilo per salvare le modifiche."@,
        )
    } else {
        quiet(s)
    }
}

/// The user asks to edit the line at `index`: where it is a record, editing
/// begins with the record's address and name as the draft.
pub open spec fn after_edit_entry(s: MyAppView, index: usize) -> Outcome {
    if index < s.file_lines.len() && s.file_lines[index as int] is Entry {
        let e = s.file_lines[index as int]->Entry_0;
        quiet(
            MyAppView {
                editing: EditView::Editing { index, ip: e.ip, hostname: e.hostname },
                ..s
            },
        )
    } else {
        quiet(s)
    }
}

/// The user changes the address of the draft.
pub open spec fn after_edit_ip(s: MyAppView, value: Seq<char>) -> Outcome {
    match s.editing {
        EditView::Editing { index, ip, hostname } => quiet(
            MyAppView { editing: EditView::Editing { index, ip: value, hostname }, ..s },
        ),
        EditView::Idle => quiet(s),
    }
}

/// The user changes the host name of the draft.
pub open spec fn after_edit_hostname(s: MyAppView, value: Seq<char>) -> Outcome {
    match s.editing {
        EditView::Editing { index, ip, hostname } => quiet(
            MyAppView { editing: EditView::Editing { index, ip, hostname: value }, ..s },
        ),
        EditView::Idle => quiet(s),
    }
}

/// The user asks to save the draft: where the line that is edited is a
/// record still, it takes the address and the name of the draft, and editing
/// ends.
pub open spec fn after_save_edit(s: MyAppView) -> Outcome {
    match s.editing {
        EditView::Editing { index, ip, hostname } => {
            if index < s.file_lines.len() && s.file_lines[index as int] is Entry {
                let e = s.file_lines[index as int]->Entry_0;
                let saved = LineView::Entry(EntryView { ip, hostname, ..e });
                synced(
                    MyAppView {
                        file_lines: s.file_lines.update(index as int, saved),
                        editing: EditView::Idle,
                        ..s
                    },
                    "Select a profile to save changes."@,
                )
            } else {
                quiet(s)
            }
        },
        EditView::Idle => quiet(s),
    }
}

/// The index of the first active profile, or the number of profiles where
/// none is active.
pub open spec fn first_active(profiles: Seq<ProfileView>) -> int
    decreases profiles.len(),
{
    if profiles.len() == 0 || profiles[0].is_active {
        0
    } else {
        1 + first_active(profiles.drop_first())
    }
}

/// The profiles were read. Where there is none, the profile `Default` is
/// asked for. Otherwise the first active one is selected, or the first of
/// all where none is active, and its lines become the working lines.
pub open spec fn after_profiles_loaded(s: MyAppView, profiles: Seq<ProfileView>) -> Outcome {
    if profiles.len() == 0 {
        started(s, "Creazione del profilo 'Default'..."@, EffectView::SeedDefaultProfile)
    } else {
        let k = first_active(profiles);
        let chosen = if k < profiles.len() {
            profiles[k]
        } else {
            profiles[0]
        };
        let text = if k < profiles.len() {
            "Caricato il profilo: "@ + chosen.name
        } else {
            "Caricato il profilo di default: "@ + chosen.name
        };
        succeeded(
            MyAppView {
                profiles,
                selected_profile: Some(chosen),
                file_lines: chosen.hosts,
                ..s
            },
            text,
        )
    }
}

/// The user selects `p`: its lines become the working lines, and the write
/// of the hosts file and the activation of `p` are asked for.
pub open spec fn after_profile_selected(s: MyAppView, p: ProfileView) -> Outcome {
    Outcome {
        state: MyAppView { selected_profile: Some(p), file_lines: p.hosts, ..s },
        effects: seq![EffectView::WriteHosts(p.hosts), EffectView::ActivateProfile(p.id)],
    }
}

/// The user asks for a new profile: it starts with the localhost record.
pub open spec fn after_create_pressed(s: MyAppView) -> Outcome {
    if s.new_profile_name.len() == 0 {
        failed(s, "Il nome del profilo non può essere vuoto."@)
    } else {
        Outcome {
            state: s,
            effects: seq![
                EffectView::CreateProfile { name: s.new_profile_name, hosts: seq![localhost_line()] },
            ],
        }
    }
}

/// Whether `id` is the identifier of the selected profile.
pub open spec fn is_selected(s: MyAppView, id: Seq<char>) -> bool {
    s.selected_profile matches Some(p) && p.id == id
}

/// Whether the session knows the profile `id` under the name `Default`: as
/// the selected profile, or among the profiles as they were last loaded.
pub open spec fn is_default(s: MyAppView, id: Seq<char>) -> bool {
    ||| s.selected_profile matches Some(p) && p.id == id && p.name == default_name()
    ||| exists|i: int|
        0 <= i < s.profiles.len() && (#[trigger] s.profiles[i]).id == id && s.profiles[i].name
            == default_name()
}

/// The user asks to delete the profile `id`. The profile `Default` and the
/// selected profile are refused; for any other the deletion is asked for.
pub open spec fn after_delete_profile(s: MyAppView, id: Seq<char>) -> Outcome {
    if is_default(s, id) {
        failed(s, "Impossibile eliminare il profilo 'Default'."@)
    } else if is_selected(s, id) {
        failed(
            s,
            "Impossibile eliminare il profilo attivo. Seleziona un altro profilo prima di procedere."@,
        )
    } else {
        started(s, "Eliminazione del profilo..."@, EffectView::DeleteProfile(id))
    }
}

/// The user asks to export the selected profile.
pub open spec fn after_export_pressed(s: MyAppView) -> Outcome {
    match s.selected_profile {
        Some(p) => started(s, "Apertura finestra di dialogo..."@, EffectView::ExportProfile(p)),
        None => failed(s, "Seleziona un profilo da esportare."@),
    }
}

/// The state and the effects that a message leads to. Every message but
/// `SaveSuccess` and `SaveError` first clears the error and the success
/// message of the state.
pub open spec fn step(s0: MyAppView, message: MessageView) -> Outcome {
    let s = cleared(s0);
    match message {
        MessageView::SaveSuccess => quiet(
            MyAppView {
                error_message: None,
                success_message: Some("Salvataggio riuscito."@),
                ..s0
            },
        ),
        MessageView::SaveError(e) => failed(s0, e),
        MessageView::InputIpChanged(v) => quiet(MyAppView { input_ip: v, ..s }),
        MessageView::InputHostnameChanged(v) => quiet(MyAppView { input_hostname: v, ..s }),
        MessageView::InputChanged(v) => quiet(MyAppView { input_text: v, ..s }),
        MessageView::InputDnsServerChanged(v) => quiet(MyAppView { input_dns_server: v, ..s }),
        MessageView::NewProfileNameChanged(v) => quiet(MyAppView { new_profile_name: v, ..s }),
        MessageView::ManualAddButtonPressed => after_manual_add(s),
        MessageView::DnsLookupButtonPressed => after_lookup_pressed(s),
        MessageView::DnsLookupResult(Ok(ip)) => after_lookup_found(s, ip),
        MessageView::DnsLookupResult(Err(e)) => failed(s, e),
        MessageView::DeleteEntry(index) => after_delete_entry(s, index),
        MessageView::EditEntry(index) => after_edit_entry(s, index),
        MessageView::EditIpChanged(v) => after_edit_ip(s, v),
        MessageView::EditHostnameChanged(v) => after_edit_hostname(s, v),
        MessageView::SaveEditedEntry => after_save_edit(s),
        MessageView::CancelEdit => quiet(MyAppView { editing: EditView::Idle, ..s }),
        MessageView::ProfileSelected(p) => after_profile_selected(s, p),
        MessageView::CreateProfileButtonPressed => after_create_pressed(s),
        MessageView::LoadProfiles => Outcome { state: s, effects: seq![EffectView::LoadProfiles] },
        MessageView::LoadProfilesResult(Ok(profiles)) => after_profiles_loaded(
            s,
            profiles,
        ),
        MessageView::LoadProfilesResult(Err(e)) => failed(s, e),
        MessageView::ShowMainView => quiet(MyAppView { view: crate::screen::View::Main, ..s }),
        MessageView::ShowProfilesView => quiet(
            MyAppView { view: crate::screen::View::Profiles, ..s },
        ),
        MessageView::DeleteProfile(id) => after_delete_profile(s, id),
        MessageView::UpdateDatabaseResult(Ok(_)) => quiet(s),
        MessageView::UpdateDatabaseResult(Err(e)) => failed(
            s,
            "Errore nell'aggiornamento del database: "@ + e,
        ),
        MessageView::ExportProfilesButtonPressed => after_export_pressed(s),
        MessageView::ImportProfilesButtonPressed => started(
            s,
            "Apertura finestra di dialogo..."@,
            EffectView::ImportProfile,
        ),
        MessageView::ExportProfilesResult(Ok(_)) => succeeded(s, "Profilo esportato con successo!"@),
        MessageView::ExportProfilesResult(Err(e)) => failed(s, e),
        MessageView::ImportProfilesResult(Ok(_)) => succeeded(s, "Profilo importato con successo!"@),
        MessageView::ImportProfilesResult(Err(e)) => failed(s, e),
    }
}

/// Whether what a handler left behind is what `outcome` says.
pub open spec fn reached(state: MyApp, effects: Vec<Effect>, outcome: Outcome) -> bool {
    state@ == outcome.state && effects_view(effects@) == outcome.effects
}

/// No effects.
fn nothing() -> (effects: Vec<Effect>)
    ensures
        effects_view(effects@) == Seq::<EffectView>::empty(),
{
    let effects: Vec<Effect> = Vec::new();
    assert(effects_view(effects@) =~= Seq::<EffectView>::empty());
    effects
}

/// The one effect `effect`.
fn only(effect: Effect) -> (effects: Vec<Effect>)
    ensures
        effects_view(effects@) == seq![effect@],
{
    let mut effects: Vec<Effect> = Vec::new();
    effects.push(effect);
    assert(effects_view(effects@) =~= seq![effect@]);
    effects
}

/// The two effects `first` and `second`.
fn both(first: Effect, second: Effect) -> (effects: Vec<Effect>)
    ensures
        effects_view(effects@) == seq![first@, second@],
{
    let mut effects: Vec<Effect> = Vec::new();
    effects.push(first);
    effects.push(second);
    assert(effects_view(effects@) =~= seq![first@, second@]);
    effects
}

/// Shows `text` as the error and asks for nothing.
fn fail(state: &mut MyApp, text: &str) -> (effects: Vec<Effect>)
    ensures
        reached(*final(state), effects, failed(old(state)@, text@)),
{
    state.error_message = Some(String::from_str(text));
    nothing()
}

/// Shows `text` as the success message and asks for nothing.
fn succeed(state: &mut MyApp, text: &str) -> (effects: Vec<Effect>)
    ensures
        reached(*final(state), effects, succeeded(old(state)@, text@)),
{
    state.success_message = Some(String::from_str(text));
    nothing()
}

/// Shows `text` as the success message and asks for `effect`.
fn start(state: &mut MyApp, text: &str, effect: Effect) -> (effects: Vec<Effect>)
    ensures
        reached(*final(state), effects, started(old(state)@, text@, effect@)),
{
    state.success_message = Some(String::from_str(text));
    only(effect)
}

/// Hands the working lines to the selected profile and asks for both
/// saves, or fails with `failure` where no profile is selected.
fn sync(state: &mut MyApp, failure: &str) -> (effects: Vec<Effect>)
    ensures
        reached(*final(state), effects, synced(old(state)@, failure@)),
{
    let selected = match &state.selected_profile {
        Some(p) => Some(
            Profile {
                id: p.id.clone(),
                name: p.name.clone(),
                hosts: clone_lines(state.file_lines.as_slice()),
                is_active: p.is_active,
            },
        ),
        None => None,
    };
    match selected {
        Some(q) => {
            let effects = both(
                Effect::WriteHosts(clone_lines(state.file_lines.as_slice())),
                Effect::UpdateProfile(q.clone()),
            );
            state.selected_profile = Some(q);
            effects
        },
        None => fail(state, failure),
    }
}

/// Adds the record that was entered by hand.
fn on_manual_add(state: &mut MyApp) -> (effects: Vec<Effect>)
    ensures
        reached(*final(state), effects, after_manual_add(old(state)@)),
{
    if state.input_hostname.as_str().is_empty() || state.input_ip.as_str().is_empty() {
        return fail(state, "IP e Hostname non possono essere vuoti.");
    }
    let entry = Line::Entry(
        Entry {
            ip: state.input_ip.clone(),
            hostname: state.input_hostname.clone(),
            enabled: true,
            comment: None,
        },
    );
    state.input_ip = String::new();
    state.input_hostname = String::new();
    let ghost before = lines_view(state.file_lines@);
    state.file_lines.push(entry);
    assert(lines_view(state.file_lines@) =~= before.push(entry@));
    sync(state, "Seleziona un profilo per aggiungere un host.")
}

/// Plans the lookup of the name in the input.
fn on_lookup_pressed(state: &mut MyApp) -> (effects: Vec<Effect>)
    ensures
        reached(*final(state), effects, after_lookup_pressed(old(state)@)),
{
    if state.input_text.as_str().is_empty() {
        return fail(state, "L'hostname non può essere vuoto per il lookup DNS.");
    }
    match plan_lookup(state.input_text.as_str(), state.input_dns_server.as_str()) {
        Ok(plan) => start(state, "Ricerca IP in corso...", Effect::Resolve(plan)),
        Err(e) => {
            let text = e.message();
            fail(state, text.as_str())
        },
    }
}

/// Adds a record for the address that a lookup gave.
fn on_lookup_found(state: &mut MyApp, ip: String) -> (effects: Vec<Effect>)
    ensures
        reached(*final(state), effects, after_lookup_found(old(state)@, ip@)),
{
    state.success_message = Some(String::from_str("IP trovato: ").concat(ip.as_str()));
    let entry = Line::Entry(
        Entry { ip, hostname: state.input_text.clone(), enabled: true, comment: None },
    );
    let ghost before = lines_view(state.file_lines@);
    state.file_lines.push(entry);
    assert(lines_view(state.file_lines@) =~= before.push(entry@));
    let selected = state.selected_profile.is_some();
    let effects = sync(state, "Seleziona un profilo per aggiungere un host.");
    if !selected {
        state.input_text = String::new();
    }
    effects
}

/// Deletes the line at `index`.
fn on_delete_entry(state: &mut MyApp, index: usize) -> (effects: Vec<Effect>)
    ensures
        reached(*final(state), effects, after_delete_entry(old(state)@, index)),
{
    if index < state.file_lines.len() {
        let ghost before = lines_view(state.file_lines@);
        state.file_lines.remove(index);
        assert(lines_view(state.file_lines@) =~= before.remove(index as int));
        sync(state, "Seleziona un profilo per salvare le modifiche.")
    } else {
        nothing()
    }
}

/// Begins to edit the record at `index`.
fn on_edit_entry(state: &mut MyApp, index: usize) -> (effects: Vec<Effect>)
    ensures
        reached(*final(state), effects, after_edit_entry(old(state)@, index)),
{
    if index < state.file_lines.len() {
        match &state.file_lines[index] {
            Line::Entry(e) => {
                state.editing = EditState::Editing {
                    index,
                    ip: e.ip.clone(),
                    hostname: e.hostname.clone(),
                };
            },
            _ => {},
        }
    }
    nothing()
}

/// Changes the address of the draft.
fn on_edit_ip(state: &mut MyApp, value: String) -> (effects: Vec<Effect>)
    ensures
        reached(*final(state), effects, after_edit_ip(old(state)@, value@)),
{
    let next = match &state.editing {
        EditState::Editing { index, ip, hostname } => Some(
            EditState::Editing { index: *index, ip: value, hostname: hostname.clone() },
        ),
        EditState::Idle => None,
    };
    match next {
        Some(e) => {
            state.editing = e;
        },
        None => {},
    }
    nothing()
}

/// Changes the host name of the draft.
fn on_edit_hostname(state: &mut MyApp, value: String) -> (effects: Vec<Effect>)
    ensures
        reached(*final(state), effects, after_edit_hostname(old(state)@, value@)),
{
    let next = match &state.editing {
        EditState::Editing { index, ip, hostname } => Some(
            EditState::Editing { index: *index, ip: ip.clone(), hostname: value },
        ),
        EditState::Idle => None,
    };
    match next {
        Some(e) => {
            state.editing = e;
        },
        None => {},
    }
    nothing()
}

/// Commits the draft to the record that is edited.
fn on_save_edit(state: &mut MyApp) -> (effects: Vec<Effect>)
    ensures
        reached(*final(state), effects, after_save_edit(old(state)@)),
{
    let saved = match &state.editing {
        EditState::Editing { index, ip, hostname } => {
            if *index < state.file_lines.len() {
                match &state.file_lines[*index] {
                    Line::Entry(e) => Some(
                        (
                            *index,
                            Line::Entry(
                                Entry {
                                    ip: ip.clone(),
                                    hostname: hostname.clone(),
                                    enabled: e.enabled,
                                    comment: clone_option(&e.comment),
                                },
                            ),
                        ),
                    ),
                    _ => None,
                }
            } else {
                None
            }
        },
        EditState::Idle => None,
    };
    match saved {
        Some((index, line)) => {
            let ghost before = lines_view(state.file_lines@);
            state.file_lines.set(index, line);
            assert(lines_view(state.file_lines@) =~= before.update(index as int, line@));
            state.editing = EditState::Idle;
            sync(state, "Select a profile to save changes.")
        },
        None => nothing(),
    }
}

/// Below the first active profile none is active.
pub proof fn lemma_first_active_is(profiles: Seq<ProfileView>, k: int)
    requires
        0 <= k <= profiles.len(),
        forall|i: int| 0 <= i < k ==> !(#[trigger] profiles[i]).is_active,
        k < profiles.len() ==> profiles[k].is_active,
    ensures
        first_active(profiles) == k,
    decreases k,
{
    if k > 0 {
        assert(!profiles[0].is_active);
        let rest = profiles.drop_first();
        assert forall|i: int| 0 <= i < k - 1 implies !(#[trigger] rest[i]).is_active by {
            assert(rest[i] == profiles[i + 1]);
        }
        lemma_first_active_is(rest, k - 1);
    }
}

/// Takes the profiles that were read and selects one of them.
fn on_profiles_loaded(state: &mut MyApp, profiles: Vec<Profile>) -> (effects: Vec<Effect>)
    ensures
        reached(*final(state), effects, after_profiles_loaded(old(state)@, profiles_view(profiles@))),
{
    if profiles.len() == 0 {
        return start(state, "Creazione del profilo 'Default'...", Effect::SeedDefaultProfile);
    }
    let ghost view = profiles_view(profiles@);
    let mut k: usize = 0;
    while k < profiles.len() && !profiles[k].is_active
        invariant
            k <= profiles.len(),
            view == profiles_view(profiles@),
            forall|i: int| 0 <= i < k ==> !(#[trigger] view[i]).is_active,
        decreases profiles.len() - k,
    {
        assert(view[k as int].is_active == profiles@[k as int].is_active);
        k = k + 1;
    }
    proof {
        if k < profiles.len() {
            assert(view[k as int].is_active == profiles@[k as int].is_active);
        }
        lemma_first_active_is(view, k as int);
    }
    let (chosen, text) = if k < profiles.len() {
        (profiles[k].clone(), String::from_str("Caricato il profilo: "))
    } else {
        (profiles[0].clone(), String::from_str("Caricato il profilo di default: "))
    };
    state.file_lines = clone_lines(chosen.hosts.as_slice());
    state.success_message = Some(text.concat(chosen.name.as_str()));
    state.selected_profile = Some(chosen);
    state.profiles = profiles;
    nothing()
}

/// Switches to `profile`.
fn on_profile_selected(state: &mut MyApp, profile: Profile) -> (effects: Vec<Effect>)
    ensures
        reached(*final(state), effects, after_profile_selected(old(state)@, profile@)),
{
    state.file_lines = clone_lines(profile.hosts.as_slice());
    let effects = both(
        Effect::WriteHosts(clone_lines(profile.hosts.as_slice())),
        Effect::ActivateProfile(profile.id.clone()),
    );
    state.selected_profile = Some(profile);
    effects
}

/// Asks for a new profile under the name in the input.
fn on_create_pressed(state: &mut MyApp) -> (effects: Vec<Effect>)
    ensures
        reached(*final(state), effects, after_create_pressed(old(state)@)),
{
    if state.new_profile_name.as_str().is_empty() {
        return fail(state, "Il nome del profilo non può essere vuoto.");
    }
    let mut hosts: Vec<Line> = Vec::new();
    hosts.push(localhost_entry());
    assert(lines_view(hosts@) =~= seq![localhost_line()]);
    only(Effect::CreateProfile { name: state.new_profile_name.clone(), hosts })
}

/// Whether the session knows the profile `id` under the name `Default`.
fn knows_as_default(state: &MyApp, id: &str) -> (r: bool)
    ensures
        r == is_default(state@, id@),
{
    match &state.selected_profile {
        Some(p) => {
            if is_text(&p.id, id) && is_text(&p.name, "Default") {
                return true;
            }
        },
        None => {},
    }
    let ghost view = profiles_view(state.profiles@);
    let mut i: usize = 0;
    while i < state.profiles.len()
        invariant
            i <= state.profiles.len(),
            view == profiles_view(state.profiles@),
            forall|j: int|
                0 <= j < i ==> !((#[trigger] view[j]).id == id@ && view[j].name == default_name()),
        decreases state.profiles.len() - i,
    {
        assert(view[i as int].id == state.profiles@[i as int].id@);
        assert(view[i as int].name == state.profiles@[i as int].name@);
        if is_text(&state.profiles[i].id, id) && is_text(&state.profiles[i].name, "Default") {
            assert(state@.profiles[i as int] == view[i as int]);
            return true;
        }
        i = i + 1;
    }
    false
}

/// Asks for the deletion of the profile `id`, unless it is guarded.
fn on_delete_profile(state: &mut MyApp, id: String) -> (effects: Vec<Effect>)
    ensures
        reached(*final(state), effects, after_delete_profile(old(state)@, id@)),
{
    if knows_as_default(state, id.as_str()) {
        return fail(state, "Impossibile eliminare il profilo 'Default'.");
    }
    let selected = match &state.selected_profile {
        Some(p) => p.id == id,
        None => false,
    };
    if selected {
        return fail(
            state,
            "Impossibile eliminare il profilo attivo. Seleziona un altro profilo prima di procedere.",
        );
    }
    start(state, "Eliminazione del profilo...", Effect::DeleteProfile(id))
}

/// Asks for the export of the selected profile.
fn on_export_pressed(state: &mut MyApp) -> (effects: Vec<Effect>)
    ensures
        reached(*final(state), effects, after_export_pressed(old(state)@)),
{
    let chosen = match &state.selected_profile {
        Some(p) => Some(p.clone()),
        None => None,
    };
    match chosen {
        Some(p) => start(state, "Apertura finestra di dialogo...", Effect::ExportProfile(p)),
        None => fail(state, "Seleziona un profilo da esportare."),
    }
}

/// The message that answers `effect` where its work failed for `reason`.
/// A failed change of the store is shown like a failed write, with what was
/// being done put before the reason.
pub open spec fn failure_reply(effect: EffectView, reason: Seq<char>) -> MessageView {
    match effect {
        EffectView::WriteHosts(_) => MessageView::SaveError(reason),
        EffectView::UpdateProfile(_) => MessageView::UpdateDatabaseResult(Err(reason)),
        EffectView::Resolve(_) => MessageView::DnsLookupResult(Err(reason)),
        EffectView::LoadProfiles => MessageView::LoadProfilesResult(Err(reason)),
        EffectView::SeedDefaultProfile => MessageView::SaveError(
            "Errore nella creazione del profilo di default: "@ + reason,
        ),
        EffectView::ActivateProfile(_) => MessageView::SaveError(
            "Errore nell'attivazione del profilo: "@ + reason,
        ),
        EffectView::CreateProfile { .. } => MessageView::SaveError(
            "Errore nella creazione del profilo: "@ + reason,
        ),
        EffectView::DeleteProfile(_) => MessageView::SaveError(
            "Errore nell'eliminazione del profilo: "@ + reason,
        ),
        EffectView::ExportProfile(_) => MessageView::ExportProfilesResult(Err(reason)),
        EffectView::ImportProfile => MessageView::ImportProfilesResult(Err(reason)),
    }
}

/// The message that answers `effect` where its work is done and gives
/// nothing but its success: a change of the store is followed by reading the
/// profiles again, but for an import and for the update of the lines of a
/// profile. `None` for the two effects whose success gives a value, which
/// are answered by `DnsLookupResult` and `LoadProfilesResult` with that
/// value.
pub open spec fn success_reply(effect: EffectView) -> Option<MessageView> {
    match effect {
        EffectView::WriteHosts(_) => Some(MessageView::SaveSuccess),
        EffectView::UpdateProfile(_) => Some(MessageView::UpdateDatabaseResult(Ok(()))),
        EffectView::Resolve(_) => None,
        EffectView::LoadProfiles => None,
        EffectView::SeedDefaultProfile => Some(MessageView::LoadProfiles),
        EffectView::ActivateProfile(_) => Some(MessageView::LoadProfiles),
        EffectView::CreateProfile { .. } => Some(MessageView::LoadProfiles),
        EffectView::DeleteProfile(_) => Some(MessageView::LoadProfiles),
        EffectView::ExportProfile(_) => Some(MessageView::ExportProfilesResult(Ok(()))),
        EffectView::ImportProfile => Some(MessageView::ImportProfilesResult(Ok(()))),
    }
}

/// The view of an optional message.
pub open spec fn reply_view(m: Option<Message>) -> Option<MessageView> {
    match m {
        Some(x) => Some(x@),
        None => None,
    }
}

impl Effect {
    /// The message that answers the effect where its work failed for
    /// `reason`.
    pub fn failed(&self, reason: String) -> (m: Message)
        ensures
            m@ == failure_reply(self@, reason@),
    {
        match self {
            Effect::WriteHosts(_) => Message::SaveError(reason),
            Effect::UpdateProfile(_) => Message::UpdateDatabaseResult(Err(reason)),
            Effect::Resolve(_) => Message::DnsLookupResult(Err(reason)),
            Effect::LoadProfiles => Message::LoadProfilesResult(Err(reason)),
            Effect::SeedDefaultProfile => Message::SaveError(
                String::from_str("Errore nella creazione del profilo di default: ").concat(
                    reason.as_str(),
                ),
            ),
            Effect::ActivateProfile(_) => Message::SaveError(
                String::from_str("Errore nell'attivazione del profilo: ").concat(reason.as_str()),
            ),
            Effect::CreateProfile { .. } => Message::SaveError(
                String::from_str("Errore nella creazione del profilo: ").concat(reason.as_str()),
            ),
            Effect::DeleteProfile(_) => Message::SaveError(
                String::from_str("Errore nell'eliminazione del profilo: ").concat(reason.as_str()),
            ),
            Effect::ExportProfile(_) => Message::ExportProfilesResult(Err(reason)),
            Effect::ImportProfile => Message::ImportProfilesResult(Err(reason)),
        }
    }

    /// The message that answers the effect where its work is done and gives
    /// nothing but its success.
    pub fn done(&self) -> (m: Option<Message>)
        ensures
            reply_view(m) == success_reply(self@),
    {
        match self {
            Effect::WriteHosts(_) => Some(Message::SaveSuccess),
            Effect::UpdateProfile(_) => Some(Message::UpdateDatabaseResult(Ok(()))),
            Effect::Resolve(_) => None,
            Effect::LoadProfiles => None,
            Effect::SeedDefaultProfile => Some(Message::LoadProfiles),
            Effect::ActivateProfile(_) => Some(Message::LoadProfiles),
            Effect::CreateProfile { .. } => Some(Message::LoadProfiles),
            Effect::DeleteProfile(_) => Some(Message::LoadProfiles),
            Effect::ExportProfile(_) => Some(Message::ExportProfilesResult(Ok(()))),
            Effect::ImportProfile => Some(Message::ImportProfilesResult(Ok(()))),
        }
    }
}

/// Takes one message: changes the state and returns the effects to perform,
/// in the order in which they are asked for. Nothing else is done here.
pub fn update(state: &mut MyApp, message: Message) -> (effects: Vec<Effect>)
    ensures
        reached(*final(state), effects, step(old(state)@, message@)),
{
    match message {
        Message::SaveSuccess => {
            state.error_message = None;
            state.success_message = Some(String::from_str("Salvataggio riuscito."));
            return nothing();
        },
        Message::SaveError(e) => {
            state.error_message = Some(e);
            return nothing();
        },
        _ => {},
    }
    state.error_message = None;
    state.success_message = None;
    match message {
        Message::SaveSuccess => nothing(),
        Message::SaveError(_) => nothing(),
        Message::InputIpChanged(v) => {
            state.input_ip = v;
            nothing()
        },
        Message::InputHostnameChanged(v) => {
            state.input_hostname = v;
            nothing()
        },
        Message::InputChanged(v) => {
            state.input_text = v;
            nothing()
        },
        Message::InputDnsServerChanged(v) => {
            state.input_dns_server = v;
            nothing()
        },
        Message::NewProfileNameChanged(v) => {
            state.new_profile_name = v;
            nothing()
        },
        Message::ManualAddButtonPressed => on_manual_add(state),
        Message::DnsLookupButtonPressed => on_lookup_pressed(state),
        Message::DnsLookupResult(Ok(ip)) => on_lookup_found(state, ip),
        Message::DnsLookupResult(Err(e)) => fail(state, e.as_str()),
        Message::DeleteEntry(index) => on_delete_entry(state, index),
        Message::EditEntry(index) => on_edit_entry(state, index),
        Message::EditIpChanged(v) => on_edit_ip(state, v),
        Message::EditHostnameChanged(v) => on_edit_hostname(state, v),
        Message::SaveEditedEntry => on_save_edit(state),
        Message::CancelEdit => {
            state.editing = EditState::Idle;
            nothing()
        },
        Message::ProfileSelected(p) => on_profile_selected(state, p),
        Message::CreateProfileButtonPressed => on_create_pressed(state),
        Message::LoadProfiles => only(Effect::LoadProfiles),
        Message::LoadProfilesResult(Ok(profiles)) => on_profiles_loaded(state, profiles),
        Message::LoadProfilesResult(Err(e)) => fail(state, e.as_str()),
        Message::ShowMainView => {
            state.view = crate::screen::View::Main;
            nothing()
        },
        Message::ShowProfilesView => {
            state.view = crate::screen::View::Profiles;
            nothing()
        },
        Message::DeleteProfile(id) => on_delete_profile(state, id),
        Message::UpdateDatabaseResult(Ok(_)) => nothing(),
        Message::UpdateDatabaseResult(Err(e)) => {
            let text = String::from_str("Errore nell'aggiornamento del database: ").concat(
                e.as_str(),
            );
            fail(state, text.as_str())
        },
        Message::ExportProfilesButtonPressed => on_export_pressed(state),
        Message::ImportProfilesButtonPressed => start(
            state,
            "Apertura finestra di dialogo...",
            Effect::ImportProfile,
        ),
        Message::ExportProfilesResult(Ok(_)) => succeed(state, "Profilo esportato con successo!"),
        Message::ExportProfilesResult(Err(e)) => fail(state, e.as_str()),
        Message::ImportProfilesResult(Ok(_)) => succeed(state, "Profilo importato con successo!"),
        Message::ImportProfilesResult(Err(e)) => fail(state, e.as_str()),
    }
}

/// A profile that the session knows under the name `Default` is never
/// deleted: the request is refused with an error, nothing is asked for, and
/// but for its messages the state stays as it is.
pub proof fn lemma_default_is_kept(s: MyAppView, id: Seq<char>)
    requires
        is_default(s, id),
    ensures
        step(s, MessageView::DeleteProfile(id)).effects == Seq::<EffectView>::empty(),
        step(s, MessageView::DeleteProfile(id)).state == (MyAppView {
            error_message: Some("Impossibile eliminare il profilo 'Default'."@),
            success_message: None,
            ..s
        }),
{
    assert(is_default(cleared(s), id));
}

/// The selected profile is never deleted: the request is refused with an
/// error, nothing is asked for, and but for its messages the state stays as
/// it is.
pub proof fn lemma_selected_is_kept(s: MyAppView, id: Seq<char>)
    requires
        is_selected(s, id),
    ensures
        step(s, MessageView::DeleteProfile(id)).effects == Seq::<EffectView>::empty(),
        step(s, MessageView::DeleteProfile(id)).state.error_message is Some,
        step(s, MessageView::DeleteProfile(id)).state == (MyAppView {
            error_message: step(s, MessageView::DeleteProfile(id)).state.error_message,
            success_message: None,
            ..s
        }),
{
    assert(is_selected(cleared(s), id));
}

} // verus!

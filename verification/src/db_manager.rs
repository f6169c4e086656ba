//! Profiles and the store that holds them: names and identifiers are unique,
//! and activating one profile deactivates every other.

use crate::host_manager::{lines_view, Line, LineView};
use crate::text::{option_view, strings_view};
use vstd::prelude::*;
use vstd::string::StringExecFns;

verus! {

/// A named set of hosts-file lines.
#[derive(Debug)]
pub struct Profile {
    pub id: String,
    pub name: String,
    pub hosts: Vec<Line>,
    pub is_active: bool,
}

/// What a [`Profile`] holds, as sequences.
pub struct ProfileView {
    pub id: Seq<char>,
    pub name: Seq<char>,
    pub hosts: Seq<LineView>,
    pub is_active: bool,
}

impl View for Profile {
    type V = ProfileView;

    open spec fn view(&self) -> ProfileView {
        ProfileView {
            id: self.id@,
            name: self.name@,
            hosts: lines_view(self.hosts@),
            is_active: self.is_active,
        }
    }
}

/// The views of a sequence of profiles, in order.
pub open spec fn profiles_view(profiles: Seq<Profile>) -> Seq<ProfileView> {
    Seq::new(profiles.len(), |i: int| profiles[i]@)
}

/// A copy of `lines`.
pub fn clone_lines(lines: &[Line]) -> (r: Vec<Line>)
    ensures
        lines_view(r@) == lines_view(lines@),
{
    let mut r: Vec<Line> = Vec::new();
    let mut i: usize = 0;
    while i < lines.len()
        invariant
            i <= lines.len(),
            r@.len() == i,
            forall|j: int| 0 <= j < i ==> r@[j] == lines@[j],
        decreases lines.len() - i,
    {
        r.push(lines[i].clone());
        i = i + 1;
    }
    assert(lines_view(r@) =~= lines_view(lines@));
    r
}

impl Clone for Profile {
    fn clone(&self) -> (r: Self)
        ensures
            r@ == self@,
    {
        Profile {
            id: self.id.clone(),
            name: self.name.clone(),
            hosts: clone_lines(self.hosts.as_slice()),
            is_active: self.is_active,
        }
    }
}

impl Profile {
    /// The text that stands for the profile where it is shown: its name.
    pub fn to_string(&self) -> (r: String)
        ensures
            r@ == self.name@,
    {
        self.name.clone()
    }
}

/// A copy of `profiles`.
pub fn clone_profiles(profiles: &[Profile]) -> (r: Vec<Profile>)
    ensures
        profiles_view(r@) == profiles_view(profiles@),
{
    let mut r: Vec<Profile> = Vec::new();
    let mut i: usize = 0;
    while i < profiles.len()
        invariant
            i <= profiles.len(),
            r@.len() == i,
            forall|j: int| 0 <= j < i ==> r@[j]@ == profiles@[j]@,
        decreases profiles.len() - i,
    {
        r.push(profiles[i].clone());
        i = i + 1;
    }
    assert(profiles_view(r@) =~= profiles_view(profiles@));
    r
}

/// Why the store refused an operation.
#[derive(Clone, Copy, Debug, PartialEq, Eq, Structural)]
pub enum StoreError {
    /// The name of a new profile is empty.
    EmptyName,
    /// A profile of that name is in the store already.
    DuplicateName,
    /// A profile with that identifier is in the store already.
    DuplicateId,
}

/// The text that tells a user of `error`.
pub open spec fn store_error_text(error: StoreError) -> Seq<char> {
    match error {
        StoreError::EmptyName => "Il nome del profilo non può essere vuoto."@,
        StoreError::DuplicateName => "Un profilo con questo nome esiste già."@,
        StoreError::DuplicateId => "Un profilo con questo identificativo esiste già."@,
    }
}

impl StoreError {
    /// The text that tells a user of the error.
    pub fn message(&self) -> (text: String)
        ensures
            text@ == store_error_text(*self),
    {
        match self {
            StoreError::EmptyName => String::from_str("Il nome del profilo non può essere vuoto."),
            StoreError::DuplicateName => String::from_str("Un profilo con questo nome esiste già."),
            StoreError::DuplicateId => String::from_str(
                "Un profilo con questo identificativo esiste già.",
            ),
        }
    }
}

/// Whether a profile with the identifier `id` is among `rows`.
pub open spec fn has_id(rows: Seq<ProfileView>, id: Seq<char>) -> bool {
    exists|i: int| 0 <= i < rows.len() && #[trigger] rows[i].id == id
}

/// Whether a profile named `name` is among `rows`.
pub open spec fn has_name(rows: Seq<ProfileView>, name: Seq<char>) -> bool {
    exists|i: int| 0 <= i < rows.len() && #[trigger] rows[i].name == name
}

/// No two of `rows` share an identifier, and no two share a name.
pub open spec fn distinct(rows: Seq<ProfileView>) -> bool {
    forall|i: int, j: int|
        0 <= i < j < rows.len() ==> (#[trigger] rows[i]).id != (#[trigger] rows[j]).id
            && rows[i].name != rows[j].name
}

/// `rows` after the profile `id` was made the active one: that profile is
/// active and no other is.
pub open spec fn activated(rows: Seq<ProfileView>, id: Seq<char>) -> Seq<ProfileView> {
    Seq::new(
        rows.len(),
        |i: int| ProfileView { is_active: rows[i].id == id, ..rows[i] },
    )
}

/// `rows` without the profiles whose identifier is `id`, in their order.
pub open spec fn removed(rows: Seq<ProfileView>, id: Seq<char>) -> Seq<ProfileView>
    decreases rows.len(),
{
    if rows.len() == 0 {
        Seq::empty()
    } else if rows.last().id == id {
        removed(rows.drop_last(), id)
    } else {
        removed(rows.drop_last(), id).push(rows.last())
    }
}

/// `rows` after the lines of the profile `id` were replaced by `hosts`.
pub open spec fn with_hosts(
    rows: Seq<ProfileView>,
    id: Seq<char>,
    hosts: Seq<LineView>,
) -> Seq<ProfileView> {
    Seq::new(
        rows.len(),
        |i: int|
            if rows[i].id == id {
                ProfileView { hosts: hosts, ..rows[i] }
            } else {
                rows[i]
            },
    )
}

/// The number of active profiles among `rows`.
pub open spec fn active_count(rows: Seq<ProfileView>) -> nat
    decreases rows.len(),
{
    if rows.len() == 0 {
        0
    } else if rows.last().is_active {
        active_count(rows.drop_last()) + 1
    } else {
        active_count(rows.drop_last())
    }
}

/// Whether `s` is an identifier as the store makes them: 36 characters, a
/// hyphen at the places 8, 13, 18 and 23, and a lower-case hexadecimal digit
/// everywhere else.
pub open spec fn is_id_text(s: Seq<char>) -> bool {
    &&& s.len() == 36
    &&& forall|i: int|
        0 <= i < 36 ==> if i == 8 || i == 13 || i == 18 || i == 23 {
            #[trigger] s[i] == '-'
        } else {
            ('0' <= s[i] && s[i] <= '9') || ('a' <= s[i] && s[i] <= 'f')
        }
}

/// `uuid::Uuid::new_v4` and `to_string` on what it returns: a random
/// identifier in its hyphenated lower-case form. Which identifier comes is
/// left open; only its shape is claimed.
#[verifier::external_body]
fn new_profile_id() -> (id: String)
    ensures
        is_id_text(id@),
{
    uuid::Uuid::new_v4().to_string()
}

/// Where the store is kept on disk, as the parts of its path: below the
/// directory for a user's data, or below the current directory where the
/// system names none, in the directory `hosts_manager`, as the file
/// `profiles.db`.
pub open spec fn database_path_parts(data_dir: Option<Seq<char>>) -> Seq<Seq<char>> {
    let root = match data_dir {
        Some(d) => d,
        None => "."@,
    };
    seq![root, "hosts_manager"@, "profiles.db"@]
}

/// The parts of the path under which the store is kept, where `data_dir` is
/// what the system gives as the directory for a user's data, if anything.
pub fn database_path(data_dir: Option<String>) -> (parts: Vec<String>)
    ensures
        strings_view(parts@) == database_path_parts(option_view(data_dir)),
{
    let root = match data_dir {
        Some(d) => d,
        None => String::from_str("."),
    };
    let mut parts: Vec<String> = Vec::new();
    parts.push(root);
    parts.push(String::from_str("hosts_manager"));
    parts.push(String::from_str("profiles.db"));
    assert(strings_view(parts@) =~= database_path_parts(option_view(data_dir)));
    parts
}

/// `dirs::data_dir`: the directory for a user's data as this system names
/// it, as text, or `None` where the system names none or names one whose
/// path is no Unicode text. Nothing is claimed of which directory comes.
#[verifier::external_body]
fn user_data_dir() -> (dir: Option<String>) {
    dirs::data_dir().and_then(|p| p.into_os_string().into_string().ok())
}

/// The parts of the path under which the store is kept on this system: the
/// directory for a user's data where the system names one that can be held
/// as text, the current directory where it does not.
pub fn database_location() -> (parts: Vec<String>)
    ensures
        exists|data_dir: Option<Seq<char>>|
            strings_view(parts@) == #[trigger] database_path_parts(data_dir),
{
    let data_dir = user_data_dir();
    let parts = database_path(data_dir);
    assert(strings_view(parts@) == database_path_parts(option_view(data_dir)));
    parts
}

/// The profiles of one user.
pub struct ProfileStore {
    rows: Vec<Profile>,
}

impl View for ProfileStore {
    type V = Seq<ProfileView>;

    closed spec fn view(&self) -> Seq<ProfileView> {
        profiles_view(self.rows@)
    }
}

impl ProfileStore {
    /// The store holds no two profiles with one identifier or one name.
    pub open spec fn wf(&self) -> bool {
        distinct(self@)
    }

    /// A store without profiles.
    pub fn new() -> (store: Self)
        ensures
            store@ == Seq::<ProfileView>::empty(),
            store.wf(),
    {
        let store = ProfileStore { rows: Vec::new() };
        assert(store@ =~= Seq::<ProfileView>::empty());
        store
    }

    /// The store that holds `rows`, where no two of them share an identifier
    /// or a name; `None` where two do. The `is_active` flags are taken as
    /// they are: where storage holds more than one active profile, so does
    /// the store, until [`set_active_profile`] is next called.
    pub fn from_rows(rows: Vec<Profile>) -> (r: Option<Self>)
        ensures
            r is Some <==> distinct(profiles_view(rows@)),
            r matches Some(store) ==> store@ == profiles_view(rows@) && store.wf(),
    {
        let ghost view = profiles_view(rows@);
        let mut j: usize = 0;
        while j < rows.len()
            invariant
                j <= rows.len(),
                view == profiles_view(rows@),
                forall|a: int, b: int|
                    0 <= a < b < j ==> (#[trigger] view[a]).id != (#[trigger] view[b]).id
                        && view[a].name != view[b].name,
            decreases rows.len() - j,
        {
            let mut i: usize = 0;
            while i < j
                invariant
                    i <= j < rows.len(),
                    view == profiles_view(rows@),
                    forall|a: int|
                        0 <= a < i ==> (#[trigger] view[a]).id != view[j as int].id
                            && view[a].name != view[j as int].name,
                decreases j - i,
            {
                if rows[i].id == rows[j].id || rows[i].name == rows[j].name {
                    assert(view[i as int].id == rows@[i as int].id@);
                    assert(view[j as int].id == rows@[j as int].id@);
                    return None;
                }
                assert(view[i as int].id == rows@[i as int].id@);
                assert(view[j as int].id == rows@[j as int].id@);
                i = i + 1;
            }
            j = j + 1;
        }
        Some(ProfileStore { rows })
    }

    /// The number of profiles in the store.
    pub fn len(&self) -> (n: usize)
        ensures
            n == self@.len(),
    {
        self.rows.len()
    }
}

/// The row that an insertion adds: an inactive profile.
pub open spec fn new_row(id: Seq<char>, name: Seq<char>, hosts: Seq<LineView>) -> ProfileView {
    ProfileView { id, name, hosts, is_active: false }
}

/// Removing the profile `id` from rows that do not hold it changes nothing.
pub proof fn lemma_removed_absent(rows: Seq<ProfileView>, id: Seq<char>)
    requires
        !has_id(rows, id),
    ensures
        removed(rows, id) == rows,
    decreases rows.len(),
{
    if rows.len() > 0 {
        let init = rows.drop_last();
        assert(rows.last() == rows[rows.len() - 1]);
        assert forall|i: int| 0 <= i < init.len() implies (#[trigger] init[i]).id != id by {
            assert(init[i] == rows[i]);
        }
        lemma_removed_absent(init, id);
        assert(init.push(rows.last()) =~= rows);
    } else {
        assert(rows =~= Seq::empty());
    }
}

/// Where one row only has the identifier `id`, removing the profile `id`
/// takes that row out and leaves the others as they are.
pub proof fn lemma_removed_at(rows: Seq<ProfileView>, id: Seq<char>, k: int)
    requires
        0 <= k < rows.len(),
        rows[k].id == id,
        forall|j: int| 0 <= j < rows.len() && j != k ==> (#[trigger] rows[j]).id != id,
    ensures
        removed(rows, id) == rows.remove(k),
    decreases rows.len(),
{
    let init = rows.drop_last();
    if k == rows.len() - 1 {
        assert forall|i: int| 0 <= i < init.len() implies (#[trigger] init[i]).id != id by {
            assert(init[i] == rows[i]);
        }
        lemma_removed_absent(init, id);
        assert(rows.remove(k) =~= init);
    } else {
        assert(rows.last() == rows[rows.len() - 1]);
        assert forall|j: int| 0 <= j < init.len() && j != k implies (#[trigger] init[j]).id
            != id by {
            assert(init[j] == rows[j]);
        }
        lemma_removed_at(init, id, k);
        assert(init.remove(k).push(rows.last()) =~= rows.remove(k));
    }
}

/// Whether a profile named `name` is among `rows`.
fn holds_name(rows: &Vec<Profile>, name: &str) -> (r: bool)
    ensures
        r == has_name(profiles_view(rows@), name@),
{
    let ghost view = profiles_view(rows@);
    let wanted = name.to_owned();
    let mut i: usize = 0;
    while i < rows.len()
        invariant
            i <= rows.len(),
            wanted@ == name@,
            view == profiles_view(rows@),
            forall|j: int| 0 <= j < i ==> (#[trigger] view[j]).name != name@,
        decreases rows.len() - i,
    {
        if rows[i].name == wanted {
            assert(view[i as int].name == name@);
            return true;
        }
        assert(view[i as int].name == rows@[i as int].name@);
        i = i + 1;
    }
    false
}

/// The place of the profile `id` among `rows`, or their number where it is
/// not among them.
fn index_of_id(rows: &Vec<Profile>, id: &str) -> (k: usize)
    ensures
        k <= rows@.len(),
        k < rows@.len() ==> rows@[k as int].id@ == id@,
        forall|j: int| 0 <= j < k ==> (#[trigger] profiles_view(rows@)[j]).id != id@,
{
    let ghost view = profiles_view(rows@);
    let wanted = id.to_owned();
    let mut i: usize = 0;
    while i < rows.len()
        invariant
            i <= rows.len(),
            wanted@ == id@,
            view == profiles_view(rows@),
            forall|j: int| 0 <= j < i ==> (#[trigger] view[j]).id != id@,
        decreases rows.len() - i,
    {
        if rows[i].id == wanted {
            return i;
        }
        assert(view[i as int].id == rows@[i as int].id@);
        i = i + 1;
    }
    i
}

/// Adds an inactive profile with the identifier `id`. Fails, and leaves the
/// store as it is, where a profile of that name is in the store
/// (`DuplicateName`) or, failing that, one with that identifier
/// (`DuplicateId`).
pub fn insert_profile(store: &mut ProfileStore, id: String, name: &str, hosts: &[Line]) -> (r:
    Result<(), StoreError>)
    requires
        old(store).wf(),
    ensures
        final(store).wf(),
        has_name(old(store)@, name@) ==> r == Err::<(), StoreError>(StoreError::DuplicateName)
            && final(store)@ == old(store)@,
        !has_name(old(store)@, name@) && has_id(old(store)@, id@) ==> r == Err::<
            (),
            StoreError,
        >(StoreError::DuplicateId) && final(store)@ == old(store)@,
        !has_name(old(store)@, name@) && !has_id(old(store)@, id@) ==> r == Ok::<(), StoreError>(
            (),
        ) && final(store)@ == old(store)@.push(new_row(id@, name@, lines_view(hosts@))),
        active_count(final(store)@) == active_count(old(store)@),
{
    if holds_name(&store.rows, name) {
        return Err(StoreError::DuplicateName);
    }
    let k = index_of_id(&store.rows, id.as_str());
    if k < store.rows.len() {
        assert(store@[k as int].id == id@);
        return Err(StoreError::DuplicateId);
    }
    let profile = Profile {
        id,
        name: String::from_str(name),
        hosts: clone_lines(hosts),
        is_active: false,
    };
    store.rows.push(profile);
    assert(store@ =~= old(store)@.push(new_row(id@, name@, lines_view(hosts@))));
    proof {
        lemma_active_count_push(old(store)@, new_row(id@, name@, lines_view(hosts@)));
    }
    assert forall|i: int, j: int| 0 <= i < j < store@.len() implies (#[trigger] store@[i]).id != (
    #[trigger] store@[j]).id && store@[i].name != store@[j].name by {
        if j < old(store)@.len() {
            assert(store@[i] == old(store)@[i]);
            assert(store@[j] == old(store)@[j]);
        } else {
            assert(store@[i] == old(store)@[i]);
        }
    }
    Ok(())
}

/// What `create_profile` and `import_profile` leave behind where they add a
/// profile: the rows before, then one row with the given name, lines and
/// flag, whose identifier is fresh.
pub open spec fn added(
    before: Seq<ProfileView>,
    after: Seq<ProfileView>,
    name: Seq<char>,
    hosts: Seq<LineView>,
    is_active: bool,
) -> bool {
    &&& after.len() == before.len() + 1
    &&& after.drop_last() == before
    &&& after.last().name == name
    &&& after.last().hosts == hosts
    &&& after.last().is_active == is_active
    &&& is_id_text(after.last().id)
    &&& !has_id(before, after.last().id)
}

/// Whether one of `rows` has an identifier as the store makes them. Only
/// such a row can stand in the way of a new identifier.
pub open spec fn holds_made_id(rows: Seq<ProfileView>) -> bool {
    exists|i: int| 0 <= i < rows.len() && is_id_text(#[trigger] rows[i].id)
}

/// Creates an inactive profile named `name` that holds `hosts`, under a new
/// identifier. An empty name is refused, and so is the name of a profile in
/// the store; the store then stays as it is. Any other name is taken, unless
/// the identifier that was made is the identifier of a profile in the store:
/// the call then fails with `DuplicateId` and the store stays as it is. That
/// cannot happen in a store none of whose identifiers was made by a store,
/// an empty store among them.
pub fn create_profile(store: &mut ProfileStore, name: &str, hosts: &[Line]) -> (r: Result<
    (),
    StoreError,
>)
    requires
        old(store).wf(),
    ensures
        final(store).wf(),
        name@.len() == 0 ==> r == Err::<(), StoreError>(StoreError::EmptyName),
        name@.len() > 0 && has_name(old(store)@, name@) ==> r == Err::<(), StoreError>(
            StoreError::DuplicateName,
        ),
        name@.len() > 0 && !has_name(old(store)@, name@) ==> r is Ok || r == Err::<
            (),
            StoreError,
        >(StoreError::DuplicateId),
        name@.len() > 0 && !has_name(old(store)@, name@) && !holds_made_id(old(store)@)
            ==> r is Ok,
        r == Err::<(), StoreError>(StoreError::DuplicateId) ==> holds_made_id(old(store)@),
        r is Err ==> final(store)@ == old(store)@,
        r is Ok ==> added(old(store)@, final(store)@, name@, lines_view(hosts@), false),
        active_count(final(store)@) == active_count(old(store)@),
{
    if name.is_empty() {
        return Err(StoreError::EmptyName);
    }
    let id = new_profile_id();
    let ghost made = id@;
    let r = insert_profile(store, id, name, hosts);
    proof {
        if r is Ok {
            assert(store@.drop_last() =~= old(store)@);
        } else if has_id(old(store)@, made) {
            let i = choose|i: int| 0 <= i < old(store)@.len() && #[trigger] old(store)@[i].id == made;
            assert(is_id_text(old(store)@[i].id));
        }
    }
    r
}

/// Adds a profile with the name and the lines of `profile`, under a new
/// identifier and inactive, whatever the identifier and the `is_active` flag
/// of `profile` are: a profile that was exported while it was active does
/// not come in as a second active one. An empty name is refused, and so is
/// the name of a profile in the store; the store then stays as it is. Any
/// other name is taken, unless the identifier that was made is the
/// identifier of a profile in the store: the call then fails with
/// `DuplicateId` and the store stays as it is.
pub fn import_profile(store: &mut ProfileStore, profile: &Profile) -> (r: Result<(), StoreError>)
    requires
        old(store).wf(),
    ensures
        final(store).wf(),
        profile.name@.len() == 0 ==> r == Err::<(), StoreError>(StoreError::EmptyName),
        profile.name@.len() > 0 && has_name(old(store)@, profile.name@) ==> r == Err::<
            (),
            StoreError,
        >(StoreError::DuplicateName),
        profile.name@.len() > 0 && !has_name(old(store)@, profile.name@) ==> r is Ok || r
            == Err::<(), StoreError>(StoreError::DuplicateId),
        profile.name@.len() > 0 && !has_name(old(store)@, profile.name@) && !holds_made_id(
            old(store)@,
        ) ==> r is Ok,
        r == Err::<(), StoreError>(StoreError::DuplicateId) ==> holds_made_id(old(store)@),
        r is Err ==> final(store)@ == old(store)@,
        r is Ok ==> added(
            old(store)@,
            final(store)@,
            profile.name@,
            lines_view(profile.hosts@),
            false,
        ),
        active_count(final(store)@) == active_count(old(store)@),
{
    create_profile(store, profile.name.as_str(), profile.hosts.as_slice())
}

/// The profiles of the store, in the order in which they were added.
pub fn get_all_profiles(store: &ProfileStore) -> (profiles: Vec<Profile>)
    ensures
        profiles_view(profiles@) == store@,
{
    clone_profiles(store.rows.as_slice())
}

/// Makes the profile `profile_id` the active one: every profile is marked
/// inactive, then that one active. Where the store holds no such profile,
/// none is active afterwards. Either way no more than one is.
pub fn set_active_profile(store: &mut ProfileStore, profile_id: &str)
    requires
        old(store).wf(),
    ensures
        final(store).wf(),
        final(store)@ == activated(old(store)@, profile_id@),
        active_count(final(store)@) <= 1,
{
    let wanted = profile_id.to_owned();
    let mut i: usize = 0;
    while i < store.rows.len()
        invariant
            i <= store.rows.len(),
            wanted@ == profile_id@,
            store.rows@.len() == old(store).rows@.len(),
            forall|j: int|
                0 <= j < i ==> store.rows@[j]@ == activated(old(store)@, profile_id@)[j],
            forall|j: int| i <= j < store.rows@.len() ==> store.rows@[j]@ == old(store).rows@[j]@,
        decreases store.rows.len() - i,
    {
        let active = store.rows[i].id == wanted;
        store.rows[i].is_active = active;
        i = i + 1;
    }
    assert(store@ =~= activated(old(store)@, profile_id@));
    proof {
        lemma_activated_at_most_one(old(store)@, profile_id@);
    }
}

/// Takes the profile `profile_id` out of the store; a store that does not
/// hold it stays as it is. Which profiles may be deleted is not decided
/// here.
pub fn delete_profile(store: &mut ProfileStore, profile_id: &str)
    requires
        old(store).wf(),
    ensures
        final(store).wf(),
        final(store)@ == removed(old(store)@, profile_id@),
        active_count(final(store)@) <= active_count(old(store)@),
{
    proof {
        lemma_removed_active_count(old(store)@, profile_id@);
    }
    let k = index_of_id(&store.rows, profile_id);
    if k < store.rows.len() {
        proof {
            assert(store@[k as int].id == profile_id@);
            lemma_removed_at(store@, profile_id@, k as int);
        }
        store.rows.remove(k);
        assert(store@ =~= old(store)@.remove(k as int));
    } else {
        proof {
            lemma_removed_absent(store@, profile_id@);
        }
    }
}

/// Replaces the lines of the profile that has the identifier of `profile` by
/// those of `profile`. Names and `is_active` flags stay as they are, and so
/// does a store that holds no such profile.
pub fn update_profile(store: &mut ProfileStore, profile: &Profile)
    requires
        old(store).wf(),
    ensures
        final(store).wf(),
        final(store)@ == with_hosts(old(store)@, profile.id@, lines_view(profile.hosts@)),
        active_count(final(store)@) == active_count(old(store)@),
{
    proof {
        lemma_with_hosts_active_count(old(store)@, profile.id@, lines_view(profile.hosts@));
    }
    let k = index_of_id(&store.rows, profile.id.as_str());
    if k < store.rows.len() {
        store.rows[k].hosts = clone_lines(profile.hosts.as_slice());
    }
    let ghost after = with_hosts(old(store)@, profile.id@, lines_view(profile.hosts@));
    assert forall|j: int| 0 <= j < store@.len() implies store@[j] == after[j] by {
        if j != k {
            assert(store@[j] == old(store)@[j]);
            if k < j {
                assert(old(store)@[k as int].id != old(store)@[j].id);
            }
        }
    }
    assert(store@ =~= after);
}

/// Rows of which none is active count no active profile.
pub proof fn lemma_none_active(rows: Seq<ProfileView>)
    requires
        forall|i: int| 0 <= i < rows.len() ==> !(#[trigger] rows[i]).is_active,
    ensures
        active_count(rows) == 0,
    decreases rows.len(),
{
    if rows.len() > 0 {
        let init = rows.drop_last();
        assert(!rows[rows.len() - 1].is_active);
        assert forall|i: int| 0 <= i < init.len() implies !(#[trigger] init[i]).is_active by {
            assert(init[i] == rows[i]);
        }
        lemma_none_active(init);
    }
}

/// Rows of which the one at `k` is active, and no other, count one active
/// profile.
pub proof fn lemma_one_active(rows: Seq<ProfileView>, k: int)
    requires
        0 <= k < rows.len(),
        forall|i: int| 0 <= i < rows.len() ==> ((#[trigger] rows[i]).is_active <==> i == k),
    ensures
        active_count(rows) == 1,
    decreases rows.len(),
{
    let init = rows.drop_last();
    assert(rows.last() == rows[rows.len() - 1]);
    if k == rows.len() - 1 {
        assert forall|i: int| 0 <= i < init.len() implies !(#[trigger] init[i]).is_active by {
            assert(init[i] == rows[i]);
        }
        lemma_none_active(init);
    } else {
        assert forall|i: int| 0 <= i < init.len() implies ((#[trigger] init[i]).is_active <==> i
            == k) by {
            assert(init[i] == rows[i]);
        }
        lemma_one_active(init, k);
    }
}

/// After a profile of the store was made the active one, exactly one profile
/// is active, and that profile is the one that was named.
pub proof fn lemma_single_active(rows: Seq<ProfileView>, id: Seq<char>)
    requires
        distinct(rows),
        has_id(rows, id),
    ensures
        active_count(activated(rows, id)) == 1,
        forall|i: int|
            0 <= i < rows.len() ==> ((#[trigger] activated(rows, id)[i]).is_active <==> activated(
                rows,
                id,
            )[i].id == id),
{
    let after = activated(rows, id);
    let k = choose|k: int| 0 <= k < rows.len() && #[trigger] rows[k].id == id;
    assert forall|i: int| 0 <= i < after.len() implies ((#[trigger] after[i]).is_active <==> i
        == k) by {
        if i != k {
            if i < k {
                assert(rows[i].id != rows[k].id);
            } else {
                assert(rows[k].id != rows[i].id);
            }
        }
    }
    lemma_one_active(after, k);
}

/// Activating a profile that the store does not hold leaves no profile
/// active.
pub proof fn lemma_activate_absent(rows: Seq<ProfileView>, id: Seq<char>)
    requires
        !has_id(rows, id),
    ensures
        active_count(activated(rows, id)) == 0,
{
    let after = activated(rows, id);
    assert forall|i: int| 0 <= i < after.len() implies !(#[trigger] after[i]).is_active by {
        assert(rows[i].id != id);
    }
    lemma_none_active(after);
}

/// One more row counts one more active profile where the row is active, and
/// as many as before where it is not.
pub proof fn lemma_active_count_push(rows: Seq<ProfileView>, row: ProfileView)
    ensures
        active_count(rows.push(row)) == active_count(rows) + if row.is_active {
            1nat
        } else {
            0nat
        },
{
    assert(rows.push(row).drop_last() =~= rows);
}

/// Activating a profile never leaves more than one profile active.
pub proof fn lemma_activated_at_most_one(rows: Seq<ProfileView>, id: Seq<char>)
    requires
        distinct(rows),
    ensures
        active_count(activated(rows, id)) <= 1,
{
    if has_id(rows, id) {
        lemma_single_active(rows, id);
    } else {
        lemma_activate_absent(rows, id);
    }
}

/// Deleting a profile never adds an active profile.
pub proof fn lemma_removed_active_count(rows: Seq<ProfileView>, id: Seq<char>)
    ensures
        active_count(removed(rows, id)) <= active_count(rows),
    decreases rows.len(),
{
    if rows.len() > 0 {
        lemma_removed_active_count(rows.drop_last(), id);
        if rows.last().id != id {
            lemma_active_count_push(removed(rows.drop_last(), id), rows.last());
        }
    }
}

/// Replacing the lines of a profile changes no `is_active` flag.
pub proof fn lemma_with_hosts_active_count(
    rows: Seq<ProfileView>,
    id: Seq<char>,
    hosts: Seq<LineView>,
)
    ensures
        active_count(with_hosts(rows, id, hosts)) == active_count(rows),
    decreases rows.len(),
{
    if rows.len() > 0 {
        let after = with_hosts(rows, id, hosts);
        assert(after.drop_last() =~= with_hosts(rows.drop_last(), id, hosts));
        assert(after.last().is_active == rows.last().is_active);
        lemma_with_hosts_active_count(rows.drop_last(), id, hosts);
    }
}

} // verus!

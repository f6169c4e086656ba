use hosts_manager::db_manager::{
    create_profile, database_location, database_path, delete_profile, get_all_profiles, import_profile,
    insert_profile, set_active_profile, update_profile, Profile, ProfileStore, StoreError,
};
use hosts_manager::host_manager::{localhost_entry, Entry, Line};

fn record(ip: &str, hostname: &str) -> Line {
    Line::Entry(Entry {
        ip: ip.to_string(),
        hostname: hostname.to_string(),
        enabled: true,
        comment: None,
    })
}

fn profile(id: &str, name: &str, hosts: Vec<Line>, is_active: bool) -> Profile {
    Profile { id: id.to_string(), name: name.to_string(), hosts, is_active }
}

fn store_of(names: &[&str]) -> ProfileStore {
    let mut store = ProfileStore::new();
    for (i, name) in names.iter().enumerate() {
        let id = format!("id-{}", i);
        assert_eq!(insert_profile(&mut store, id, name, &[record("10.0.0.1", name)]), Ok(()));
    }
    store
}

fn names(store: &ProfileStore) -> Vec<String> {
    get_all_profiles(store).into_iter().map(|p| p.name).collect()
}

fn active_ids(store: &ProfileStore) -> Vec<String> {
    get_all_profiles(store).into_iter().filter(|p| p.is_active).map(|p| p.id).collect()
}

#[test]
fn a_new_store_is_empty() {
    let store = ProfileStore::new();
    assert_eq!(store.len(), 0);
    assert!(get_all_profiles(&store).is_empty());
}

#[test]
fn create_refuses_an_empty_name() {
    let mut store = store_of(&["a"]);
    assert_eq!(create_profile(&mut store, "", &[]), Err(StoreError::EmptyName));
    assert_eq!(names(&store), vec!["a"]);
}

#[test]
fn create_adds_an_inactive_profile_with_the_given_lines() {
    let mut store = ProfileStore::new();
    let hosts = vec![localhost_entry(), Line::Empty, Line::Comment("# x".to_string())];
    assert_eq!(create_profile(&mut store, "work", &hosts), Ok(()));
    let all = get_all_profiles(&store);
    assert_eq!(all.len(), 1);
    assert_eq!(all[0].name, "work");
    assert_eq!(all[0].hosts, hosts);
    assert!(!all[0].is_active);
}

#[test]
fn create_gives_each_profile_an_identifier_of_its_own() {
    let mut store = ProfileStore::new();
    assert_eq!(create_profile(&mut store, "a", &[]), Ok(()));
    assert_eq!(create_profile(&mut store, "b", &[]), Ok(()));
    let all = get_all_profiles(&store);
    assert_ne!(all[0].id, all[1].id);
    for p in &all {
        let id: Vec<char> = p.id.chars().collect();
        assert_eq!(id.len(), 36);
        for (i, c) in id.iter().enumerate() {
            if i == 8 || i == 13 || i == 18 || i == 23 {
                assert_eq!(*c, '-');
            } else {
                assert!(c.is_ascii_digit() || ('a'..='f').contains(c));
            }
        }
    }
}

#[test]
fn create_refuses_a_name_that_is_taken_and_changes_nothing() {
    let mut store = store_of(&["a", "b"]);
    let before = get_all_profiles(&store);
    assert_eq!(create_profile(&mut store, "b", &[Line::Empty]), Err(StoreError::DuplicateName));
    let after = get_all_profiles(&store);
    assert_eq!(after.len(), before.len());
    for (x, y) in before.iter().zip(after.iter()) {
        assert_eq!(x.id, y.id);
        assert_eq!(x.name, y.name);
        assert_eq!(x.hosts, y.hosts);
        assert_eq!(x.is_active, y.is_active);
    }
}

#[test]
fn names_differ_by_case() {
    let mut store = store_of(&["a"]);
    assert_eq!(create_profile(&mut store, "A", &[]), Ok(()));
    assert_eq!(names(&store), vec!["a", "A"]);
}

#[test]
fn insert_refuses_an_identifier_that_is_taken() {
    let mut store = store_of(&["a"]);
    assert_eq!(
        insert_profile(&mut store, "id-0".to_string(), "other", &[]),
        Err(StoreError::DuplicateId)
    );
    assert_eq!(names(&store), vec!["a"]);
}

#[test]
fn insert_reports_the_name_before_the_identifier() {
    let mut store = store_of(&["a"]);
    assert_eq!(
        insert_profile(&mut store, "id-0".to_string(), "a", &[]),
        Err(StoreError::DuplicateName)
    );
}

#[test]
fn get_all_gives_the_profiles_in_the_order_in_which_they_were_added() {
    let store = store_of(&["c", "a", "b"]);
    assert_eq!(names(&store), vec!["c", "a", "b"]);
}

#[test]
fn set_active_leaves_exactly_one_profile_active() {
    let mut store = store_of(&["a", "b", "c"]);
    set_active_profile(&mut store, "id-1");
    assert_eq!(active_ids(&store), vec!["id-1"]);
    set_active_profile(&mut store, "id-2");
    assert_eq!(active_ids(&store), vec!["id-2"]);
    set_active_profile(&mut store, "id-2");
    assert_eq!(active_ids(&store), vec!["id-2"]);
    assert_eq!(names(&store), vec!["a", "b", "c"]);
}

#[test]
fn set_active_mends_a_store_with_two_active_profiles() {
    let rows = vec![profile("x", "a", vec![], true), profile("y", "b", vec![], true)];
    let mut store = ProfileStore::from_rows(rows).unwrap();
    assert_eq!(active_ids(&store), vec!["x", "y"]);
    set_active_profile(&mut store, "x");
    assert_eq!(active_ids(&store), vec!["x"]);
}

#[test]
fn set_active_on_an_unknown_identifier_leaves_none_active() {
    let mut store = store_of(&["a", "b"]);
    set_active_profile(&mut store, "id-0");
    set_active_profile(&mut store, "nobody");
    assert!(active_ids(&store).is_empty());
    assert_eq!(names(&store), vec!["a", "b"]);
}

#[test]
fn delete_takes_the_profile_out() {
    let mut store = store_of(&["a", "b", "c"]);
    delete_profile(&mut store, "id-1");
    assert_eq!(names(&store), vec!["a", "c"]);
    delete_profile(&mut store, "id-0");
    delete_profile(&mut store, "id-2");
    assert_eq!(store.len(), 0);
}

#[test]
fn delete_does_not_guard_the_active_profile_or_default() {
    let mut store = store_of(&["Default", "b"]);
    set_active_profile(&mut store, "id-0");
    delete_profile(&mut store, "id-0");
    assert_eq!(names(&store), vec!["b"]);
}

#[test]
fn delete_of_an_unknown_identifier_changes_nothing() {
    let mut store = store_of(&["a", "b"]);
    delete_profile(&mut store, "a");
    assert_eq!(names(&store), vec!["a", "b"]);
}

#[test]
fn update_replaces_the_lines_and_nothing_else() {
    let mut store = store_of(&["a", "b"]);
    set_active_profile(&mut store, "id-1");
    let hosts = vec![record("10.9.9.9", "new"), Line::Empty];
    update_profile(&mut store, &profile("id-1", "renamed", hosts.clone(), false));
    let all = get_all_profiles(&store);
    assert_eq!(all[1].id, "id-1");
    assert_eq!(all[1].name, "b");
    assert!(all[1].is_active);
    assert_eq!(all[1].hosts, hosts);
    assert_eq!(all[0].hosts, vec![record("10.0.0.1", "a")]);
}

#[test]
fn update_of_an_unknown_identifier_changes_nothing() {
    let mut store = store_of(&["a"]);
    update_profile(&mut store, &profile("nobody", "a", vec![], true));
    let all = get_all_profiles(&store);
    assert_eq!(all.len(), 1);
    assert_eq!(all[0].hosts, vec![record("10.0.0.1", "a")]);
    assert!(!all[0].is_active);
}

#[test]
fn import_refuses_a_name_that_is_taken_and_changes_nothing() {
    let mut store = store_of(&["a", "b"]);
    let r = import_profile(&mut store, &profile("fresh", "a", vec![Line::Empty], true));
    assert_eq!(r, Err(StoreError::DuplicateName));
    assert_eq!(names(&store), vec!["a", "b"]);
    assert!(active_ids(&store).is_empty());
    assert_eq!(get_all_profiles(&store)[0].hosts, vec![record("10.0.0.1", "a")]);
}

#[test]
fn import_gives_a_new_identifier_and_an_inactive_profile() {
    let mut store = store_of(&["a"]);
    let hosts = vec![record("10.1.1.1", "x")];
    assert_eq!(import_profile(&mut store, &profile("id-0", "b", hosts.clone(), true)), Ok(()));
    assert_eq!(import_profile(&mut store, &profile("id-0", "c", vec![], false)), Ok(()));
    let all = get_all_profiles(&store);
    assert_eq!(all.len(), 3);
    assert_eq!(all[1].name, "b");
    assert_eq!(all[1].hosts, hosts);
    assert!(!all[1].is_active);
    assert!(!all[2].is_active);
    assert_ne!(all[1].id, "id-0");
    assert_eq!(all[1].id.chars().count(), 36);
    assert_ne!(all[1].id, all[2].id);
}

#[test]
fn import_refuses_an_empty_name() {
    let mut store = ProfileStore::new();
    assert_eq!(
        import_profile(&mut store, &profile("x", "", vec![Line::Empty], false)),
        Err(StoreError::EmptyName)
    );
    assert_eq!(store.len(), 0);
    let mut store = store_of(&["a"]);
    assert_eq!(
        import_profile(&mut store, &profile("y", "", vec![], true)),
        Err(StoreError::EmptyName)
    );
    assert_eq!(names(&store), vec!["a"]);
}

#[test]
fn from_rows_takes_rows_that_differ_in_identifier_and_name() {
    let rows = vec![profile("1", "a", vec![Line::Empty], true), profile("2", "b", vec![], true)];
    let store = ProfileStore::from_rows(rows).unwrap();
    assert_eq!(names(&store), vec!["a", "b"]);
    assert_eq!(active_ids(&store), vec!["1", "2"]);
    assert!(ProfileStore::from_rows(vec![]).is_some());
}

#[test]
fn from_rows_refuses_a_shared_identifier_or_name() {
    let shared_id = vec![profile("1", "a", vec![], false), profile("1", "b", vec![], false)];
    assert!(ProfileStore::from_rows(shared_id).is_none());
    let shared_name = vec![
        profile("1", "a", vec![], false),
        profile("2", "b", vec![], false),
        profile("3", "a", vec![], false),
    ];
    assert!(ProfileStore::from_rows(shared_name).is_none());
}

#[test]
fn creating_default_in_an_empty_store_gives_a_profile_with_localhost() {
    let mut store = ProfileStore::new();
    assert_eq!(create_profile(&mut store, "Default", &[localhost_entry()]), Ok(()));
    let all = get_all_profiles(&store);
    assert_eq!(all.len(), 1);
    assert_eq!(all[0].name, "Default");
    assert!(all[0].hosts.contains(&record("127.0.0.1", "localhost")));
}

#[test]
fn a_profile_is_shown_by_its_name() {
    assert_eq!(profile("1", "home", vec![], false).to_string(), "home");
}

#[test]
fn a_clone_of_a_profile_has_the_same_fields() {
    let p = profile("1", "home", vec![record("1.1.1.1", "one"), Line::Empty], true);
    let q = p.clone();
    assert_eq!(q.id, p.id);
    assert_eq!(q.name, p.name);
    assert_eq!(q.hosts, p.hosts);
    assert_eq!(q.is_active, p.is_active);
}

#[test]
fn the_database_lies_below_the_data_directory() {
    assert_eq!(
        database_path(Some("/home/u/.local/share".to_string())),
        vec!["/home/u/.local/share", "hosts_manager", "profiles.db"]
    );
}

#[test]
fn the_database_lies_below_the_current_directory_where_no_other_is_known() {
    assert_eq!(database_path(None), vec![".", "hosts_manager", "profiles.db"]);
}

#[test]
fn the_database_of_this_system_lies_in_its_directory_under_its_name() {
    let parts = database_location();
    assert_eq!(parts.len(), 3);
    assert!(!parts[0].is_empty());
    assert_eq!(parts[1], "hosts_manager");
    assert_eq!(parts[2], "profiles.db");
}

#[test]
fn create_succeeds_where_no_identifier_of_the_store_was_made_by_a_store() {
    let mut store = store_of(&["a", "b", "c"]);
    for name in ["d", "e", "f", "Default"] {
        assert_eq!(create_profile(&mut store, name, &[]), Ok(()));
    }
    assert_eq!(names(&store), vec!["a", "b", "c", "d", "e", "f", "Default"]);
}

#[test]
fn import_into_an_empty_store_succeeds() {
    let mut store = ProfileStore::new();
    assert_eq!(import_profile(&mut store, &profile("x", "in", vec![Line::Empty], true)), Ok(()));
    let all = get_all_profiles(&store);
    assert_eq!(all.len(), 1);
    assert_eq!(all[0].name, "in");
    assert_eq!(all[0].hosts, vec![Line::Empty]);
    assert!(!all[0].is_active);
}

#[test]
fn import_of_an_active_profile_leaves_one_profile_active() {
    let mut store = store_of(&["a"]);
    set_active_profile(&mut store, "id-0");
    assert_eq!(import_profile(&mut store, &profile("x", "b", vec![], true)), Ok(()));
    assert_eq!(active_ids(&store), vec!["id-0"]);
    assert_eq!(names(&store), vec!["a", "b"]);
}

#[test]
fn no_operation_of_the_store_adds_an_active_profile() {
    let mut store = store_of(&["a", "b"]);
    set_active_profile(&mut store, "id-1");
    assert_eq!(create_profile(&mut store, "c", &[]), Ok(()));
    assert_eq!(import_profile(&mut store, &profile("z", "d", vec![], true)), Ok(()));
    assert_eq!(insert_profile(&mut store, "id-9".to_string(), "e", &[]), Ok(()));
    update_profile(&mut store, &profile("id-0", "a", vec![Line::Empty], true));
    assert_eq!(active_ids(&store), vec!["id-1"]);
    delete_profile(&mut store, "id-0");
    assert_eq!(active_ids(&store), vec!["id-1"]);
    delete_profile(&mut store, "id-1");
    assert!(active_ids(&store).is_empty());
}

use cleaner_oauth::scopes::{Scope, ScopeError, ScopeSet};

#[test]
fn scope_names_round_trip() {
    for s in Scope::all() {
        assert_eq!(Scope::from_str(s.as_str()), Ok(s));
    }
    assert_eq!(Scope::RoomsRead.as_str(), "rooms:read");
    assert_eq!(Scope::Admin.as_str(), "admin");
    assert_eq!(Scope::all().len(), 8);
    assert_eq!(Scope::default_scopes().len(), 6);
    assert!(!Scope::default_scopes().contains(&Scope::Admin));
    assert!(!Scope::default_scopes().contains(&Scope::UserWrite));
}

#[test]
fn unknown_scope_is_an_error() {
    assert_eq!(Scope::from_str("rooms:delete"), Err(ScopeError::UnknownScope("rooms:delete".to_string())));
    match ScopeSet::from_string("rooms:read bogus admin") {
        Err(ScopeError::UnknownScope(w)) => assert_eq!(w, "bogus"),
        other => panic!("unknown scope not reported: {:?}", other.err()),
    }
}

#[test]
fn parse_splits_on_whitespace_and_dedups() {
    let s = ScopeSet::from_string("  rooms:read\tzones:write \n rooms:read ").unwrap();
    assert_eq!(s.len(), 2);
    assert_eq!(s.to_string(), "rooms:read zones:write");
    assert_eq!(s.iter(), vec![Scope::RoomsRead, Scope::ZonesWrite]);
    let empty = ScopeSet::from_string("   ").unwrap();
    assert!(empty.is_empty());
    assert_eq!(empty.to_string(), "");
}

#[test]
fn admin_grants_every_scope() {
    let admin = ScopeSet::from_vec(vec![Scope::Admin]);
    assert!(admin.contains(&Scope::RoomsWrite));
    assert!(admin.has_any(&[]));
    let reader = ScopeSet::from_vec(vec![Scope::RoomsRead, Scope::RoomsRead]);
    assert_eq!(reader.len(), 1);
    assert!(reader.contains(&Scope::RoomsRead));
    assert!(!reader.contains(&Scope::RoomsWrite));
    assert!(reader.has_any(&[Scope::StatsRead, Scope::RoomsRead]));
    assert!(!reader.has_any(&[Scope::StatsRead]));
}

#[test]
fn subset_and_insert() {
    let mut a = ScopeSet::new();
    assert!(a.is_empty());
    a.insert(Scope::StatsRead);
    a.insert(Scope::StatsRead);
    a.insert(Scope::UserRead);
    assert_eq!(a.len(), 2);
    assert_eq!(a.to_string(), "stats:read user:read");
    let b = ScopeSet::from_string("user:read stats:read user:write").unwrap();
    assert!(a.is_subset_of(&b));
    assert!(!b.is_subset_of(&a));
    assert!(ScopeSet::new().is_subset_of(&a));
}

#[test]
fn wire_form_round_trips() {
    let s = ScopeSet::from_vec(vec![Scope::Admin, Scope::UserWrite, Scope::ZonesRead]);
    let text = s.to_string();
    assert_eq!(text, "admin user:write zones:read");
    let back = ScopeSet::from_string(&text).unwrap();
    assert_eq!(back.iter(), s.iter());
    assert_eq!(ScopeSet::from_string(&ScopeSet::new().to_string()).unwrap().len(), 0);
}

#[test]
fn unicode_whitespace_separates_words() {
    let s = ScopeSet::from_string("rooms:read\u{00A0}admin\u{3000}stats:read").unwrap();
    assert_eq!(s.to_string(), "rooms:read admin stats:read");
}

#[test]
fn json_storage_form_round_trips() {
    let s = ScopeSet::from_vec(vec![Scope::RoomsRead, Scope::Admin]);
    let text = s.to_json_array();
    assert_eq!(text, "[\"rooms:read\",\"admin\"]");
    assert_eq!(ScopeSet::new().to_json_array(), "[]");
    let back = ScopeSet::from_json_array(&text).unwrap();
    assert_eq!(back.iter(), s.iter());
    assert_eq!(ScopeSet::from_json_array("[\"rooms:read\", 3]").err(), Some(ScopeError::NotAStringArray));
    assert_eq!(ScopeSet::from_json_array("{}").err(), Some(ScopeError::NotAStringArray));
    assert_eq!(
        ScopeSet::from_json_array("[\"rooms:read\",\"mop\"]").err(),
        Some(ScopeError::UnknownScope("mop".to_string()))
    );
}

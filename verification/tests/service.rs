use systemd_exporterd::service::{
    live_user, on_user_event, retry_as_user, should_try_seteuid, user_bus_address,
    user_state_is_live, Config, ConnectFailure, Scope, ScopeTable, UserAction, UserEvent, UserInfo,
};

#[test]
fn scope_labels() {
    assert_eq!(Scope::System.label(), "system");
    assert_eq!(Scope::User(1000).label(), "user@1000");
    assert_eq!(Scope::User(0).label(), "user@0");
    assert!(Scope::User(3).same(&Scope::User(3)));
    assert!(!Scope::User(3).same(&Scope::System));
}

#[test]
fn users_to_monitor() {
    assert!(!user_state_is_live("offline"));
    assert!(!user_state_is_live("closing"));
    assert!(user_state_is_live("active"));
    assert!(user_state_is_live("lingering"));
    assert!(user_state_is_live(""));
    assert!(live_user(1000, "alice".into(), String::new()).is_none());
    let u = live_user(1000, "alice".into(), "/run/user/1000".into()).unwrap();
    assert_eq!((u.uid, u.name.as_str()), (1000, "alice"));
}

#[test]
fn bus_address_of_user() {
    let u = UserInfo { uid: 1000, name: "a".into(), runtime_path: "/run/user/1000".into() };
    assert_eq!(user_bus_address(&u), "unix:path=/run/user/1000/bus");
}

#[test]
fn seteuid_fallback_only_for_refusals_as_root() {
    assert!(should_try_seteuid(&ConnectFailure::BrokenPipe));
    assert!(should_try_seteuid(&ConnectFailure::PermissionDenied));
    assert!(!should_try_seteuid(&ConnectFailure::OtherIo));
    assert!(!should_try_seteuid(&ConnectFailure::Other));
    assert!(retry_as_user(&ConnectFailure::BrokenPipe, true));
    assert!(!retry_as_user(&ConnectFailure::BrokenPipe, false));
    assert!(!retry_as_user(&ConnectFailure::OtherIo, true));
}

#[test]
fn user_managers_off_by_default() {
    let c = Config { include_filters: None, exclude_filters: None, monitor_user_managers: None };
    assert!(!c.user_managers_enabled());
    let c = Config { monitor_user_managers: Some(true), ..c };
    assert!(c.user_managers_enabled());
    let c = Config { monitor_user_managers: Some(false), ..c };
    assert!(!c.user_managers_enabled());
}

#[test]
fn scope_table_keeps_one_handle_per_scope() {
    let mut t: ScopeTable<u32> = ScopeTable::new();
    t.insert(Scope::System, 1);
    t.insert(Scope::User(5), 2);
    t.insert(Scope::User(5), 3);
    assert_eq!(t.len(), 2);
    let i = t.position(&Scope::User(5)).unwrap();
    assert_eq!(*t.handle_at(i), 3);
    assert_eq!(*t.handle_at(t.position(&Scope::System).unwrap()), 1);
    t.remove(&Scope::User(5));
    assert_eq!(t.len(), 1);
    assert!(t.position(&Scope::User(5)).is_none());
    t.remove(&Scope::User(7));
    assert_eq!(t.len(), 1);
}

#[test]
fn user_events_follow_live_users_and_forget_removed_ones() {
    let mut t: ScopeTable<u8> = ScopeTable::new();
    t.insert(Scope::User(7), 1);
    t.insert(Scope::System, 2);
    let ev = UserEvent::New { uid: 5, state: "active".into(), runtime_path: "/run/user/5".into() };
    match on_user_event(&mut t, ev) {
        UserAction::Follow(u) => {
            assert_eq!(u.uid, 5);
            assert_eq!(u.runtime_path, "/run/user/5");
            assert_eq!(u.name, "");
        }
        UserAction::Ignore => panic!("a live user is followed"),
    }
    assert_eq!(t.len(), 2);
    let gone = UserEvent::New { uid: 5, state: "closing".into(), runtime_path: "/run/user/5".into() };
    assert!(matches!(on_user_event(&mut t, gone), UserAction::Ignore));
    let no_dir = UserEvent::New { uid: 5, state: "".into(), runtime_path: "".into() };
    assert!(matches!(on_user_event(&mut t, no_dir), UserAction::Ignore));
    assert!(matches!(on_user_event(&mut t, UserEvent::Removed { uid: 7 }), UserAction::Ignore));
    assert_eq!(t.len(), 1);
    assert!(t.position(&Scope::User(7)).is_none());
    assert!(t.position(&Scope::System).is_some());
}

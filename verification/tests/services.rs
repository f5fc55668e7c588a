use happy_remote::cache::MemoryCache;
use happy_remote::model::{Capability, Machine, Platform, Session, SessionStatus};
use happy_remote::services::{
    find_session_by_tag, forget_machine, machine_cache_key, machine_infos_at, machine_online_cache_key, new_session,
    plan_machine_registration, session_cache_key, session_with_id, set_machine_online,
};

#[test]
fn cache_keys() {
    assert_eq!(session_cache_key("abc"), "session:abc");
    assert_eq!(machine_cache_key("m"), "machine:m");
    assert_eq!(machine_online_cache_key("m"), "machine:m:online");
}

#[test]
fn created_sessions_take_the_directory() {
    let s = session_with_id("id".into(), "u", "m", "box", "tag", "/work", 5);
    assert_eq!(s.metadata.cwd, "/work");
    assert_eq!(s.status, SessionStatus::Initializing);
    let fresh = new_session("u", "m", "box", "tag", "/w");
    assert_eq!(fresh.id.chars().count(), 36);
    let c: Vec<char> = fresh.id.chars().collect();
    assert_eq!((c[8], c[13], c[14], c[18], c[23]), ('-', '-', '4', '-', '-'));
    assert!("89ab".contains(c[19]));
    assert_eq!(fresh.metadata.cwd, "/w");
    assert_eq!(fresh.tag, "tag");
}

#[test]
fn tag_lookup_skips_terminated_sessions() {
    let mut a = Session::new("a".into(), "t".into(), "u".into(), "m".into(), "n".into(), 0);
    a.status = SessionStatus::Terminated;
    let mut b = Session::new("b".into(), "t".into(), "u".into(), "m".into(), "n".into(), 0);
    b.status = SessionStatus::Running;
    let c = Session::new("c".into(), "t".into(), "u".into(), "m".into(), "n".into(), 0);
    let found = find_session_by_tag(vec![a.clone(), b, c], "t").unwrap();
    assert_eq!(found.id, "b");
    assert!(find_session_by_tag(vec![a], "t").is_none());
}

#[test]
fn machine_registration_plans() {
    let new = plan_machine_registration(None, "u", "m1", "box", Platform::Windows, 3);
    assert!(new.create);
    assert!(!new.rename);
    assert_eq!(new.machine.capabilities, vec![Capability::Terminal, Capability::FileSystem]);
    assert_eq!(new.machine.platform, Platform::Windows);
    let known = Machine::new("m1".into(), "u".into(), "old".into(), vec![], Platform::Linux, 1);
    let again = plan_machine_registration(Some(known), "u", "m1", "new-name", Platform::MacOS, 9);
    assert!(!again.create);
    assert!(again.rename);
    assert_eq!(again.machine.name, "new-name");
    assert_eq!(again.machine.platform, Platform::Linux);
}

#[test]
fn repeated_registration_keeps_the_machine() {
    let first = plan_machine_registration(None, "u", "m1", "box", Platform::Linux, 3);
    let stored = first.machine.clone();
    let again = plan_machine_registration(Some(first.machine), "other", "m1", "box", Platform::MacOS, 99);
    assert!(!again.create);
    assert!(!again.rename);
    assert_eq!((again.machine.id.as_str(), again.machine.user_id.as_str(), again.machine.name.as_str()), ("m1", "u", "box"));
    assert_eq!(again.machine.platform, stored.platform);
    assert_eq!(again.machine.last_seen, stored.last_seen);
}

#[test]
fn online_marks() {
    let mut cache = MemoryCache::new();
    set_machine_online(&mut cache, "m1", true);
    assert_eq!(cache.get("machine:m1:online"), Some(vec![1]));
    let machines = vec![
        Machine::new("m1".into(), "u".into(), "a".into(), vec![], Platform::Linux, 0),
        Machine::new("m2".into(), "u".into(), "b".into(), vec![], Platform::Linux, 0),
    ];
    let now = cache.now();
    let infos = machine_infos_at(machines, &mut cache, now);
    assert!(infos[0].is_online);
    assert!(!infos[1].is_online);
    set_machine_online(&mut cache, "m1", false);
    assert_eq!(cache.get("machine:m1:online"), None);
    cache.set("machine:m2".into(), vec![5]);
    set_machine_online(&mut cache, "m2", true);
    forget_machine(&mut cache, "m2");
    assert_eq!(cache.get("machine:m2"), None);
    assert_eq!(cache.get("machine:m2:online"), None);
}

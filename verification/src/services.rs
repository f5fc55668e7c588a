//! Rules of the session manager and the machine registry that do not touch the store.

use vstd::prelude::*;
use crate::cache::{MemoryCache, live_value, after_read};
use crate::model::{
    Machine, MachineInfo, MachineInfoView, MachineView, Platform, Session, SessionStatus, SessionView,
    SessionMetadataView, default_capabilities, machine_info_of, new_session_view,
};
use crate::text::{owned, concat, str_eq};

verus! {

/// The cache key of a session.
pub open spec fn session_key(id: Seq<char>) -> Seq<char> {
    "session:"@ + id
}

/// The cache key of a machine.
pub open spec fn machine_key(id: Seq<char>) -> Seq<char> {
    "machine:"@ + id
}

/// The cache key that marks a machine online.
pub open spec fn machine_online_key(id: Seq<char>) -> Seq<char> {
    "machine:"@ + id + ":online"@
}

/// The cache key of a session.
pub fn session_cache_key(id: &str) -> (r: String)
    ensures
        r@ == session_key(id@),
{
    concat("session:", id)
}

/// The cache key of a machine.
pub fn machine_cache_key(id: &str) -> (r: String)
    ensures
        r@ == machine_key(id@),
{
    concat("machine:", id)
}

/// The cache key that marks a machine online.
pub fn machine_online_cache_key(id: &str) -> (r: String)
    ensures
        r@ == machine_online_key(id@),
{
    let k = concat("machine:", id);
    concat(k.as_str(), ":online")
}

/// The view of a session created with the given fields, working directory and time.
pub open spec fn created_session_view(
    id: Seq<char>,
    tag: Seq<char>,
    user_id: Seq<char>,
    machine_id: Seq<char>,
    machine_name: Seq<char>,
    cwd: Seq<char>,
    now: i64,
) -> SessionView {
    let s = new_session_view(id, tag, user_id, machine_id, machine_name, now);
    SessionView { metadata: SessionMetadataView { cwd, ..s.metadata }, ..s }
}

/// A new session with the given id and working directory, created at `now`.
pub fn session_with_id(
    id: String,
    user_id: &str,
    machine_id: &str,
    machine_name: &str,
    tag: &str,
    cwd: &str,
    now: i64,
) -> (r: Session)
    ensures
        r@ == created_session_view(id@, tag@, user_id@, machine_id@, machine_name@, cwd@, now),
{
    let mut s = Session::new(id, owned(tag), owned(user_id), owned(machine_id), owned(machine_name), now);
    s.metadata.cwd = owned(cwd);
    s
}

/// A new session for `user_id` on the machine with a fresh random version 4 UUID as id,
/// created now, in the working directory `cwd`.
pub fn new_session(user_id: &str, machine_id: &str, machine_name: &str, tag: &str, cwd: &str) -> (r: Session)
    ensures
        crate::model::uuid_v4_text(r@.id),
        exists|now: i64| r@ == created_session_view(r@.id, tag@, user_id@, machine_id@, machine_name@, cwd@, now),
{
    let id = crate::model::new_uuid();
    let now = crate::auth::now_unix_millis();
    let r = session_with_id(id, user_id, machine_id, machine_name, tag, cwd, now);
    assert(r@ == created_session_view(r@.id, tag@, user_id@, machine_id@, machine_name@, cwd@, now));
    r
}

/// The index of the first session with this tag that has not terminated.
pub open spec fn first_active_with_tag(sessions: Seq<SessionView>, tag: Seq<char>, i: int) -> bool {
    &&& 0 <= i < sessions.len()
    &&& sessions[i].tag == tag
    &&& sessions[i].status != SessionStatus::Terminated
    &&& forall|j: int| 0 <= j < i ==> !(sessions[j].tag == tag && sessions[j].status != SessionStatus::Terminated)
}

/// The first session in the list with the tag that is initializing, running or paused.
pub fn find_session_by_tag(sessions: Vec<Session>, tag: &str) -> (r: Option<Session>)
    ensures
        match r {
            Some(s) => exists|i: int| first_active_with_tag(sessions@.map_values(|x: Session| x@), tag@, i)
                && s@ == sessions@[i]@,
            None => forall|i: int| 0 <= i < sessions@.len() ==> !(#[trigger] sessions@[i]@.tag == tag@
                && sessions@[i]@.status != SessionStatus::Terminated),
        },
{
    let ghost all = sessions@.map_values(|x: Session| x@);
    let mut i: usize = 0;
    while i < sessions.len()
        invariant
            i <= sessions@.len(),
            all == sessions@.map_values(|x: Session| x@),
            forall|j: int| 0 <= j < i ==> !(#[trigger] sessions@[j]@.tag == tag@ && sessions@[j]@.status != SessionStatus::Terminated),
        decreases sessions@.len() - i,
    {
        if str_eq(sessions[i].tag.as_str(), tag) && sessions[i].status != SessionStatus::Terminated {
            let s = sessions[i].copy();
            assert(first_active_with_tag(all, tag@, i as int)) by {
                assert forall|j: int| 0 <= j < i implies !(all[j].tag == tag@ && all[j].status != SessionStatus::Terminated) by {
                    assert(all[j] == sessions@[j]@);
                }
            }
            return Some(s);
        }
        i = i + 1;
    }
    None
}

/// What registering a machine for its daemon comes to.
pub struct MachineRegistration {
    /// The machine as registered.
    pub machine: Machine,
    /// Whether the machine is new and must be created in the store.
    pub create: bool,
    /// Whether a known machine changed its name, which the store must record.
    pub rename: bool,
}

/// What registering a machine comes to, as a value: the machine as registered,
/// whether it must be created, and whether it was renamed.
pub open spec fn registration(
    existing: Option<MachineView>,
    user_id: Seq<char>,
    machine_id: Seq<char>,
    name: Seq<char>,
    platform: Platform,
    now: i64,
) -> (MachineView, bool, bool) {
    match existing {
        Some(m) => (MachineView { name, ..m }, false, m.name != name),
        None => (MachineView {
            id: machine_id,
            user_id,
            name,
            public_key: Seq::empty(),
            platform,
            last_seen: now,
            capabilities: default_capabilities(),
            ip_address: None,
            hostname: None,
        }, true, false),
    }
}

/// The view of an optional machine.
pub open spec fn opt_machine_view(m: Option<Machine>) -> Option<MachineView> {
    match m {
        Some(x) => Some(x@),
        None => None,
    }
}

/// A known machine keeps its record and takes the daemon's name (`rename` when
/// that changes it); an unknown one is created for the user with no public key,
/// the daemon's platform and the default capabilities, seen at `now`.
pub fn plan_machine_registration(
    existing: Option<Machine>,
    user_id: &str,
    machine_id: &str,
    name: &str,
    platform: Platform,
    now: i64,
) -> (r: MachineRegistration)
    ensures
        (r.machine@, r.create, r.rename) == registration(opt_machine_view(existing), user_id@, machine_id@, name@, platform, now),
{
    match existing {
        Some(m) => {
            let mut m = m;
            let rename = !str_eq(m.name.as_str(), name);
            if rename {
                m.name = owned(name);
            }
            MachineRegistration { machine: m, create: false, rename }
        },
        None => {
            let key: Vec<u8> = Vec::new();
            let m = Machine::new(owned(machine_id), owned(user_id), owned(name), key, platform, now);
            MachineRegistration { machine: m, create: true, rename: false }
        },
    }
}

/// Registering a machine again with the same name, once its first registration is
/// stored, gives back the stored machine unchanged: the same id, owner and name,
/// with nothing to create and nothing to rename, whatever the caller's user and
/// platform and whenever it happens.
pub proof fn lemma_registration_repeats(
    existing: Option<MachineView>,
    user_id: Seq<char>,
    machine_id: Seq<char>,
    name: Seq<char>,
    platform: Platform,
    now: i64,
    user_id2: Seq<char>,
    platform2: Platform,
    now2: i64,
)
    ensures
        ({
            let first = registration(existing, user_id, machine_id, name, platform, now);
            let again = registration(Some(first.0), user_id2, machine_id, name, platform2, now2);
            &&& again.0 == first.0
            &&& !again.1
            &&& !again.2
            &&& (existing is None ==> first.0.id == machine_id && first.0.user_id == user_id && first.0.name == name)
        }),
{
}

/// Marks a machine online in the cache (a key with value `[1]` and no expiry) or
/// clears the mark.
pub fn set_machine_online(cache: &mut MemoryCache, machine_id: &str, is_online: bool)
    ensures
        is_online ==> final(cache)@ == old(cache)@.insert(machine_online_key(machine_id@), (seq![1u8], None)),
        !is_online ==> final(cache)@ == old(cache)@.remove(machine_online_key(machine_id@)),
{
    let key = machine_online_cache_key(machine_id);
    if is_online {
        let mut v: Vec<u8> = Vec::new();
        v.push(1u8);
        assert(v@ =~= seq![1u8]);
        cache.set(key, v);
    } else {
        cache.delete(key.as_str());
    }
}

/// Drops a machine and its online mark from the cache.
pub fn forget_machine(cache: &mut MemoryCache, machine_id: &str)
    ensures
        final(cache)@ == old(cache)@.remove(machine_key(machine_id@)).remove(machine_online_key(machine_id@)),
{
    let k1 = machine_cache_key(machine_id);
    let k2 = machine_online_cache_key(machine_id);
    cache.delete(k1.as_str());
    cache.delete(k2.as_str());
}

/// The cache after reading the online marks of the machines, in order, at `now`.
pub open spec fn after_online_reads(
    m: Map<Seq<char>, (Seq<u8>, Option<u64>)>,
    machines: Seq<MachineView>,
    now: u64,
) -> Map<Seq<char>, (Seq<u8>, Option<u64>)>
    decreases machines.len(),
{
    if machines.len() == 0 {
        m
    } else {
        after_read(after_online_reads(m, machines.drop_last(), now), machine_online_key(machines.last().id), now)
    }
}

/// The information on the user's machines, each online when the cache holds its
/// online mark at `now`.
pub fn machine_infos_at(machines: Vec<Machine>, cache: &mut MemoryCache, now: u64) -> (r: Vec<MachineInfo>)
    ensures
        r@.len() == machines@.len(),
        forall|i: int| 0 <= i < machines@.len() ==> #[trigger] r@[i]@ == machine_info_of(
            machines@[i]@,
            live_value(old(cache)@, machine_online_key(machines@[i]@.id), now) is Some,
        ),
        final(cache)@ == after_online_reads(old(cache)@, machines@.map_values(|m: Machine| m@), now),
{
    let ghost all = machines@.map_values(|m: Machine| m@);
    let ghost start = cache@;
    let mut r: Vec<MachineInfo> = Vec::new();
    let mut i: usize = 0;
    while i < machines.len()
        invariant
            i <= machines@.len(),
            all == machines@.map_values(|m: Machine| m@),
            r@.len() == i,
            cache@ == after_online_reads(start, all.take(i as int), now),
            forall|j: int| 0 <= j < i ==> #[trigger] r@[j]@ == machine_info_of(
                machines@[j]@,
                live_value(start, machine_online_key(machines@[j]@.id), now) is Some,
            ),
            forall|k: Seq<char>| live_value(cache@, k, now) == live_value(start, k, now),
        decreases machines@.len() - i,
    {
        let m = &machines[i];
        let key = machine_online_cache_key(m.id.as_str());
        let online = cache.key_exists_at(key.as_str(), now);
        assert(all.take(i as int + 1).drop_last() =~= all.take(i as int));
        let caps = copy_capabilities(&m.capabilities);
        r.push(MachineInfo {
            id: m.id.clone(),
            name: m.name.clone(),
            platform: m.platform,
            last_seen: m.last_seen,
            is_online: online,
            capabilities: caps,
        });
        i = i + 1;
    }
    assert(all.take(machines@.len() as int) =~= all);
    r
}

/// A copy of a capability list.
fn copy_capabilities(v: &Vec<crate::model::Capability>) -> (r: Vec<crate::model::Capability>)
    ensures
        r@ == v@,
{
    let mut r: Vec<crate::model::Capability> = Vec::new();
    let mut i: usize = 0;
    while i < v.len()
        invariant
            i <= v@.len(),
            r@ == v@.take(i as int),
        decreases v@.len() - i,
    {
        r.push(v[i]);
        assert(v@.take(i as int + 1) =~= v@.take(i as int).push(v@[i as int]));
        i = i + 1;
    }
    assert(v@.take(v@.len() as int) =~= v@);
    r
}

/// A machine is reported online exactly while its mark is in the cache.
pub proof fn lemma_online_mark(m: Map<Seq<char>, (Seq<u8>, Option<u64>)>, id: Seq<char>, now: u64)
    ensures
        live_value(m.insert(machine_online_key(id), (seq![1u8], None)), machine_online_key(id), now) is Some,
        live_value(m.remove(machine_online_key(id)), machine_online_key(id), now) is None,
{
}

} // verus!

//! Routing of messages between CLI bridges, machine daemons and web clients.
//!
//! Connections are named by numbers that the caller hands out; the router
//! decides which connections a message goes to, and the caller sends it.

use vstd::prelude::*;
use crate::keyed::{KeyedList, has_key};
use crate::text::copy_bytes;

verus! {

/// The number that names one open connection.
pub type ConnId = u64;

/// The most bytes of terminal output kept per session.
pub const MAX_BUFFER_BYTES: usize = 65536;

/// The last `MAX_BUFFER_BYTES` bytes of `s` (all of `s` when it is shorter).
pub open spec fn bounded_tail(s: Seq<u8>) -> Seq<u8> {
    if s.len() > MAX_BUFFER_BYTES {
        s.skip(s.len() - MAX_BUFFER_BYTES)
    } else {
        s
    }
}

/// The connections among `users` that belong to `user_id`, in order.
pub open spec fn user_conns(users: Seq<(Seq<char>, ConnId)>, user_id: Seq<char>) -> Seq<ConnId>
    decreases users.len(),
{
    if users.len() == 0 {
        Seq::empty()
    } else {
        let rest = user_conns(users.drop_last(), user_id);
        if users.last().0 == user_id {
            rest.push(users.last().1)
        } else {
            rest
        }
    }
}

/// The entries of `users` that do not belong to `user_id`, in order.
pub open spec fn without_user(users: Seq<(Seq<char>, ConnId)>, user_id: Seq<char>) -> Seq<(Seq<char>, ConnId)>
    decreases users.len(),
{
    if users.len() == 0 {
        Seq::empty()
    } else {
        let rest = without_user(users.drop_last(), user_id);
        if users.last().0 == user_id {
            rest
        } else {
            rest.push(users.last())
        }
    }
}

/// All web connections of the given session entries, session after session.
pub open spec fn all_web_conns(entries: Seq<(String, Vec<ConnId>)>) -> Seq<ConnId>
    decreases entries.len(),
{
    if entries.len() == 0 {
        Seq::empty()
    } else {
        all_web_conns(entries.drop_last()) + entries.last().1@
    }
}

/// The connections a session's web clients use, or none.
pub open spec fn web_of(m: Map<Seq<char>, Seq<ConnId>>, session_id: Seq<char>) -> Seq<ConnId> {
    if m.contains_key(session_id) {
        m[session_id]
    } else {
        Seq::empty()
    }
}

/// The daemon connections of a machine, or none.
pub open spec fn machine_conns_of(m: Map<Seq<char>, Map<Seq<char>, ConnId>>, machine_id: Seq<char>) -> Map<Seq<char>, ConnId> {
    if m.contains_key(machine_id) {
        m[machine_id]
    } else {
        Map::empty()
    }
}

/// The output buffer of a session, or nothing.
pub open spec fn buffer_of(m: Map<Seq<char>, Seq<u8>>, session_id: Seq<char>) -> Seq<u8> {
    if m.contains_key(session_id) {
        m[session_id]
    } else {
        Seq::empty()
    }
}

/// The machine map after the connection `connection_id` of `machine_id` left:
/// a machine with no connection left is dropped.
pub open spec fn machines_after_leave(
    m: Map<Seq<char>, Map<Seq<char>, ConnId>>,
    machine_id: Seq<char>,
    connection_id: Seq<char>,
) -> Map<Seq<char>, Map<Seq<char>, ConnId>> {
    if m.contains_key(machine_id) {
        let rest = m[machine_id].remove(connection_id);
        if rest.dom().len() == 0 {
            m.remove(machine_id)
        } else {
            m.insert(machine_id, rest)
        }
    } else {
        m
    }
}

/// Router of messages between CLI bridges, machine daemons and web clients.
pub struct ConnectionManager {
    /// Session id to the connection of its CLI bridge.
    cli_connections: KeyedList<ConnId>,
    /// Session id to the connections of its web clients.
    web_connections: KeyedList<Vec<ConnId>>,
    /// Machine id to its daemon connections, by connection name.
    machine_connections: KeyedList<KeyedList<ConnId>>,
    /// Request id to the connection that waits for the answer.
    pending_requests: KeyedList<ConnId>,
    /// Session id to the last output of its terminal.
    output_buffers: KeyedList<Vec<u8>>,
    /// Every authenticated connection with its user, for global broadcasts.
    user_connections: Vec<(String, ConnId)>,
}

impl ConnectionManager {
    /// Session id to CLI bridge connection.
    pub closed spec fn cli(self) -> Map<Seq<char>, ConnId> {
        self.cli_connections.map()
    }

    /// Session id to web client connections.
    pub closed spec fn web(self) -> Map<Seq<char>, Seq<ConnId>> {
        self.web_connections.map().map_values(|v: Vec<ConnId>| v@)
    }

    /// The web sessions in order, with their connections.
    pub closed spec fn web_entries(self) -> Seq<(String, Vec<ConnId>)> {
        self.web_connections.entries()
    }

    /// Machine id to its daemon connections by connection name.
    pub closed spec fn machines(self) -> Map<Seq<char>, Map<Seq<char>, ConnId>> {
        self.machine_connections.map().map_values(|l: KeyedList<ConnId>| l.map())
    }

    /// Request id to the waiting connection.
    pub closed spec fn pending(self) -> Map<Seq<char>, ConnId> {
        self.pending_requests.map()
    }

    /// Session id to its output buffer.
    pub closed spec fn buffers(self) -> Map<Seq<char>, Seq<u8>> {
        self.output_buffers.map().map_values(|v: Vec<u8>| v@)
    }

    /// The authenticated connections with their users, in order of registration.
    pub closed spec fn users(self) -> Seq<(Seq<char>, ConnId)> {
        self.user_connections@.map_values(|p: (String, ConnId)| (p.0@, p.1))
    }

    /// A router with no connections.
    pub fn new() -> (r: ConnectionManager)
        ensures
            r.cli() == Map::<Seq<char>, ConnId>::empty(),
            r.web() == Map::<Seq<char>, Seq<ConnId>>::empty(),
            r.machines() == Map::<Seq<char>, Map<Seq<char>, ConnId>>::empty(),
            r.pending() == Map::<Seq<char>, ConnId>::empty(),
            r.buffers() == Map::<Seq<char>, Seq<u8>>::empty(),
            r.users() == Seq::<(Seq<char>, ConnId)>::empty(),
    {
        let r = ConnectionManager {
            cli_connections: KeyedList::new(),
            web_connections: KeyedList::new(),
            machine_connections: KeyedList::new(),
            pending_requests: KeyedList::new(),
            output_buffers: KeyedList::new(),
            user_connections: Vec::new(),
        };
        assert(r.web() =~= Map::<Seq<char>, Seq<ConnId>>::empty());
        assert(r.machines() =~= Map::<Seq<char>, Map<Seq<char>, ConnId>>::empty());
        assert(r.buffers() =~= Map::<Seq<char>, Seq<u8>>::empty());
        assert(r.users() =~= Seq::<(Seq<char>, ConnId)>::empty());
        r
    }

    /// Registers an authenticated connection of `user_id` for global broadcasts.
    pub fn register_user(&mut self, user_id: &str, conn: ConnId)
        ensures
            final(self).users() == old(self).users().push((user_id@, conn)),
            final(self).cli() == old(self).cli(),
            final(self).web() == old(self).web(),
            final(self).machines() == old(self).machines(),
            final(self).pending() == old(self).pending(),
            final(self).buffers() == old(self).buffers(),
    {
        self.user_connections.push((crate::text::owned(user_id), conn));
        assert(self.users() =~= old(self).users().push((user_id@, conn)));
    }

    /// Drops every connection of `user_id` from the global broadcast list.
    pub fn unregister_user(&mut self, user_id: &str)
        ensures
            final(self).users() == without_user(old(self).users(), user_id@),
            final(self).cli() == old(self).cli(),
            final(self).web() == old(self).web(),
            final(self).machines() == old(self).machines(),
            final(self).pending() == old(self).pending(),
            final(self).buffers() == old(self).buffers(),
    {
        let ghost all = self.users();
        let mut kept: Vec<(String, ConnId)> = Vec::new();
        let mut i: usize = 0;
        while i < self.user_connections.len()
            invariant
                i <= self.user_connections@.len(),
                all == self.users(),
                kept@.map_values(|p: (String, ConnId)| (p.0@, p.1)) == without_user(all.take(i as int), user_id@),
            decreases self.user_connections@.len() - i,
        {
            let ghost before = kept@;
            assert(all.take(i as int + 1).drop_last() =~= all.take(i as int));
            assert(all.take(i as int + 1).last() == all[i as int]);
            if !crate::text::str_eq(self.user_connections[i].0.as_str(), user_id) {
                let name = self.user_connections[i].0.clone();
                kept.push((name, self.user_connections[i].1));
                assert(kept@.map_values(|p: (String, ConnId)| (p.0@, p.1)) =~= before.map_values(
                    |p: (String, ConnId)| (p.0@, p.1),
                ).push(all[i as int]));
            }
            i = i + 1;
        }
        assert(all.take(all.len() as int) =~= all);
        self.user_connections = kept;
    }

    /// The connections that a broadcast to all users goes to, in order.
    pub fn broadcast_to_all_users(&self) -> (r: Vec<ConnId>)
        ensures
            r@ == self.users().map_values(|p: (Seq<char>, ConnId)| p.1),
    {
        let mut r: Vec<ConnId> = Vec::new();
        let mut i: usize = 0;
        while i < self.user_connections.len()
            invariant
                i <= self.user_connections@.len(),
                r@ == self.users().take(i as int).map_values(|p: (Seq<char>, ConnId)| p.1),
            decreases self.user_connections@.len() - i,
        {
            r.push(self.user_connections[i].1);
            assert(self.users().take(i as int + 1) =~= self.users().take(i as int).push(self.users()[i as int]));
            assert(r@ =~= self.users().take(i as int + 1).map_values(|p: (Seq<char>, ConnId)| p.1));
            i = i + 1;
        }
        assert(self.users().take(self.users().len() as int) =~= self.users());
        r
    }

    /// The connections of `user_id`, in order of registration.
    pub fn send_to_user(&self, user_id: &str) -> (r: Vec<ConnId>)
        ensures
            r@ == user_conns(self.users(), user_id@),
    {
        let mut r: Vec<ConnId> = Vec::new();
        let mut i: usize = 0;
        while i < self.user_connections.len()
            invariant
                i <= self.user_connections@.len(),
                r@ == user_conns(self.users().take(i as int), user_id@),
            decreases self.user_connections@.len() - i,
        {
            assert(self.users().take(i as int + 1).drop_last() =~= self.users().take(i as int));
            if crate::text::str_eq(self.user_connections[i].0.as_str(), user_id) {
                r.push(self.user_connections[i].1);
            }
            i = i + 1;
        }
        assert(self.users().take(self.users().len() as int) =~= self.users());
        r
    }

    /// Makes `conn` the CLI bridge of `session_id`.
    pub fn register_cli(&mut self, session_id: &str, conn: ConnId)
        ensures
            final(self).cli() == old(self).cli().insert(session_id@, conn),
            final(self).web() == old(self).web(),
            final(self).machines() == old(self).machines(),
            final(self).pending() == old(self).pending(),
            final(self).buffers() == old(self).buffers(),
            final(self).users() == old(self).users(),
    {
        self.cli_connections.insert(crate::text::owned(session_id), conn);
    }

    /// Forgets the CLI bridge of `session_id`.
    pub fn unregister_cli(&mut self, session_id: &str)
        ensures
            final(self).cli() == old(self).cli().remove(session_id@),
            final(self).web() == old(self).web(),
            final(self).machines() == old(self).machines(),
            final(self).pending() == old(self).pending(),
            final(self).buffers() == old(self).buffers(),
            final(self).users() == old(self).users(),
    {
        let _ = self.cli_connections.remove(session_id);
    }

    /// Whether `session_id` has a CLI bridge.
    pub fn has_cli(&self, session_id: &str) -> (r: bool)
        ensures
            r == self.cli().contains_key(session_id@),
    {
        self.cli_connections.contains_key(session_id)
    }

    /// The CLI bridge that a message for `session_id` goes to, if it has one.
    pub fn forward_to_cli(&self, session_id: &str) -> (r: Option<ConnId>)
        ensures
            match r {
                Some(c) => self.cli().contains_key(session_id@) && self.cli()[session_id@] == c,
                None => !self.cli().contains_key(session_id@),
            },
    {
        match self.cli_connections.get(session_id) {
            Some(c) => Some(*c),
            None => None,
        }
    }

    /// Adds `conn` to the daemon connections of `machine_id` under the name `connection_id`.
    pub fn register_machine(&mut self, machine_id: &str, connection_id: &str, conn: ConnId)
        ensures
            final(self).machines() == old(self).machines().insert(
                machine_id@,
                machine_conns_of(old(self).machines(), machine_id@).insert(connection_id@, conn),
            ),
            final(self).cli() == old(self).cli(),
            final(self).web() == old(self).web(),
            final(self).pending() == old(self).pending(),
            final(self).buffers() == old(self).buffers(),
            final(self).users() == old(self).users(),
    {
        let ghost old_machines = self.machines();
        let mut inner = match self.machine_connections.remove(machine_id) {
            Some(l) => l,
            None => KeyedList::new(),
        };
        inner.insert(crate::text::owned(connection_id), conn);
        self.machine_connections.insert(crate::text::owned(machine_id), inner);
        assert(self.machines() =~= old_machines.insert(
            machine_id@,
            machine_conns_of(old_machines, machine_id@).insert(connection_id@, conn),
        ));
    }

    /// Removes the daemon connection `connection_id` of `machine_id`; a machine
    /// left with no connection is forgotten.
    pub fn unregister_machine(&mut self, machine_id: &str, connection_id: &str)
        ensures
            final(self).machines() == machines_after_leave(old(self).machines(), machine_id@, connection_id@),
            final(self).cli() == old(self).cli(),
            final(self).web() == old(self).web(),
            final(self).pending() == old(self).pending(),
            final(self).buffers() == old(self).buffers(),
            final(self).users() == old(self).users(),
    {
        let ghost old_machines = self.machines();
        match self.machine_connections.remove(machine_id) {
            Some(inner) => {
                let mut inner = inner;
                let _ = inner.remove(connection_id);
                proof {
                    use_type_invariant(&inner);
                    inner.lemma_entries();
                }
                if inner.len() == 0 {
                    assert(inner.map().dom() =~= Set::<Seq<char>>::empty());
                    assert(self.machines() =~= machines_after_leave(old_machines, machine_id@, connection_id@));
                } else {
                    assert(inner.map().contains_key(inner.entries()[0].0@));
                    assert(inner.map().dom().len() != 0) by {
                        if inner.map().dom().len() == 0 {
                            assert(inner.map().dom().finite()) by {
                                assert(inner.map().dom() =~= Set::new(|k: Seq<char>| has_key(inner.entries(), k)));
                                crate::keyed::lemma_keys_finite(inner.entries());
                            }
                            assert(inner.map().dom().contains(inner.entries()[0].0@));
                        }
                    }
                    self.machine_connections.insert(crate::text::owned(machine_id), inner);
                    assert(self.machines() =~= machines_after_leave(old_machines, machine_id@, connection_id@));
                }
            },
            None => {},
        }
    }

    /// Whether `machine_id` has an open daemon connection.
    pub fn has_machine(&self, machine_id: &str) -> (r: bool)
        ensures
            r == (self.machines().contains_key(machine_id@) && self.machines()[machine_id@].dom().len() > 0),
    {
        match self.machine_connections.get(machine_id) {
            Some(inner) => {
                proof {
                    use_type_invariant(inner);
                    inner.lemma_entries();
                    crate::keyed::lemma_keys_finite(inner.entries());
                    assert(inner.map().dom() =~= Set::new(|k: Seq<char>| has_key(inner.entries(), k)));
                }
                if inner.len() == 0 {
                    assert(inner.map().dom() =~= Set::<Seq<char>>::empty());
                    false
                } else {
                    assert(inner.map().dom().contains(inner.entries()[0].0@));
                    true
                }
            },
            None => false,
        }
    }

    /// One open daemon connection of `machine_id` (the earliest registered), if any.
    pub fn get_machine_tx(&self, machine_id: &str) -> (r: Option<ConnId>)
        ensures
            match r {
                Some(c) => self.machines().contains_key(machine_id@) && self.machines()[machine_id@].dom().len() > 0 && exists|k: Seq<char>|
                    #[trigger] self.machines()[machine_id@].contains_key(k) && self.machines()[machine_id@][k] == c,
                None => !(self.machines().contains_key(machine_id@) && self.machines()[machine_id@].dom().len() > 0),
            },
    {
        match self.machine_connections.get(machine_id) {
            Some(inner) => {
                proof {
                    use_type_invariant(inner);
                    inner.lemma_entries();
                    crate::keyed::lemma_keys_finite(inner.entries());
                    assert(inner.map().dom() =~= Set::new(|k: Seq<char>| has_key(inner.entries(), k)));
                }
                if inner.len() == 0 {
                    assert(inner.map().dom() =~= Set::<Seq<char>>::empty());
                    None
                } else {
                    let c = *inner.value_at(0);
                    assert(inner.map().contains_key(inner.entries()[0].0@));
                    Some(c)
                }
            },
            None => None,
        }
    }

    /// Records that `conn` waits for the answer to `request_id`.
    pub fn register_pending_request(&mut self, request_id: &str, conn: ConnId)
        ensures
            final(self).pending() == old(self).pending().insert(request_id@, conn),
            final(self).cli() == old(self).cli(),
            final(self).web() == old(self).web(),
            final(self).machines() == old(self).machines(),
            final(self).buffers() == old(self).buffers(),
            final(self).users() == old(self).users(),
    {
        self.pending_requests.insert(crate::text::owned(request_id), conn);
    }

    /// The connection that waits for `request_id`, which stops waiting.
    pub fn take_pending_request(&mut self, request_id: &str) -> (r: Option<ConnId>)
        ensures
            final(self).pending() == old(self).pending().remove(request_id@),
            match r {
                Some(c) => old(self).pending().contains_key(request_id@) && old(self).pending()[request_id@] == c,
                None => !old(self).pending().contains_key(request_id@),
            },
            final(self).cli() == old(self).cli(),
            final(self).web() == old(self).web(),
            final(self).machines() == old(self).machines(),
            final(self).buffers() == old(self).buffers(),
            final(self).users() == old(self).users(),
    {
        self.pending_requests.remove(request_id)
    }

    /// Adds `conn` to the web clients of `session_id`.
    pub fn register_web(&mut self, session_id: &str, conn: ConnId)
        ensures
            final(self).web() == old(self).web().insert(session_id@, web_of(old(self).web(), session_id@).push(conn)),
            final(self).cli() == old(self).cli(),
            final(self).machines() == old(self).machines(),
            final(self).pending() == old(self).pending(),
            final(self).buffers() == old(self).buffers(),
            final(self).users() == old(self).users(),
    {
        let ghost old_web = self.web();
        let mut conns = match self.web_connections.remove(session_id) {
            Some(v) => v,
            None => Vec::new(),
        };
        conns.push(conn);
        self.web_connections.insert(crate::text::owned(session_id), conns);
        assert(self.web() =~= old_web.insert(session_id@, web_of(old_web, session_id@).push(conn)));
    }

    /// Forgets every web client of `session_id`.
    pub fn unregister_web(&mut self, session_id: &str)
        ensures
            final(self).web() == old(self).web().remove(session_id@),
            final(self).cli() == old(self).cli(),
            final(self).machines() == old(self).machines(),
            final(self).pending() == old(self).pending(),
            final(self).buffers() == old(self).buffers(),
            final(self).users() == old(self).users(),
    {
        let ghost old_web = self.web();
        let _ = self.web_connections.remove(session_id);
        assert(self.web() =~= old_web.remove(session_id@));
    }

    /// The web clients that output of `session_id` goes to, in order of joining.
    pub fn broadcast_to_web(&self, session_id: &str) -> (r: Vec<ConnId>)
        ensures
            r@ == web_of(self.web(), session_id@),
    {
        match self.web_connections.get(session_id) {
            Some(v) => {
                let mut r: Vec<ConnId> = Vec::new();
                let mut i: usize = 0;
                while i < v.len()
                    invariant
                        i <= v@.len(),
                        r@ == v@.take(i as int),
                    decreases v@.len() - i,
                {
                    r.push(v[i]);
                    assert(v@.take(i as int + 1) =~= v@.take(i as int).push(v@[i as int]));
                    i = i + 1;
                }
                assert(v@.take(v@.len() as int) =~= v@);
                r
            },
            None => Vec::new(),
        }
    }

    /// Every web client of every session, session after session.
    pub fn broadcast_to_all_web(&self) -> (r: Vec<ConnId>)
        ensures
            r@ == all_web_conns(self.web_entries()),
    {
        let mut r: Vec<ConnId> = Vec::new();
        let n = self.web_connections.len();
        let mut i: usize = 0;
        while i < n
            invariant
                n == self.web_entries().len(),
                i <= n,
                r@ == all_web_conns(self.web_entries().take(i as int)),
            decreases n - i,
        {
            let v = self.web_connections.value_at(i);
            assert(self.web_entries().take(i as int + 1).drop_last() =~= self.web_entries().take(i as int));
            let mut j: usize = 0;
            let ghost base = r@;
            while j < v.len()
                invariant
                    j <= v@.len(),
                    r@ == base + v@.take(j as int),
                decreases v@.len() - j,
            {
                r.push(v[j]);
                assert(v@.take(j as int + 1) =~= v@.take(j as int).push(v@[j as int]));
                assert(r@ =~= base + v@.take(j as int + 1));
                j = j + 1;
            }
            assert(v@.take(v@.len() as int) =~= v@);
            i = i + 1;
        }
        assert(self.web_entries().take(n as int) =~= self.web_entries());
        r
    }

    /// Appends output of `session_id` to its buffer, keeping the last `MAX_BUFFER_BYTES` bytes.
    pub fn append_output(&mut self, session_id: &str, data: &[u8])
        ensures
            final(self).buffers() == old(self).buffers().insert(
                session_id@,
                bounded_tail(buffer_of(old(self).buffers(), session_id@) + data@),
            ),
            final(self).cli() == old(self).cli(),
            final(self).web() == old(self).web(),
            final(self).machines() == old(self).machines(),
            final(self).pending() == old(self).pending(),
            final(self).users() == old(self).users(),
    {
        let ghost old_buffers = self.buffers();
        let mut buf = match self.output_buffers.remove(session_id) {
            Some(v) => v,
            None => Vec::new(),
        };
        let ghost start = buf@;
        let mut i: usize = 0;
        while i < data.len()
            invariant
                i <= data@.len(),
                buf@ == start + data@.take(i as int),
            decreases data@.len() - i,
        {
            buf.push(data[i]);
            assert(data@.take(i as int + 1) =~= data@.take(i as int).push(data@[i as int]));
            assert(buf@ =~= start + data@.take(i as int + 1));
            i = i + 1;
        }
        assert(data@.take(data@.len() as int) =~= data@);
        let kept = if buf.len() > MAX_BUFFER_BYTES {
            let excess = buf.len() - MAX_BUFFER_BYTES;
            let tail = buf.split_off(excess);
            assert(tail@ =~= (start + data@).skip((start + data@).len() - MAX_BUFFER_BYTES));
            tail
        } else {
            buf
        };
        self.output_buffers.insert(crate::text::owned(session_id), kept);
        assert(self.buffers() =~= old_buffers.insert(
            session_id@,
            bounded_tail(buffer_of(old_buffers, session_id@) + data@),
        ));
    }

    /// Replaces the buffer of `session_id` with the last `MAX_BUFFER_BYTES` bytes of `data`.
    pub fn set_output_buffer(&mut self, session_id: &str, data: Vec<u8>)
        ensures
            final(self).buffers() == old(self).buffers().insert(session_id@, bounded_tail(data@)),
            final(self).cli() == old(self).cli(),
            final(self).web() == old(self).web(),
            final(self).machines() == old(self).machines(),
            final(self).pending() == old(self).pending(),
            final(self).users() == old(self).users(),
    {
        let ghost old_buffers = self.buffers();
        let ghost all = data@;
        let mut data = data;
        let kept = if data.len() > MAX_BUFFER_BYTES {
            let excess = data.len() - MAX_BUFFER_BYTES;
            let tail = data.split_off(excess);
            assert(tail@ =~= all.skip(all.len() - MAX_BUFFER_BYTES));
            tail
        } else {
            data
        };
        self.output_buffers.insert(crate::text::owned(session_id), kept);
        assert(self.buffers() =~= old_buffers.insert(session_id@, bounded_tail(all)));
    }

    /// A copy of the buffer of `session_id`, if it has one.
    pub fn get_output_buffer(&self, session_id: &str) -> (r: Option<Vec<u8>>)
        ensures
            match r {
                Some(v) => self.buffers().contains_key(session_id@) && self.buffers()[session_id@] == v@,
                None => !self.buffers().contains_key(session_id@),
            },
    {
        match self.output_buffers.get(session_id) {
            Some(v) => Some(copy_bytes(v.as_slice())),
            None => None,
        }
    }
}


/// A buffer never holds more than `MAX_BUFFER_BYTES` bytes, and bounding the
/// buffer before appending gives the same buffer as bounding the whole output:
/// the buffer is always the last `MAX_BUFFER_BYTES` bytes of what was written.
pub proof fn lemma_buffer_is_output_tail(a: Seq<u8>, b: Seq<u8>)
    ensures
        bounded_tail(a).len() <= MAX_BUFFER_BYTES,
        bounded_tail(bounded_tail(a) + b) == bounded_tail(a + b),
{
    let m = MAX_BUFFER_BYTES as int;
    if a.len() > m {
        let ta = a.skip(a.len() - m);
        let x = ta + b;
        let y = a + b;
        assert(x.len() >= m);
        assert(y.len() > m);
        assert(x.skip(0) =~= x);
        assert(x.skip(x.len() - m) =~= y.skip(y.len() - m)) by {
            assert forall|i: int| 0 <= i < m implies #[trigger] x.skip(x.len() - m)[i] == y.skip(y.len() - m)[i] by {
                let xi = x.len() - m + i;
                let yi = y.len() - m + i;
                assert(yi == xi + (a.len() - m));
                if xi < ta.len() {
                    assert(x[xi] == ta[xi]);
                    assert(y[yi] == a[yi]);
                } else {
                    assert(x[xi] == b[xi - ta.len()]);
                    assert(y[yi] == b[yi - a.len()]);
                }
            }
        }
    }
}

/// Whether every machine in the map has at least one connection, and finitely many.
pub open spec fn machines_well_formed(m: Map<Seq<char>, Map<Seq<char>, ConnId>>) -> bool {
    forall|k: Seq<char>| #[trigger] m.contains_key(k) ==> m[k].dom().finite() && m[k].dom().len() > 0
}

/// Registering a new daemon connection and unregistering it again leaves the
/// machine connections as they were.
pub proof fn lemma_machine_register_undone(
    m: Map<Seq<char>, Map<Seq<char>, ConnId>>,
    machine_id: Seq<char>,
    connection_id: Seq<char>,
    conn: ConnId,
)
    requires
        machines_well_formed(m),
        !machine_conns_of(m, machine_id).contains_key(connection_id),
    ensures
        machines_after_leave(
            m.insert(machine_id, machine_conns_of(m, machine_id).insert(connection_id, conn)),
            machine_id,
            connection_id,
        ) == m,
{
    let inner = machine_conns_of(m, machine_id);
    let m2 = m.insert(machine_id, inner.insert(connection_id, conn));
    assert(m2[machine_id].remove(connection_id) =~= inner);
    if m.contains_key(machine_id) {
        assert(m.insert(machine_id, inner) =~= m);
    } else {
        assert(inner.dom() =~= Set::<Seq<char>>::empty());
        assert(m2.remove(machine_id) =~= m);
    }
}

/// A machine is online after one of its daemons registers, and offline once its
/// only connection leaves.
pub proof fn lemma_machine_presence(
    m: Map<Seq<char>, Map<Seq<char>, ConnId>>,
    machine_id: Seq<char>,
    connection_id: Seq<char>,
    conn: ConnId,
)
    requires
        machines_well_formed(m),
    ensures
        ({
            let r = m.insert(machine_id, machine_conns_of(m, machine_id).insert(connection_id, conn));
            r.contains_key(machine_id) && r[machine_id].contains_key(connection_id) && machines_well_formed(r)
        }),
        m.contains_key(machine_id) && m[machine_id].dom() == set![connection_id] ==> !machines_after_leave(
            m,
            machine_id,
            connection_id,
        ).contains_key(machine_id),
        machines_well_formed(machines_after_leave(m, machine_id, connection_id)),
{
    let inner = machine_conns_of(m, machine_id);
    let r = m.insert(machine_id, inner.insert(connection_id, conn));
    if !m.contains_key(machine_id) {
        assert(inner.dom() =~= Set::<Seq<char>>::empty());
    }
    assert(inner.insert(connection_id, conn).dom() =~= inner.dom().insert(connection_id));
    assert(r[machine_id].dom().contains(connection_id));
    assert forall|k: Seq<char>| #[trigger] r.contains_key(k) implies r[k].dom().finite() && r[k].dom().len() > 0 by {
        if k == machine_id {
            assert(r[k].dom().contains(connection_id));
        }
    }
    if m.contains_key(machine_id) {
        let rest = m[machine_id].remove(connection_id);
        assert(rest.dom() =~= m[machine_id].dom().remove(connection_id));
        if m[machine_id].dom() == set![connection_id] {
            assert(rest.dom() =~= Set::<Seq<char>>::empty());
        }
    }
}

} // verus!

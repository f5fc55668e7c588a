//! Data model shared by the server and its clients.

use vstd::prelude::*;
use crate::text::str_eq;

verus! {

/// Lifecycle state of a terminal session.
#[derive(Debug, Clone, Copy, PartialEq, Eq, Structural)]
pub enum SessionStatus {
    Initializing,
    Running,
    Paused,
    Terminated,
}

/// The text form of a session status, as stored in the database.
pub open spec fn session_status_name(s: SessionStatus) -> Seq<char> {
    match s {
        SessionStatus::Initializing => "initializing"@,
        SessionStatus::Running => "running"@,
        SessionStatus::Paused => "paused"@,
        SessionStatus::Terminated => "terminated"@,
    }
}

/// The status that a stored text denotes; unknown texts read as `Initializing`.
pub open spec fn parse_session_status_spec(s: Seq<char>) -> SessionStatus {
    if s == "initializing"@ {
        SessionStatus::Initializing
    } else if s == "running"@ {
        SessionStatus::Running
    } else if s == "paused"@ {
        SessionStatus::Paused
    } else if s == "terminated"@ {
        SessionStatus::Terminated
    } else {
        SessionStatus::Initializing
    }
}

impl SessionStatus {
    /// The text form of the status.
    pub fn as_str(&self) -> (r: &'static str)
        ensures
            r@ == session_status_name(*self),
    {
        match self {
            SessionStatus::Initializing => "initializing",
            SessionStatus::Running => "running",
            SessionStatus::Paused => "paused",
            SessionStatus::Terminated => "terminated",
        }
    }
}

/// Reads a stored status text.
pub fn parse_session_status(s: &str) -> (r: SessionStatus)
    ensures
        r == parse_session_status_spec(s@),
{
    if str_eq(s, "initializing") {
        SessionStatus::Initializing
    } else if str_eq(s, "running") {
        SessionStatus::Running
    } else if str_eq(s, "paused") {
        SessionStatus::Paused
    } else if str_eq(s, "terminated") {
        SessionStatus::Terminated
    } else {
        SessionStatus::Initializing
    }
}

/// Reading back the stored text of a status gives the status itself.
pub proof fn lemma_session_status_roundtrip(s: SessionStatus)
    ensures
        parse_session_status_spec(session_status_name(s)) == s,
{
    reveal_strlit("initializing");
    reveal_strlit("running");
    reveal_strlit("paused");
    reveal_strlit("terminated");
    assert("initializing"@.len() == 12);
    assert("running"@.len() == 7);
    assert("paused"@.len() == 6);
    assert("terminated"@.len() == 10);
}


/// Operating system family of a machine.
#[derive(Debug, Clone, Copy, PartialEq, Eq, Structural)]
pub enum Platform {
    MacOS,
    Linux,
    Windows,
}

/// The text form of a platform, as stored in the database.
pub open spec fn platform_name(p: Platform) -> Seq<char> {
    match p {
        Platform::MacOS => "macos"@,
        Platform::Linux => "linux"@,
        Platform::Windows => "windows"@,
    }
}

/// The platform that a stored text denotes; unknown texts read as `Linux`.
pub open spec fn parse_platform_spec(s: Seq<char>) -> Platform {
    if s == "macos"@ {
        Platform::MacOS
    } else if s == "linux"@ {
        Platform::Linux
    } else if s == "windows"@ {
        Platform::Windows
    } else {
        Platform::Linux
    }
}

impl Platform {
    /// The text form of the platform.
    pub fn as_str(&self) -> (r: &'static str)
        ensures
            r@ == platform_name(*self),
    {
        match self {
            Platform::MacOS => "macos",
            Platform::Linux => "linux",
            Platform::Windows => "windows",
        }
    }
}

/// Reads a stored platform text (also the operating system names `macos`, `linux`, `windows`).
pub fn parse_platform(s: &str) -> (r: Platform)
    ensures
        r == parse_platform_spec(s@),
{
    if str_eq(s, "macos") {
        Platform::MacOS
    } else if str_eq(s, "linux") {
        Platform::Linux
    } else if str_eq(s, "windows") {
        Platform::Windows
    } else {
        Platform::Linux
    }
}

/// Reading back the stored text of a platform gives the platform itself.
pub proof fn lemma_platform_roundtrip(p: Platform)
    ensures
        parse_platform_spec(platform_name(p)) == p,
{
    reveal_strlit("macos");
    reveal_strlit("linux");
    reveal_strlit("windows");
    assert("macos"@.len() == 5);
    assert("linux"@.len() == 5);
    assert("windows"@.len() == 7);
    assert("macos"@[0] == 'm');
    assert("linux"@[0] == 'l');
}

/// A feature that a machine's daemon offers.
#[derive(Debug, Clone, Copy, PartialEq, Eq, Structural)]
pub enum Capability {
    Terminal,
    FileSystem,
    Notifications,
    Voice,
}

/// The text form of a capability, as stored in the database.
pub open spec fn capability_name(c: Capability) -> Seq<char> {
    match c {
        Capability::Terminal => "terminal"@,
        Capability::FileSystem => "file_system"@,
        Capability::Notifications => "notifications"@,
        Capability::Voice => "voice"@,
    }
}

/// The capability that a stored text denotes, if any.
pub open spec fn parse_capability_spec(s: Seq<char>) -> Option<Capability> {
    if s == "terminal"@ {
        Some(Capability::Terminal)
    } else if s == "file_system"@ {
        Some(Capability::FileSystem)
    } else if s == "notifications"@ {
        Some(Capability::Notifications)
    } else if s == "voice"@ {
        Some(Capability::Voice)
    } else {
        None
    }
}

impl Capability {
    /// The text form of the capability.
    pub fn as_str(&self) -> (r: &'static str)
        ensures
            r@ == capability_name(*self),
    {
        match self {
            Capability::Terminal => "terminal",
            Capability::FileSystem => "file_system",
            Capability::Notifications => "notifications",
            Capability::Voice => "voice",
        }
    }
}

/// Reads one stored capability text.
pub fn parse_capability(s: &str) -> (r: Option<Capability>)
    ensures
        r == parse_capability_spec(s@),
{
    if str_eq(s, "terminal") {
        Some(Capability::Terminal)
    } else if str_eq(s, "file_system") {
        Some(Capability::FileSystem)
    } else if str_eq(s, "notifications") {
        Some(Capability::Notifications)
    } else if str_eq(s, "voice") {
        Some(Capability::Voice)
    } else {
        None
    }
}

/// The text forms of capabilities hold no comma and read back as the capability.
pub proof fn lemma_capability_name(c: Capability)
    ensures
        parse_capability_spec(capability_name(c)) == Some(c),
        !crate::text::has_char(capability_name(c), ','),
{
    reveal_strlit("terminal");
    reveal_strlit("file_system");
    reveal_strlit("notifications");
    reveal_strlit("voice");
    assert("terminal"@.len() == 8);
    assert("file_system"@.len() == 11);
    assert("notifications"@.len() == 13);
    assert("voice"@.len() == 5);
}


/// The stored text of a capability list: the names joined by commas.
pub open spec fn capabilities_text(caps: Seq<Capability>) -> Seq<char>
    decreases caps.len(),
{
    if caps.len() == 0 {
        Seq::empty()
    } else if caps.len() == 1 {
        capability_name(caps[0])
    } else {
        capabilities_text(caps.drop_last()) + seq![','] + capability_name(caps.last())
    }
}

/// The pieces of `s` between commas, in order (one piece when `s` holds no comma).
pub open spec fn split_commas(s: Seq<char>) -> Seq<Seq<char>>
    decreases s.len(),
{
    if s.len() == 0 {
        seq![Seq::empty()]
    } else {
        let r = split_commas(s.drop_last());
        if s.last() == ',' {
            r.push(Seq::empty())
        } else {
            r.update(r.len() - 1, r.last().push(s.last()))
        }
    }
}

/// The capabilities named by the pieces, in order; pieces that name none are skipped.
pub open spec fn capabilities_of_pieces(pieces: Seq<Seq<char>>) -> Seq<Capability>
    decreases pieces.len(),
{
    if pieces.len() == 0 {
        Seq::empty()
    } else {
        let rest = capabilities_of_pieces(pieces.drop_last());
        match parse_capability_spec(pieces.last()) {
            Some(c) => rest.push(c),
            None => rest,
        }
    }
}

/// The capability list that a stored text denotes.
pub open spec fn parse_capabilities_spec(s: Seq<char>) -> Seq<Capability> {
    capabilities_of_pieces(split_commas(s))
}

proof fn lemma_split_nonempty(s: Seq<char>)
    ensures
        split_commas(s).len() >= 1,
    decreases s.len(),
{
    if s.len() > 0 {
        lemma_split_nonempty(s.drop_last());
    }
}

proof fn lemma_split_append_plain(a: Seq<char>, b: Seq<char>)
    requires
        !crate::text::has_char(b, ','),
    ensures
        split_commas(a + b) == split_commas(a).update(
            split_commas(a).len() - 1,
            split_commas(a).last() + b,
        ),
    decreases b.len(),
{
    lemma_split_nonempty(a);
    if b.len() == 0 {
        assert(a + b =~= a);
        assert(split_commas(a).last() + b =~= split_commas(a).last());
        assert(split_commas(a).update(split_commas(a).len() - 1, split_commas(a).last())
            =~= split_commas(a));
    } else {
        let b0 = b.drop_last();
        assert(!crate::text::has_char(b0, ',')) by {
            if crate::text::has_char(b0, ',') {
                let i = choose|i: int| 0 <= i < b0.len() && b0[i] == ',';
                assert(b[i] == ',');
            }
        }
        lemma_split_append_plain(a, b0);
        assert((a + b).drop_last() =~= a + b0);
        assert((a + b).last() == b.last());
        assert(b.last() != ',') by {
            assert(b[b.len() - 1] == b.last());
        }
        lemma_split_nonempty(a + b0);
        assert(split_commas(a).last() + b =~= (split_commas(a).last() + b0).push(b.last()));
        assert(split_commas(a + b) =~= split_commas(a).update(
            split_commas(a).len() - 1,
            split_commas(a).last() + b,
        ));
    }
}

proof fn lemma_split_after_comma(a: Seq<char>, b: Seq<char>)
    requires
        !crate::text::has_char(b, ','),
    ensures
        split_commas(a + seq![','] + b) == split_commas(a).push(b),
{
    let ac = a + seq![','];
    assert(ac.drop_last() =~= a);
    assert(ac.last() == ',');
    assert(split_commas(ac) == split_commas(a).push(Seq::empty()));
    lemma_split_append_plain(ac, b);
    assert(Seq::<char>::empty() + b =~= b);
    assert(split_commas(ac).update(split_commas(ac).len() - 1, split_commas(ac).last() + b)
        =~= split_commas(a).push(b));
}

proof fn lemma_split_of_text(caps: Seq<Capability>)
    requires
        caps.len() > 0,
    ensures
        split_commas(capabilities_text(caps)) == caps.map_values(|c: Capability| capability_name(c)),
    decreases caps.len(),
{
    if caps.len() == 1 {
        lemma_capability_name(caps[0]);
        lemma_split_append_plain(Seq::empty(), capability_name(caps[0]));
        assert(Seq::<char>::empty() + capability_name(caps[0]) =~= capability_name(caps[0]));
        assert(split_commas(Seq::<char>::empty()) == seq![Seq::<char>::empty()]);
        assert(caps.map_values(|c: Capability| capability_name(c)) =~= seq![capability_name(caps[0])]);
        assert(seq![Seq::<char>::empty()].update(0, Seq::<char>::empty() + capability_name(caps[0]))
            =~= seq![capability_name(caps[0])]);
    } else {
        lemma_split_of_text(caps.drop_last());
        lemma_capability_name(caps.last());
        lemma_split_after_comma(capabilities_text(caps.drop_last()), capability_name(caps.last()));
        assert(caps.map_values(|c: Capability| capability_name(c)) =~= caps.drop_last().map_values(
            |c: Capability| capability_name(c),
        ).push(capability_name(caps.last())));
    }
}

proof fn lemma_pieces_of_names(caps: Seq<Capability>)
    ensures
        capabilities_of_pieces(caps.map_values(|c: Capability| capability_name(c))) == caps,
    decreases caps.len(),
{
    let names = caps.map_values(|c: Capability| capability_name(c));
    if caps.len() > 0 {
        lemma_pieces_of_names(caps.drop_last());
        lemma_capability_name(caps.last());
        assert(names.drop_last() =~= caps.drop_last().map_values(|c: Capability| capability_name(c)));
        assert(names.last() == capability_name(caps.last()));
        assert(caps.drop_last().push(caps.last()) =~= caps);
    } else {
        assert(names.len() == 0);
        assert(caps =~= Seq::<Capability>::empty());
    }
}

/// Reading back the stored text of a capability list gives the list itself.
pub proof fn lemma_capabilities_roundtrip(caps: Seq<Capability>)
    ensures
        parse_capabilities_spec(capabilities_text(caps)) == caps,
{
    if caps.len() == 0 {
        assert(split_commas(Seq::<char>::empty()) == seq![Seq::<char>::empty()]);
        reveal_strlit("terminal");
        reveal_strlit("file_system");
        reveal_strlit("notifications");
        reveal_strlit("voice");
        assert("terminal"@.len() == 8);
        assert("file_system"@.len() == 11);
        assert("notifications"@.len() == 13);
        assert("voice"@.len() == 5);
        let pieces = seq![Seq::<char>::empty()];
        assert(pieces.drop_last() =~= Seq::<Seq<char>>::empty());
        assert(capabilities_of_pieces(pieces.drop_last()) =~= Seq::<Capability>::empty());
        assert(parse_capability_spec(pieces.last()) == None::<Capability>);
        assert(capabilities_of_pieces(pieces) =~= caps);
    } else {
        lemma_split_of_text(caps);
        lemma_pieces_of_names(caps);
    }
}

/// The stored text of a capability list.
pub fn capabilities_to_text(caps: &Vec<Capability>) -> (r: String)
    ensures
        r@ == capabilities_text(caps@),
{
    let mut r = String::new();
    let n = caps.len();
    let mut i: usize = 0;
    while i < n
        invariant
            n == caps@.len(),
            i <= n,
            r@ == capabilities_text(caps@.take(i as int)),
        decreases n - i,
    {
        let name = caps[i].as_str();
        assert(caps@.take(i as int + 1).drop_last() =~= caps@.take(i as int));
        if i == 0 {
            r = crate::text::owned(name);
        } else {
            r.push(',');
            r = crate::text::concat(r.as_str(), name);
        }
        i = i + 1;
    }
    assert(caps@.take(n as int) =~= caps@);
    r
}

/// Reads a stored capability list: the comma-separated names, skipping unknown ones.
pub fn parse_capabilities(s: &str) -> (r: Vec<Capability>)
    ensures
        r@ == parse_capabilities_spec(s@),
{
    let n = s.unicode_len();
    let mut done: Vec<Capability> = Vec::new();
    let mut cur = String::new();
    let mut i: usize = 0;
    assert(s@.take(0) =~= Seq::<char>::empty());
    while i < n
        invariant
            n == s@.len(),
            i <= n,
            split_commas(s@.take(i as int)).len() >= 1,
            cur@ == split_commas(s@.take(i as int)).last(),
            done@ == capabilities_of_pieces(split_commas(s@.take(i as int)).drop_last()),
        decreases n - i,
    {
        let c = s.get_char(i);
        let ghost pre = s@.take(i as int);
        let ghost post = s@.take(i as int + 1);
        assert(post.drop_last() =~= pre);
        assert(post.last() == c);
        if c == ',' {
            let piece = parse_capability(cur.as_str());
            assert(split_commas(post) == split_commas(pre).push(Seq::empty()));
            assert(split_commas(post).drop_last() =~= split_commas(pre));
            assert(split_commas(pre).drop_last().push(split_commas(pre).last()) =~= split_commas(pre));
            match piece {
                Some(cap) => done.push(cap),
                None => {},
            }
            cur = String::new();
        } else {
            cur.push(c);
            assert(split_commas(post).drop_last() =~= split_commas(pre).drop_last());
        }
        i = i + 1;
    }
    assert(s@.take(n as int) =~= s@);
    let last = parse_capability(cur.as_str());
    let ghost pieces = split_commas(s@);
    assert(pieces.drop_last().push(pieces.last()) =~= pieces);
    match last {
        Some(cap) => done.push(cap),
        None => {},
    }
    done
}


/// Runtime details of a session.
#[derive(Debug, Clone)]
pub struct SessionMetadata {
    pub cwd: String,
    /// Environment variables of the session, as (name, value) pairs.
    pub env: Vec<(String, String)>,
    pub claude_version: Option<String>,
    pub shell: String,
}

/// The mathematical value of session metadata.
pub struct SessionMetadataView {
    pub cwd: Seq<char>,
    pub env: Seq<(Seq<char>, Seq<char>)>,
    pub claude_version: Option<Seq<char>>,
    pub shell: Seq<char>,
}

/// The view of a list of (name, value) string pairs.
pub open spec fn pairs_view(v: Seq<(String, String)>) -> Seq<(Seq<char>, Seq<char>)> {
    v.map_values(|p: (String, String)| (p.0@, p.1@))
}

/// The view of an optional string.
pub open spec fn opt_str_view(o: Option<String>) -> Option<Seq<char>> {
    match o {
        Some(s) => Some(s@),
        None => None,
    }
}

/// The view of optional bytes.
pub open spec fn opt_bytes_view(o: Option<Vec<u8>>) -> Option<Seq<u8>> {
    match o {
        Some(s) => Some(s@),
        None => None,
    }
}

impl View for SessionMetadata {
    type V = SessionMetadataView;

    open spec fn view(&self) -> SessionMetadataView {
        SessionMetadataView {
            cwd: self.cwd@,
            env: pairs_view(self.env@),
            claude_version: opt_str_view(self.claude_version),
            shell: self.shell@,
        }
    }
}

/// A terminal session that a CLI daemon runs on a machine.
#[derive(Debug, Clone)]
pub struct Session {
    pub id: String,
    pub tag: String,
    pub user_id: String,
    pub machine_id: String,
    pub machine_name: String,
    pub status: SessionStatus,
    pub encrypted_data_key: Option<Vec<u8>>,
    /// Creation time, in milliseconds since the Unix epoch.
    pub created_at: i64,
    /// Time of the last activity, in milliseconds since the Unix epoch.
    pub last_activity: i64,
    pub metadata: SessionMetadata,
}

/// The mathematical value of a session.
pub struct SessionView {
    pub id: Seq<char>,
    pub tag: Seq<char>,
    pub user_id: Seq<char>,
    pub machine_id: Seq<char>,
    pub machine_name: Seq<char>,
    pub status: SessionStatus,
    pub encrypted_data_key: Option<Seq<u8>>,
    pub created_at: i64,
    pub last_activity: i64,
    pub metadata: SessionMetadataView,
}

impl View for Session {
    type V = SessionView;

    open spec fn view(&self) -> SessionView {
        SessionView {
            id: self.id@,
            tag: self.tag@,
            user_id: self.user_id@,
            machine_id: self.machine_id@,
            machine_name: self.machine_name@,
            status: self.status,
            encrypted_data_key: opt_bytes_view(self.encrypted_data_key),
            created_at: self.created_at,
            last_activity: self.last_activity,
            metadata: self.metadata@,
        }
    }
}

/// A copy of optional text.
pub fn copy_opt_string(o: &Option<String>) -> (r: Option<String>)
    ensures
        opt_str_view(r) == opt_str_view(*o),
{
    match o {
        Some(s) => Some(s.clone()),
        None => None,
    }
}

/// A copy of optional bytes.
pub fn copy_opt_bytes(o: &Option<Vec<u8>>) -> (r: Option<Vec<u8>>)
    ensures
        opt_bytes_view(r) == opt_bytes_view(*o),
{
    match o {
        Some(s) => {
            let mut v: Vec<u8> = Vec::new();
            let mut i: usize = 0;
            while i < s.len()
                invariant
                    i <= s@.len(),
                    v@ == s@.take(i as int),
                decreases s@.len() - i,
            {
                v.push(s[i]);
                assert(s@.take(i as int + 1) =~= s@.take(i as int).push(s@[i as int]));
                i = i + 1;
            }
            assert(s@.take(s@.len() as int) =~= s@);
            Some(v)
        },
        None => None,
    }
}

/// A copy of a list of string pairs.
pub fn copy_pairs(v: &Vec<(String, String)>) -> (r: Vec<(String, String)>)
    ensures
        pairs_view(r@) == pairs_view(v@),
{
    let mut r: Vec<(String, String)> = Vec::new();
    let mut i: usize = 0;
    while i < v.len()
        invariant
            i <= v@.len(),
            r@.len() == i,
            pairs_view(r@) == pairs_view(v@.take(i as int)),
        decreases v@.len() - i,
    {
        let k = v[i].0.clone();
        let x = v[i].1.clone();
        let ghost before = r@;
        r.push((k, x));
        assert(r@ == before.push((k, x)));
        assert(k@ == v@[i as int].0@ && x@ == v@[i as int].1@);
        assert forall|j: int| 0 <= j < i + 1 implies #[trigger] pairs_view(r@)[j] == pairs_view(
            v@.take(i as int + 1),
        )[j] by {
            if j < i {
                assert(pairs_view(before)[j] == pairs_view(v@.take(i as int))[j]);
                assert(before[j] == r@[j]);
                assert(v@.take(i as int)[j] == v@.take(i as int + 1)[j]);
            }
        }
        assert(pairs_view(r@) =~= pairs_view(v@.take(i as int + 1)));
        i = i + 1;
    }
    assert(v@.take(v@.len() as int) =~= v@);
    r
}

impl SessionMetadata {
    /// A copy of the metadata.
    pub fn copy(&self) -> (r: SessionMetadata)
        ensures
            r@ == self@,
    {
        SessionMetadata {
            cwd: self.cwd.clone(),
            env: copy_pairs(&self.env),
            claude_version: copy_opt_string(&self.claude_version),
            shell: self.shell.clone(),
        }
    }
}

/// The metadata of a new session: working directory `/`, no environment, shell `/bin/bash`.
pub open spec fn default_metadata_view() -> SessionMetadataView {
    SessionMetadataView {
        cwd: "/"@,
        env: Seq::empty(),
        claude_version: None,
        shell: "/bin/bash"@,
    }
}

/// The view of a session that was just created.
pub open spec fn new_session_view(
    id: Seq<char>,
    tag: Seq<char>,
    user_id: Seq<char>,
    machine_id: Seq<char>,
    machine_name: Seq<char>,
    now: i64,
) -> SessionView {
    SessionView {
        id,
        tag,
        user_id,
        machine_id,
        machine_name,
        status: SessionStatus::Initializing,
        encrypted_data_key: None,
        created_at: now,
        last_activity: now,
        metadata: default_metadata_view(),
    }
}

impl Session {
    /// A new session in state `Initializing`, created and last active at `now`.
    pub fn new(
        id: String,
        tag: String,
        user_id: String,
        machine_id: String,
        machine_name: String,
        now: i64,
    ) -> (r: Session)
        ensures
            r@ == new_session_view(id@, tag@, user_id@, machine_id@, machine_name@, now),
    {
        let env: Vec<(String, String)> = Vec::new();
        let r = Session {
            id,
            tag,
            user_id,
            machine_id,
            machine_name,
            status: SessionStatus::Initializing,
            encrypted_data_key: None,
            created_at: now,
            last_activity: now,
            metadata: SessionMetadata {
                cwd: crate::text::owned("/"),
                env,
                claude_version: None,
                shell: crate::text::owned("/bin/bash"),
            },
        };
        assert(pairs_view(r.metadata.env@) =~= Seq::empty());
        r
    }

    /// A copy of the session.
    pub fn copy(&self) -> (r: Session)
        ensures
            r@ == self@,
    {
        Session {
            id: self.id.clone(),
            tag: self.tag.clone(),
            user_id: self.user_id.clone(),
            machine_id: self.machine_id.clone(),
            machine_name: self.machine_name.clone(),
            status: self.status,
            encrypted_data_key: copy_opt_bytes(&self.encrypted_data_key),
            created_at: self.created_at,
            last_activity: self.last_activity,
            metadata: self.metadata.copy(),
        }
    }
}

/// A machine that runs a CLI daemon.
#[derive(Debug, Clone)]
pub struct Machine {
    pub id: String,
    pub user_id: String,
    pub name: String,
    pub public_key: Vec<u8>,
    pub platform: Platform,
    /// Time the machine was last seen, in milliseconds since the Unix epoch.
    pub last_seen: i64,
    pub capabilities: Vec<Capability>,
    pub ip_address: Option<String>,
    pub hostname: Option<String>,
}

/// The mathematical value of a machine.
pub struct MachineView {
    pub id: Seq<char>,
    pub user_id: Seq<char>,
    pub name: Seq<char>,
    pub public_key: Seq<u8>,
    pub platform: Platform,
    pub last_seen: i64,
    pub capabilities: Seq<Capability>,
    pub ip_address: Option<Seq<char>>,
    pub hostname: Option<Seq<char>>,
}

impl View for Machine {
    type V = MachineView;

    open spec fn view(&self) -> MachineView {
        MachineView {
            id: self.id@,
            user_id: self.user_id@,
            name: self.name@,
            public_key: self.public_key@,
            platform: self.platform,
            last_seen: self.last_seen,
            capabilities: self.capabilities@,
            ip_address: opt_str_view(self.ip_address),
            hostname: opt_str_view(self.hostname),
        }
    }
}

/// The capabilities of a newly registered machine: terminal and file system.
pub open spec fn default_capabilities() -> Seq<Capability> {
    seq![Capability::Terminal, Capability::FileSystem]
}

impl Machine {
    /// A new machine, last seen at `now`, with the default capabilities.
    pub fn new(
        id: String,
        user_id: String,
        name: String,
        public_key: Vec<u8>,
        platform: Platform,
        now: i64,
    ) -> (r: Machine)
        ensures
            r@ == (MachineView {
                id: id@,
                user_id: user_id@,
                name: name@,
                public_key: public_key@,
                platform,
                last_seen: now,
                capabilities: default_capabilities(),
                ip_address: None,
                hostname: None,
            }),
    {
        let mut capabilities: Vec<Capability> = Vec::new();
        capabilities.push(Capability::Terminal);
        capabilities.push(Capability::FileSystem);
        assert(capabilities@ =~= default_capabilities());
        Machine {
            id,
            user_id,
            name,
            public_key,
            platform,
            last_seen: now,
            capabilities,
            ip_address: None,
            hostname: None,
        }
    }
}

/// What clients are told about a machine.
#[derive(Debug, Clone)]
pub struct MachineInfo {
    pub id: String,
    pub name: String,
    pub platform: Platform,
    /// Time the machine was last seen, in milliseconds since the Unix epoch.
    pub last_seen: i64,
    pub is_online: bool,
    pub capabilities: Vec<Capability>,
}

/// The mathematical value of machine information.
pub struct MachineInfoView {
    pub id: Seq<char>,
    pub name: Seq<char>,
    pub platform: Platform,
    pub last_seen: i64,
    pub is_online: bool,
    pub capabilities: Seq<Capability>,
}

impl View for MachineInfo {
    type V = MachineInfoView;

    open spec fn view(&self) -> MachineInfoView {
        MachineInfoView {
            id: self.id@,
            name: self.name@,
            platform: self.platform,
            last_seen: self.last_seen,
            is_online: self.is_online,
            capabilities: self.capabilities@,
        }
    }
}

/// The information on machine `m` with the given online flag.
pub open spec fn machine_info_of(m: MachineView, is_online: bool) -> MachineInfoView {
    MachineInfoView {
        id: m.id,
        name: m.name,
        platform: m.platform,
        last_seen: m.last_seen,
        is_online,
        capabilities: m.capabilities,
    }
}


/// Whether a character is a lower-case hexadecimal digit.
pub open spec fn is_lower_hex(c: char) -> bool {
    ('0' <= c && c <= '9') || ('a' <= c && c <= 'f')
}

/// The hyphenated lower-case text of a version 4 UUID: 36 characters, hyphens at
/// 8, 13, 18 and 23, hexadecimal digits elsewhere, the version digit `4` at 14 and
/// one of `8`, `9`, `a`, `b` for the variant at 19.
pub open spec fn uuid_v4_text(s: Seq<char>) -> bool {
    &&& s.len() == 36
    &&& forall|i: int| 0 <= i < 36 ==> if i == 8 || i == 13 || i == 18 || i == 23 {
        #[trigger] s[i] == '-'
    } else {
        is_lower_hex(s[i])
    }
    &&& s[14] == '4'
    &&& (s[19] == '8' || s[19] == '9' || s[19] == 'a' || s[19] == 'b')
}

/// A fresh random identifier from `uuid::Uuid::new_v4`, in its hyphenated lower-case
/// text form: `new_v4` sets the version and variant bits of random bits, and the
/// `Display` form is hyphenated lower-case hexadecimal. The rest is random.
#[verifier::external_body]
pub(crate) fn new_uuid() -> (r: String)
    ensures
        uuid_v4_text(r@),
{
    uuid::Uuid::new_v4().to_string()
}

} // verus!

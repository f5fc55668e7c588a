//! Rows of the session and machine tables and their conversions.

use vstd::prelude::*;
use crate::model::{
    capabilities_text, copy_opt_string, opt_bytes_view, opt_str_view, pairs_view,
    parse_capabilities, parse_capabilities_spec, parse_platform, parse_platform_spec,
    parse_session_status, parse_session_status_spec, platform_name, lemma_capabilities_roundtrip,
    lemma_platform_roundtrip, capabilities_to_text, Machine, MachineView, Session, SessionMetadata,
    SessionMetadataView, SessionView,
};

verus! {

/// One row of the `sessions` table.
pub struct SessionRow {
    pub id: String,
    pub tag: String,
    pub user_id: String,
    pub machine_id: String,
    pub machine_name: String,
    pub status: String,
    pub encrypted_data_key: Option<Vec<u8>>,
    /// Milliseconds since the Unix epoch.
    pub created_at: i64,
    /// Milliseconds since the Unix epoch.
    pub last_activity: i64,
    pub cwd: String,
    /// The environment as a JSON object of strings.
    pub env: String,
    pub claude_version: Option<String>,
    pub shell: String,
}

/// One row of the `machines` table.
pub struct MachineRow {
    pub id: String,
    pub user_id: String,
    pub name: String,
    pub public_key: Vec<u8>,
    pub platform: String,
    /// Capability names joined by commas.
    pub capabilities: String,
    /// Milliseconds since the Unix epoch.
    pub last_seen: i64,
    pub hostname: Option<String>,
}

/// What `serde_json` reads from `text` as a JSON object whose values are strings:
/// its entries ordered by key, or `None` when the text is no such object.
pub uninterp spec fn json_string_map_entries(text: Seq<char>) -> Option<Seq<(Seq<char>, Seq<char>)>>;

/// Reads a JSON object of strings with `serde_json::from_str` into a `BTreeMap`
/// and lists its entries in key order; `None` where `serde_json` reports an error.
#[verifier::external_body]
fn parse_json_string_map(text: &str) -> (r: Option<Vec<(String, String)>>)
    ensures
        match r {
            Some(v) => json_string_map_entries(text@) == Some(pairs_view(v@)),
            None => json_string_map_entries(text@) is None,
        },
{
    serde_json::from_str::<std::collections::BTreeMap<String, String>>(text).ok().map(
        |m| m.into_iter().collect(),
    )
}

/// The environment pairs stored in a row's `env` text; none when it is no JSON object of strings.
pub open spec fn env_of_text(text: Seq<char>) -> Seq<(Seq<char>, Seq<char>)> {
    match json_string_map_entries(text) {
        Some(e) => e,
        None => Seq::empty(),
    }
}

/// The session that a row of the `sessions` table denotes.
pub open spec fn session_of_row(r: SessionRow) -> SessionView {
    SessionView {
        id: r.id@,
        tag: r.tag@,
        user_id: r.user_id@,
        machine_id: r.machine_id@,
        machine_name: r.machine_name@,
        status: parse_session_status_spec(r.status@),
        encrypted_data_key: opt_bytes_view(r.encrypted_data_key),
        created_at: r.created_at,
        last_activity: r.last_activity,
        metadata: SessionMetadataView {
            cwd: r.cwd@,
            env: env_of_text(r.env@),
            claude_version: opt_str_view(r.claude_version),
            shell: r.shell@,
        },
    }
}

/// The session that a row denotes: the status text is read as a status (unknown
/// texts as `Initializing`) and the environment as a JSON object (empty when unreadable).
pub fn session_from_row(r: SessionRow) -> (s: Session)
    ensures
        s@ == session_of_row(r),
{
    let ghost row = r;
    let status = parse_session_status(r.status.as_str());
    let env = match parse_json_string_map(r.env.as_str()) {
        Some(v) => v,
        None => {
            let v: Vec<(String, String)> = Vec::new();
            assert(pairs_view(v@) =~= Seq::empty());
            v
        },
    };
    Session {
        id: r.id,
        tag: r.tag,
        user_id: r.user_id,
        machine_id: r.machine_id,
        machine_name: r.machine_name,
        status,
        encrypted_data_key: r.encrypted_data_key,
        created_at: r.created_at,
        last_activity: r.last_activity,
        metadata: SessionMetadata {
            cwd: r.cwd,
            env,
            claude_version: r.claude_version,
            shell: r.shell,
        },
    }
}

/// The machine that a row of the `machines` table denotes.
pub open spec fn machine_of_row(r: MachineRow) -> MachineView {
    MachineView {
        id: r.id@,
        user_id: r.user_id@,
        name: r.name@,
        public_key: r.public_key@,
        platform: parse_platform_spec(r.platform@),
        last_seen: r.last_seen,
        capabilities: parse_capabilities_spec(r.capabilities@),
        ip_address: None,
        hostname: opt_str_view(r.hostname),
    }
}

/// The machine that a row denotes: the platform text is read as a platform
/// (unknown texts as `Linux`), the capability text as a list of capabilities.
pub fn machine_from_row(r: MachineRow) -> (m: Machine)
    ensures
        m@ == machine_of_row(r),
{
    let platform = parse_platform(r.platform.as_str());
    let capabilities = parse_capabilities(r.capabilities.as_str());
    Machine {
        id: r.id,
        user_id: r.user_id,
        name: r.name,
        public_key: r.public_key,
        platform,
        last_seen: r.last_seen,
        capabilities,
        ip_address: None,
        hostname: r.hostname,
    }
}

/// The row written for a new machine: its platform and capabilities as text.
pub fn machine_to_row(m: &Machine) -> (r: MachineRow)
    ensures
        r.id@ == m.id@,
        r.user_id@ == m.user_id@,
        r.name@ == m.name@,
        r.public_key@ == m.public_key@,
        r.platform@ == platform_name(m.platform),
        r.capabilities@ == capabilities_text(m.capabilities@),
        r.last_seen == m.last_seen,
        opt_str_view(r.hostname) == opt_str_view(m.hostname),
{
    let mut key: Vec<u8> = Vec::new();
    let mut i: usize = 0;
    while i < m.public_key.len()
        invariant
            i <= m.public_key@.len(),
            key@ == m.public_key@.take(i as int),
        decreases m.public_key@.len() - i,
    {
        key.push(m.public_key[i]);
        assert(m.public_key@.take(i as int + 1) =~= m.public_key@.take(i as int).push(m.public_key@[i as int]));
        i = i + 1;
    }
    assert(m.public_key@.take(m.public_key@.len() as int) =~= m.public_key@);
    MachineRow {
        id: m.id.clone(),
        user_id: m.user_id.clone(),
        name: m.name.clone(),
        public_key: key,
        platform: crate::text::owned(m.platform.as_str()),
        capabilities: capabilities_to_text(&m.capabilities),
        last_seen: m.last_seen,
        hostname: copy_opt_string(&m.hostname),
    }
}

/// A machine written as a row and read back is the same machine, but for its
/// address, which the table does not keep.
pub proof fn lemma_machine_row_roundtrip(m: Machine, r: MachineRow)
    requires
        r.id@ == m.id@,
        r.user_id@ == m.user_id@,
        r.name@ == m.name@,
        r.public_key@ == m.public_key@,
        r.platform@ == platform_name(m.platform),
        r.capabilities@ == capabilities_text(m.capabilities@),
        r.last_seen == m.last_seen,
        opt_str_view(r.hostname) == opt_str_view(m.hostname),
    ensures
        machine_of_row(r) == (MachineView { ip_address: None, ..m@ }),
{
    lemma_platform_roundtrip(m.platform);
    lemma_capabilities_roundtrip(m.capabilities@);
}

} // verus!

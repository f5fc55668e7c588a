//! The terminal page of the web client: the session list grouped by machine and
//! folder, the terminal buffers, the git panel and the reaction to server messages.

use vstd::prelude::*;
use crate::text::{str_eq, concat, owned, starts_with, has_prefix, trim, trim_spec, decode_lossy, utf8_lossy};
use crate::keyed::KeyedList;
use crate::model::{opt_str_view, copy_opt_string};
use crate::dashboard::text_views;
use crate::json::{Json, JsonView, get_field, field_of, json_text, json_number, json_flag, json_list, json_read, json_views,
    texts_in, numbers_in, field, text_field, number_field, flag_field, list_field, texts_in_list, numbers_in_list, parse_json};
use vstd::utf8::encode_utf8;
use crate::order::{SortKey, SortKeyView, stable_order, is_stable_order, text_lt, key_lt, goes_before, lemma_goes_before_key};

verus! {

/// `s` without the trailing characters `c`, as `trim_end_matches(c)` leaves it.
pub open spec fn strip_trailing(s: Seq<char>, c: char) -> Seq<char>
    decreases s.len(),
{
    if s.len() > 0 && s.last() == c {
        strip_trailing(s.drop_last(), c)
    } else {
        s
    }
}

/// The part of `s` after its last `c` (all of `s` when there is none), as
/// `rsplit(c).next()` gives it.
pub open spec fn after_last(s: Seq<char>, c: char) -> Seq<char>
    decreases s.len(),
{
    if s.len() == 0 {
        s
    } else if s.last() == c {
        Seq::empty()
    } else {
        after_last(s.drop_last(), c).push(s.last())
    }
}

/// The folder shown for a working directory: `root` for an empty directory or
/// `/`, else its last path component, trailing slashes ignored.
pub open spec fn folder_of(cwd: Seq<char>) -> Seq<char> {
    if cwd.len() == 0 || cwd == "/"@ {
        "root"@
    } else {
        after_last(strip_trailing(cwd, '/'), '/')
    }
}

fn strip_trailing_exec(s: &str, c: char) -> (r: usize)
    ensures
        r <= s@.len(),
        s@.take(r as int) == strip_trailing(s@, c),
{
    let mut end = s.unicode_len();
    assert(s@.take(end as int) =~= s@);
    while end > 0 && s.get_char(end - 1) == c
        invariant
            end <= s@.len(),
            strip_trailing(s@, c) == strip_trailing(s@.take(end as int), c),
        decreases end,
    {
        assert(s@.take(end as int).drop_last() =~= s@.take(end as int - 1));
        end = end - 1;
    }
    end
}

fn after_last_exec(s: &str, end: usize, c: char) -> (r: usize)
    requires
        end <= s@.len(),
    ensures
        r <= end,
        s@.subrange(r as int, end as int) == after_last(s@.take(end as int), c),
{
    let mut start = end;
    assert(s@.subrange(end as int, end as int) =~= Seq::<char>::empty());
    while start > 0 && s.get_char(start - 1) != c
        invariant
            start <= end <= s@.len(),
            after_last(s@.take(end as int), c) == after_last(s@.take(start as int), c) + s@.subrange(start as int, end as int),
        decreases start,
    {
        assert(s@.take(start as int).drop_last() =~= s@.take(start as int - 1));
        assert(s@.subrange(start as int - 1, end as int) =~= seq![s@[start as int - 1]] + s@.subrange(start as int, end as int));
        assert(after_last(s@.take(start as int), c) == after_last(s@.take(start as int - 1), c).push(s@[start as int - 1]));
        assert(after_last(s@.take(start as int - 1), c).push(s@[start as int - 1]) + s@.subrange(start as int, end as int)
            =~= after_last(s@.take(start as int - 1), c) + s@.subrange(start as int - 1, end as int));
        start = start - 1;
    }
    if start == 0 {
        assert(s@.take(0) =~= Seq::<char>::empty());
    }
    assert(after_last(s@.take(start as int), c) =~= Seq::<char>::empty());
    assert(Seq::<char>::empty() + s@.subrange(start as int, end as int) =~= s@.subrange(start as int, end as int));
    start
}

/// The folder shown for a working directory.
pub fn folder_of_cwd(cwd: &str) -> (r: String)
    ensures
        r@ == folder_of(cwd@),
{
    if cwd.unicode_len() == 0 || str_eq(cwd, "/") {
        return owned("root");
    }
    let end = strip_trailing_exec(cwd, '/');
    let start = after_last_exec(cwd, end, '/');
    owned(cwd.substring_char(start, end))
}

/// `s` without a trailing `.local` (removed as often as it repeats).
pub open spec fn strip_local(s: Seq<char>) -> Seq<char>
    decreases s.len(),
{
    if s.len() >= 6 && s.subrange(s.len() - 6, s.len() as int) == ".local"@ {
        strip_local(s.subrange(0, s.len() - 6))
    } else {
        s
    }
}

/// The machine name shown for a session: the reported name without its
/// `.local` suffix, or the first eight characters of the machine id.
pub open spec fn shown_machine_name(name: Option<Seq<char>>, machine_id: Seq<char>) -> Seq<char> {
    match name {
        Some(n) => strip_local(n),
        None => if machine_id.len() <= 8 { machine_id } else { machine_id.take(8) },
    }
}

fn strip_local_exec(s: &str) -> (r: String)
    ensures
        r@ == strip_local(s@),
{
    proof { reveal_strlit(".local"); }
    let mut end = s.unicode_len();
    assert(s@.subrange(0, end as int) =~= s@);
    while end >= 6 && str_eq(s.substring_char(end - 6, end), ".local")
        invariant
            end <= s@.len(),
            strip_local(s@) == strip_local(s@.subrange(0, end as int)),
        decreases end,
    {
        assert(s@.subrange(0, end as int).subrange(end - 6, end as int) =~= s@.subrange(end - 6, end as int));
        assert(s@.subrange(0, end as int).subrange(0, end - 6) =~= s@.subrange(0, end - 6));
        end = end - 6;
    }
    if end >= 6 {
        assert(s@.subrange(0, end as int).subrange(end - 6, end as int) =~= s@.subrange(end - 6, end as int));
    }
    owned(s.substring_char(0, end))
}

/// The first `n` characters of `s` (all of them when there are fewer).
pub fn first_chars(s: &str, n: usize) -> (r: String)
    ensures
        r@ == (if s@.len() <= n { s@ } else { s@.take(n as int) }),
{
    let len = s.unicode_len();
    if len <= n {
        owned(s)
    } else {
        let t = s.substring_char(0, n);
        assert(s@.subrange(0, n as int) =~= s@.take(n as int));
        owned(t)
    }
}

/// The machine name shown for a session.
pub fn machine_display_name(name: &Option<String>, machine_id: &str) -> (r: String)
    ensures
        r@ == shown_machine_name(crate::model::opt_str_view(*name), machine_id@),
{
    match name {
        Some(n) => strip_local_exec(n.as_str()),
        None => first_chars(machine_id, 8),
    }
}

/// A session as the terminal page lists it.
#[derive(Debug, Clone)]
pub struct SessionSummary {
    pub id: String,
    pub tag: String,
    pub status: String,
    pub cwd: String,
    pub machine_id: String,
    pub machine_name: String,
    pub is_online: bool,
}

/// The mathematical value of a listed session.
pub struct SessionSummaryView {
    pub id: Seq<char>,
    pub tag: Seq<char>,
    pub status: Seq<char>,
    pub cwd: Seq<char>,
    pub machine_id: Seq<char>,
    pub machine_name: Seq<char>,
    pub is_online: bool,
}

impl View for SessionSummary {
    type V = SessionSummaryView;

    open spec fn view(&self) -> SessionSummaryView {
        SessionSummaryView {
            id: self.id@,
            tag: self.tag@,
            status: self.status@,
            cwd: self.cwd@,
            machine_id: self.machine_id@,
            machine_name: self.machine_name@,
            is_online: self.is_online,
        }
    }
}

impl SessionSummary {
    /// The last folder name of the working directory, for display.
    pub fn folder_name(&self) -> (r: String)
        ensures
            r@ == folder_of(self.cwd@),
    {
        folder_of_cwd(self.cwd.as_str())
    }

    /// A copy of the listed session.
    pub fn copy(&self) -> (r: SessionSummary)
        ensures
            r@ == self@,
    {
        SessionSummary {
            id: self.id.clone(),
            tag: self.tag.clone(),
            status: self.status.clone(),
            cwd: self.cwd.clone(),
            machine_id: self.machine_id.clone(),
            machine_name: self.machine_name.clone(),
            is_online: self.is_online,
        }
    }
}

/// The views of a list of listed sessions.
pub open spec fn summary_views(v: Seq<SessionSummary>) -> Seq<SessionSummaryView> {
    v.map_values(|s: SessionSummary| s@)
}

/// The fields of a session object of a server message, each present only when
/// it is a text; `cwd` is the `cwd` of its `metadata`.
pub struct SessionFields {
    pub id: Option<String>,
    pub tag: Option<String>,
    pub status: Option<String>,
    pub machine_id: Option<String>,
    pub machine_name: Option<String>,
    pub cwd: Option<String>,
}

/// The listed session read from a session object: present when the id, tag and
/// status are; the machine id defaults to `unknown`, the directory to `/`, and
/// the machine is taken as offline until the machine list says otherwise.
pub open spec fn summary_of_fields(f: SessionFields) -> Option<SessionSummaryView> {
    if f.id is Some && f.tag is Some && f.status is Some {
        let machine_id = match f.machine_id {
            Some(m) => m@,
            None => "unknown"@,
        };
        Some(SessionSummaryView {
            id: f.id->0@,
            tag: f.tag->0@,
            status: f.status->0@,
            cwd: match f.cwd {
                Some(c) => c@,
                None => "/"@,
            },
            machine_id,
            machine_name: shown_machine_name(crate::model::opt_str_view(f.machine_name), machine_id),
            is_online: false,
        })
    } else {
        None
    }
}

/// Reads a listed session from a session object.
pub fn summary_from_fields(f: &SessionFields) -> (r: Option<SessionSummary>)
    ensures
        match r {
            Some(s) => summary_of_fields(*f) == Some(s@),
            None => summary_of_fields(*f) is None,
        },
{
    match (&f.id, &f.tag, &f.status) {
        (Some(id), Some(tag), Some(status)) => {
            let machine_id = match &f.machine_id {
                Some(m) => m.clone(),
                None => owned("unknown"),
            };
            let machine_name = machine_display_name(&f.machine_name, machine_id.as_str());
            let cwd = match &f.cwd {
                Some(c) => c.clone(),
                None => owned("/"),
            };
            Some(SessionSummary {
                id: id.clone(),
                tag: tag.clone(),
                status: status.clone(),
                cwd,
                machine_id,
                machine_name,
                is_online: false,
            })
        },
        _ => None,
    }
}

/// The index in `s` of the first newline, or the length of `s` when there is none.
pub open spec fn newline_at(s: Seq<char>) -> nat
    decreases s.len(),
{
    if s.len() == 0 {
        0
    } else if s[0] == '\n' {
        0
    } else {
        1 + newline_at(s.drop_first())
    }
}

/// A line without one trailing carriage return.
pub open spec fn without_cr(line: Seq<char>) -> Seq<char> {
    if line.len() > 0 && line.last() == '\r' { line.drop_last() } else { line }
}

/// The lines of a text as `str::lines` gives them: split at each `\n`, a `\r`
/// before it dropped, and no empty line after a final `\n`.
pub open spec fn lines_of(s: Seq<char>) -> Seq<Seq<char>>
    decreases s.len(),
{
    if s.len() == 0 {
        Seq::empty()
    } else {
        let i = newline_at(s);
        if i >= s.len() {
            seq![s]
        } else {
            seq![without_cr(s.take(i as int))] + lines_of(s.skip(i as int + 1))
        }
    }
}

proof fn lemma_newline_at(s: Seq<char>, n: int)
    requires
        0 <= n <= s.len(),
        forall|k: int| 0 <= k < n ==> s[k] != '\n',
        n == s.len() || s[n] == '\n',
    ensures
        newline_at(s) == n,
    decreases n,
{
    if n > 0 {
        let t = s.drop_first();
        assert forall|k: int| 0 <= k < n - 1 implies t[k] != '\n' by {
            assert(t[k] == s[k + 1]);
        }
        if n < s.len() {
            assert(t[n - 1] == s[n]);
        }
        lemma_newline_at(t, n - 1);
    }
}

/// The lines of a text, as `str::lines` gives them.
pub fn lines(text: &str) -> (r: Vec<String>)
    ensures
        r@.map_values(|l: String| l@) == lines_of(text@),
{
    let n = text.unicode_len();
    let mut out: Vec<String> = Vec::new();
    let mut start: usize = 0;
    assert(text@.skip(0) =~= text@);
    while start < n
        invariant
            n == text@.len(),
            start <= n,
            lines_of(text@) == out@.map_values(|l: String| l@) + lines_of(text@.skip(start as int)),
        decreases n - start,
    {
        let ghost rest = text@.skip(start as int);
        let mut j: usize = start;
        while j < n && text.get_char(j) != '\n'
            invariant
                n == text@.len(),
                start <= j <= n,
                rest == text@.skip(start as int),
                forall|k: int| start <= k < j ==> text@[k] != '\n',
            decreases n - j,
        {
            j = j + 1;
        }
        proof {
            assert forall|k: int| 0 <= k < j - start implies rest[k] != '\n' by {
                assert(rest[k] == text@[start + k]);
            }
            if j < n {
                assert(rest[j - start] == text@[j as int]);
            }
            lemma_newline_at(rest, j - start);
        }
        let mut line = owned(text.substring_char(start, j));
        assert(line@ == rest.take(j - start));
        let ghost prev = out@.map_values(|l: String| l@);
        if j < n {
            let len = line.as_str().unicode_len();
            if len > 0 && line.as_str().get_char(len - 1) == '\r' {
                line = owned(line.as_str().substring_char(0, len - 1));
                assert(line@ =~= rest.take(j - start).drop_last());
            }
            out.push(line);
            assert(rest.skip(j - start + 1) =~= text@.skip(j as int + 1));
            assert(out@.map_values(|l: String| l@) =~= prev.push(without_cr(rest.take(j - start))));
            assert(prev.push(without_cr(rest.take(j - start))) + lines_of(text@.skip(j as int + 1)) =~=
                prev + (seq![without_cr(rest.take(j - start))] + lines_of(text@.skip(j as int + 1))));
            start = j + 1;
        } else {
            assert(rest.take(j - start) =~= rest);
            out.push(line);
            assert(out@.map_values(|l: String| l@) =~= prev + seq![rest]);
            assert(text@.skip(n as int) =~= Seq::<char>::empty());
            assert(lines_of(text@.skip(n as int)) =~= Seq::<Seq<char>>::empty());
            assert(prev + seq![rest] =~= prev + seq![rest] + Seq::<Seq<char>>::empty());
            start = n;
        }
    }
    assert(text@.skip(n as int) =~= Seq::<char>::empty());
    assert(out@.map_values(|l: String| l@) + Seq::<Seq<char>>::empty() =~= out@.map_values(|l: String| l@));
    out
}

/// One line of a diff, classified for display.
#[derive(Debug, Clone)]
pub enum DiffLine {
    /// `diff --git`, `index`, `---` and `+++` lines.
    Header(String),
    /// `@@ -a,b +c,d @@`.
    ChunkHeader(String),
    /// An unchanged line, without its leading space; other lines as they are.
    Context(String),
    /// An added line, without its `+`.
    Addition(String),
    /// A removed line, without its `-`.
    Deletion(String),
    Empty,
}

/// The mathematical value of a diff line.
pub enum DiffLineView {
    Header(Seq<char>),
    ChunkHeader(Seq<char>),
    Context(Seq<char>),
    Addition(Seq<char>),
    Deletion(Seq<char>),
    Empty,
}

impl View for DiffLine {
    type V = DiffLineView;

    open spec fn view(&self) -> DiffLineView {
        match self {
            DiffLine::Header(s) => DiffLineView::Header(s@),
            DiffLine::ChunkHeader(s) => DiffLineView::ChunkHeader(s@),
            DiffLine::Context(s) => DiffLineView::Context(s@),
            DiffLine::Addition(s) => DiffLineView::Addition(s@),
            DiffLine::Deletion(s) => DiffLineView::Deletion(s@),
            DiffLine::Empty => DiffLineView::Empty,
        }
    }
}

/// How a line of a diff is classified.
pub open spec fn classify_line(l: Seq<char>) -> DiffLineView {
    if has_prefix(l, "diff --git"@) || has_prefix(l, "index "@) || has_prefix(l, "--- "@) || has_prefix(l, "+++ "@) {
        DiffLineView::Header(l)
    } else if has_prefix(l, "@@"@) {
        DiffLineView::ChunkHeader(l)
    } else if l.len() > 0 && l[0] == '+' {
        DiffLineView::Addition(l.skip(1))
    } else if l.len() > 0 && l[0] == '-' {
        DiffLineView::Deletion(l.skip(1))
    } else if l.len() > 0 && l[0] == ' ' {
        DiffLineView::Context(l.skip(1))
    } else if l.len() == 0 {
        DiffLineView::Empty
    } else {
        DiffLineView::Context(l)
    }
}

fn classify(l: &str) -> (r: DiffLine)
    ensures
        r@ == classify_line(l@),
{
    let n = l.unicode_len();
    if starts_with(l, "diff --git") || starts_with(l, "index ") || starts_with(l, "--- ") || starts_with(l, "+++ ") {
        DiffLine::Header(owned(l))
    } else if starts_with(l, "@@") {
        DiffLine::ChunkHeader(owned(l))
    } else if n > 0 && l.get_char(0) == '+' {
        let t = owned(l.substring_char(1, n));
        assert(t@ =~= l@.skip(1));
        DiffLine::Addition(t)
    } else if n > 0 && l.get_char(0) == '-' {
        let t = owned(l.substring_char(1, n));
        assert(t@ =~= l@.skip(1));
        DiffLine::Deletion(t)
    } else if n > 0 && l.get_char(0) == ' ' {
        let t = owned(l.substring_char(1, n));
        assert(t@ =~= l@.skip(1));
        DiffLine::Context(t)
    } else if n == 0 {
        DiffLine::Empty
    } else {
        DiffLine::Context(owned(l))
    }
}

/// A diff text as classified lines, one per line of the text.
pub fn parse_diff(diff_text: &str) -> (r: Vec<DiffLine>)
    ensures
        r@.map_values(|d: DiffLine| d@) == lines_of(diff_text@).map_values(|l: Seq<char>| classify_line(l)),
{
    let ls = lines(diff_text);
    let ghost lv = ls@.map_values(|l: String| l@);
    let mut out: Vec<DiffLine> = Vec::new();
    let mut i: usize = 0;
    while i < ls.len()
        invariant
            i <= ls@.len(),
            lv == ls@.map_values(|l: String| l@),
            out@.map_values(|d: DiffLine| d@) == lv.take(i as int).map_values(|l: Seq<char>| classify_line(l)),
        decreases ls@.len() - i,
    {
        let d = classify(ls[i].as_str());
        let ghost prev = out@.map_values(|d: DiffLine| d@);
        let ghost dv = d@;
        out.push(d);
        assert(out@.map_values(|d: DiffLine| d@) =~= prev.push(dv));
        assert(lv.take(i as int + 1).map_values(|l: Seq<char>| classify_line(l)) =~=
            lv.take(i as int).map_values(|l: Seq<char>| classify_line(l)).push(classify_line(lv[i as int])));
        i = i + 1;
    }
    assert(lv.take(i as int) =~= lv);
    out
}


/// A machine as the terminal page lists it.
#[derive(Debug, Clone)]
pub struct MachineInfo {
    pub id: String,
    pub name: String,
}

/// The fields of a machine object of the machine list, each present only when
/// it has the expected type.
pub struct MachineFields {
    pub id: Option<String>,
    pub name: Option<String>,
    pub is_online: Option<bool>,
}

/// Which half of the page a small screen shows.
#[derive(Debug, Clone, Copy, PartialEq, Eq, Structural)]
pub enum MobileView {
    SessionList,
    Terminal,
}

/// A file that the git panel lists.
#[derive(Debug, Clone)]
pub struct ChangedFile {
    pub path: String,
    pub change_type: String,
    pub additions: u32,
    pub deletions: u32,
}

/// The fields of a file object of a git status, each present only when it has
/// the expected type.
pub struct FileFields {
    pub path: Option<String>,
    pub change_type: Option<String>,
    pub additions: Option<u64>,
    pub deletions: Option<u64>,
}

/// The git state of a session's working directory.
#[derive(Debug, Clone)]
pub struct GitStatusInfo {
    pub branch: String,
    pub ahead: u32,
    pub behind: u32,
    pub modified: Vec<ChangedFile>,
    pub staged: Vec<ChangedFile>,
    pub untracked: Vec<String>,
    pub conflicts: Vec<String>,
}

/// A message of the server, as the terminal page reads it.
pub enum PageNotice {
    /// `authenticated`.
    Authenticated,
    /// `sessions_list`, with its `sessions` when that is a list.
    SessionsList(Option<Vec<SessionFields>>),
    /// `session_updated` or `session_started`, with its `session` object.
    SessionUpdated(Option<SessionFields>),
    /// `session_stopped` or `session_deleted`, with its `session_id`.
    SessionRemoved(Option<String>),
    /// `terminal_history`, with the id and the numbers of its `data` that are unsigned integers.
    TerminalHistory { session_id: Option<String>, data: Option<Vec<u64>> },
    /// `terminal_output`, read like the history.
    TerminalOutput { session_id: Option<String>, data: Option<Vec<u64>> },
    /// `error`, with its `code`.
    Error { code: Option<String> },
    /// `git_status`; the lists hold the entries that have every expected field.
    GitStatus {
        session_id: Option<String>,
        branch: Option<String>,
        ahead: Option<u64>,
        behind: Option<u64>,
        modified: Vec<FileFields>,
        staged: Vec<FileFields>,
        untracked: Vec<String>,
        conflicts: Vec<String>,
    },
    /// `git_diff`.
    GitDiff { session_id: Option<String>, path: Option<String>, diff: Option<String> },
    /// `git_commit_result`.
    GitCommitResult { session_id: Option<String>, success: Option<bool> },
    /// `remote_session_response`, with the id and tag of its session.
    RemoteSessionResponse { success: Option<bool>, session_id: Option<String>, session_tag: Option<String> },
    /// `machine_list`, with its `machines` when that is a list.
    MachineList(Option<Vec<MachineFields>>),
    /// Any other message.
    Other,
}

/// The fields that the page reads from a session object.
pub open spec fn session_fields_read(v: JsonView, f: SessionFields) -> bool {
    &&& opt_str_view(f.id) == json_text(get_field(v, "id"@))
    &&& opt_str_view(f.tag) == json_text(get_field(v, "tag"@))
    &&& opt_str_view(f.status) == json_text(get_field(v, "status"@))
    &&& opt_str_view(f.machine_id) == json_text(get_field(v, "machine_id"@))
    &&& opt_str_view(f.machine_name) == json_text(get_field(v, "machine_name"@))
    &&& opt_str_view(f.cwd) == json_text(field_of(get_field(v, "metadata"@), "cwd"@))
}

/// The fields that the page reads from a machine object.
pub open spec fn machine_fields_read(v: JsonView, f: MachineFields) -> bool {
    &&& opt_str_view(f.id) == json_text(get_field(v, "id"@))
    &&& opt_str_view(f.name) == json_text(get_field(v, "name"@))
    &&& f.is_online == json_flag(get_field(v, "is_online"@))
}

/// The fields that the page reads from a file object of a git status.
pub open spec fn file_fields_read(v: JsonView, f: FileFields) -> bool {
    &&& opt_str_view(f.path) == json_text(get_field(v, "path"@))
    &&& opt_str_view(f.change_type) == json_text(get_field(v, "change_type"@))
    &&& f.additions == json_number(get_field(v, "additions"@))
    &&& f.deletions == json_number(get_field(v, "deletions"@))
}

/// The file objects of a list under `key`, read one each; none where it is no list.
pub open spec fn files_read(v: JsonView, key: Seq<char>, fs: Seq<FileFields>) -> bool {
    match json_list(get_field(v, key)) {
        Some(items) => fs.len() == items.len() && forall|i: int| 0 <= i < items.len() ==> file_fields_read(items[i], #[trigger] fs[i]),
        None => fs.len() == 0,
    }
}

/// The texts of a list under `key`; none where it is no list.
pub open spec fn list_texts(v: JsonView, key: Seq<char>) -> Seq<Seq<char>> {
    match json_list(get_field(v, key)) {
        Some(items) => texts_in(items),
        None => Seq::empty(),
    }
}

/// The numbers of the list under `data`, where it is a list.
pub open spec fn data_read(v: JsonView, data: Option<Vec<u64>>) -> bool {
    match json_list(get_field(v, "data"@)) {
        Some(items) => data matches Some(d) && d@ == numbers_in(items),
        None => data is None,
    }
}

/// The terminal page's reading of a message of the server, by its `type`.
pub open spec fn page_notice_read(v: JsonView, r: PageNotice) -> bool {
    match json_text(get_field(v, "type"@)) {
        None => r is Other,
        Some(t) => if t == "authenticated"@ {
            r is Authenticated
        } else if t == "sessions_list"@ {
            r matches PageNotice::SessionsList(o) && match json_list(get_field(v, "sessions"@)) {
                None => o is None,
                Some(items) => o matches Some(l) && l@.len() == items.len()
                    && forall|i: int| 0 <= i < items.len() ==> session_fields_read(items[i], #[trigger] l@[i]),
            }
        } else if t == "session_updated"@ || t == "session_started"@ {
            r matches PageNotice::SessionUpdated(o) && match get_field(v, "session"@) {
                None => o is None,
                Some(x) => o matches Some(f) && session_fields_read(x, f),
            }
        } else if t == "session_stopped"@ || t == "session_deleted"@ {
            r matches PageNotice::SessionRemoved(o) && opt_str_view(o) == json_text(get_field(v, "session_id"@))
        } else if t == "terminal_history"@ {
            r matches PageNotice::TerminalHistory { session_id, data }
                && opt_str_view(session_id) == json_text(get_field(v, "session_id"@)) && data_read(v, data)
        } else if t == "terminal_output"@ {
            r matches PageNotice::TerminalOutput { session_id, data }
                && opt_str_view(session_id) == json_text(get_field(v, "session_id"@)) && data_read(v, data)
        } else if t == "error"@ {
            r matches PageNotice::Error { code } && opt_str_view(code) == json_text(get_field(v, "code"@))
        } else if t == "git_status"@ {
            r matches PageNotice::GitStatus { session_id, branch, ahead, behind, modified, staged, untracked, conflicts }
                && opt_str_view(session_id) == json_text(get_field(v, "session_id"@))
                && opt_str_view(branch) == json_text(get_field(v, "branch"@))
                && ahead == json_number(get_field(v, "ahead"@))
                && behind == json_number(get_field(v, "behind"@))
                && files_read(v, "modified"@, modified@)
                && files_read(v, "staged"@, staged@)
                && text_views(untracked@) == list_texts(v, "untracked"@)
                && text_views(conflicts@) == list_texts(v, "conflicts"@)
        } else if t == "git_diff"@ {
            r matches PageNotice::GitDiff { session_id, path, diff }
                && opt_str_view(session_id) == json_text(get_field(v, "session_id"@))
                && opt_str_view(path) == json_text(get_field(v, "path"@))
                && opt_str_view(diff) == json_text(get_field(v, "diff"@))
        } else if t == "git_commit_result"@ {
            r matches PageNotice::GitCommitResult { session_id, success }
                && opt_str_view(session_id) == json_text(get_field(v, "session_id"@))
                && success == json_flag(get_field(v, "success"@))
        } else if t == "remote_session_response"@ {
            r matches PageNotice::RemoteSessionResponse { success, session_id, session_tag }
                && success == json_flag(get_field(v, "success"@))
                && opt_str_view(session_id) == json_text(field_of(get_field(v, "session"@), "id"@))
                && opt_str_view(session_tag) == json_text(field_of(get_field(v, "session"@), "tag"@))
        } else if t == "machine_list"@ {
            r matches PageNotice::MachineList(o) && match json_list(get_field(v, "machines"@)) {
                None => o is None,
                Some(items) => o matches Some(l) && l@.len() == items.len()
                    && forall|i: int| 0 <= i < items.len() ==> machine_fields_read(items[i], #[trigger] l@[i]),
            }
        } else {
            r is Other
        },
    }
}

/// The text under `inner` of the object under `outer`.
fn nested_text(v: &Json, outer: &str, inner: &str) -> (r: Option<String>)
    ensures
        opt_str_view(r) == json_text(field_of(get_field(v@, outer@), inner@)),
{
    match field(v, outer) {
        Some(x) => text_field(x, inner),
        None => None,
    }
}

/// Reads the fields of a session object.
pub fn session_fields_of(v: &Json) -> (r: SessionFields)
    ensures
        session_fields_read(v@, r),
{
    SessionFields {
        id: text_field(v, "id"),
        tag: text_field(v, "tag"),
        status: text_field(v, "status"),
        machine_id: text_field(v, "machine_id"),
        machine_name: text_field(v, "machine_name"),
        cwd: nested_text(v, "metadata", "cwd"),
    }
}

fn session_fields_list(items: &Vec<Json>) -> (r: Vec<SessionFields>)
    ensures
        r@.len() == items@.len(),
        forall|i: int| 0 <= i < items@.len() ==> session_fields_read(json_views(items@)[i], #[trigger] r@[i]),
{
    let mut r: Vec<SessionFields> = Vec::new();
    let mut i: usize = 0;
    while i < items.len()
        invariant
            i <= items@.len(),
            r@.len() == i,
            forall|k: int| 0 <= k < i ==> session_fields_read(json_views(items@)[k], #[trigger] r@[k]),
        decreases items@.len() - i,
    {
        r.push(session_fields_of(&items[i]));
        i = i + 1;
    }
    r
}

fn machine_fields_list(items: &Vec<Json>) -> (r: Vec<MachineFields>)
    ensures
        r@.len() == items@.len(),
        forall|i: int| 0 <= i < items@.len() ==> machine_fields_read(json_views(items@)[i], #[trigger] r@[i]),
{
    let mut r: Vec<MachineFields> = Vec::new();
    let mut i: usize = 0;
    while i < items.len()
        invariant
            i <= items@.len(),
            r@.len() == i,
            forall|k: int| 0 <= k < i ==> machine_fields_read(json_views(items@)[k], #[trigger] r@[k]),
        decreases items@.len() - i,
    {
        let m = &items[i];
        r.push(MachineFields { id: text_field(m, "id"), name: text_field(m, "name"), is_online: flag_field(m, "is_online") });
        i = i + 1;
    }
    r
}

fn file_fields_list(v: &Json, key: &str) -> (r: Vec<FileFields>)
    ensures
        files_read(v@, key@, r@),
{
    let mut r: Vec<FileFields> = Vec::new();
    match list_field(v, key) {
        Some(items) => {
            let mut i: usize = 0;
            while i < items.len()
                invariant
                    i <= items@.len(),
                    r@.len() == i,
                    forall|k: int| 0 <= k < i ==> file_fields_read(json_views(items@)[k], #[trigger] r@[k]),
                decreases items@.len() - i,
            {
                let f = &items[i];
                r.push(FileFields {
                    path: text_field(f, "path"),
                    change_type: text_field(f, "change_type"),
                    additions: number_field(f, "additions"),
                    deletions: number_field(f, "deletions"),
                });
                i = i + 1;
            }
        },
        None => {},
    }
    r
}

fn list_texts_of(v: &Json, key: &str) -> (r: Vec<String>)
    ensures
        text_views(r@) == list_texts(v@, key@),
{
    match list_field(v, key) {
        Some(items) => texts_in_list(items),
        None => {
            let r: Vec<String> = Vec::new();
            assert(text_views(r@) =~= Seq::<Seq<char>>::empty());
            r
        },
    }
}

fn data_of(v: &Json) -> (r: Option<Vec<u64>>)
    ensures
        data_read(v@, r),
{
    match list_field(v, "data") {
        Some(items) => Some(numbers_in_list(items)),
        None => None,
    }
}

/// How the terminal page reads a parsed message of the server.
pub fn page_notice_of(v: &Json) -> (r: PageNotice)
    ensures
        page_notice_read(v@, r),
{
    let t = match text_field(v, "type") {
        Some(t) => t,
        None => return PageNotice::Other,
    };
    let t = t.as_str();
    if str_eq(t, "authenticated") {
        PageNotice::Authenticated
    } else if str_eq(t, "sessions_list") {
        match list_field(v, "sessions") {
            Some(items) => PageNotice::SessionsList(Some(session_fields_list(items))),
            None => PageNotice::SessionsList(None),
        }
    } else if str_eq(t, "session_updated") || str_eq(t, "session_started") {
        match field(v, "session") {
            Some(x) => PageNotice::SessionUpdated(Some(session_fields_of(x))),
            None => PageNotice::SessionUpdated(None),
        }
    } else if str_eq(t, "session_stopped") || str_eq(t, "session_deleted") {
        PageNotice::SessionRemoved(text_field(v, "session_id"))
    } else if str_eq(t, "terminal_history") {
        PageNotice::TerminalHistory { session_id: text_field(v, "session_id"), data: data_of(v) }
    } else if str_eq(t, "terminal_output") {
        PageNotice::TerminalOutput { session_id: text_field(v, "session_id"), data: data_of(v) }
    } else if str_eq(t, "error") {
        PageNotice::Error { code: text_field(v, "code") }
    } else if str_eq(t, "git_status") {
        PageNotice::GitStatus {
            session_id: text_field(v, "session_id"),
            branch: text_field(v, "branch"),
            ahead: number_field(v, "ahead"),
            behind: number_field(v, "behind"),
            modified: file_fields_list(v, "modified"),
            staged: file_fields_list(v, "staged"),
            untracked: list_texts_of(v, "untracked"),
            conflicts: list_texts_of(v, "conflicts"),
        }
    } else if str_eq(t, "git_diff") {
        PageNotice::GitDiff { session_id: text_field(v, "session_id"), path: text_field(v, "path"), diff: text_field(v, "diff") }
    } else if str_eq(t, "git_commit_result") {
        PageNotice::GitCommitResult { session_id: text_field(v, "session_id"), success: flag_field(v, "success") }
    } else if str_eq(t, "remote_session_response") {
        PageNotice::RemoteSessionResponse {
            success: flag_field(v, "success"),
            session_id: nested_text(v, "session", "id"),
            session_tag: nested_text(v, "session", "tag"),
        }
    } else if str_eq(t, "machine_list") {
        match list_field(v, "machines") {
            Some(items) => PageNotice::MachineList(Some(machine_fields_list(items))),
            None => PageNotice::MachineList(None),
        }
    } else {
        PageNotice::Other
    }
}

/// How the terminal page reads a text frame of the server: a text that is not JSON
/// is ignored as another message.
pub fn read_page_notice(text: &str) -> (r: PageNotice)
    ensures
        match json_read(text@) {
            Ok(v) => page_notice_read(v, r),
            Err(_) => r is Other,
        },
{
    match parse_json(text) {
        Ok(v) => page_notice_of(&v),
        Err(_) => PageNotice::Other,
    }
}

/// A message of the page to the server.
#[derive(Debug, Clone)]
pub enum PageRequest {
    Authenticate(String),
    ListSessions,
    ListMachines,
    JoinSession(String),
    TerminalInput { session_id: String, data: Vec<u8> },
    GetGitStatus(String),
    GetGitDiff { session_id: String, path: String },
    GitCommit { session_id: String, message: String, amend: bool },
    DeleteSession(String),
    RequestRemoteSession { machine_id: String, cwd: Option<String>, args: Option<String> },
}

/// The mathematical value of a request.
pub enum PageRequestView {
    Authenticate(Seq<char>),
    ListSessions,
    ListMachines,
    JoinSession(Seq<char>),
    TerminalInput { session_id: Seq<char>, data: Seq<u8> },
    GetGitStatus(Seq<char>),
    GetGitDiff { session_id: Seq<char>, path: Seq<char> },
    GitCommit { session_id: Seq<char>, message: Seq<char>, amend: bool },
    DeleteSession(Seq<char>),
    RequestRemoteSession { machine_id: Seq<char>, cwd: Option<Seq<char>>, args: Option<Seq<char>> },
}

impl View for PageRequest {
    type V = PageRequestView;

    open spec fn view(&self) -> PageRequestView {
        match self {
            PageRequest::Authenticate(t) => PageRequestView::Authenticate(t@),
            PageRequest::ListSessions => PageRequestView::ListSessions,
            PageRequest::ListMachines => PageRequestView::ListMachines,
            PageRequest::JoinSession(t) => PageRequestView::JoinSession(t@),
            PageRequest::TerminalInput { session_id, data } => PageRequestView::TerminalInput { session_id: session_id@, data: data@ },
            PageRequest::GetGitStatus(id) => PageRequestView::GetGitStatus(id@),
            PageRequest::GetGitDiff { session_id, path } => PageRequestView::GetGitDiff { session_id: session_id@, path: path@ },
            PageRequest::GitCommit { session_id, message, amend } => PageRequestView::GitCommit {
                session_id: session_id@,
                message: message@,
                amend: *amend,
            },
            PageRequest::DeleteSession(id) => PageRequestView::DeleteSession(id@),
            PageRequest::RequestRemoteSession { machine_id, cwd, args } => PageRequestView::RequestRemoteSession {
                machine_id: machine_id@,
                cwd: opt_str_view(*cwd),
                args: opt_str_view(*args),
            },
        }
    }
}

/// What the page must do besides changing its state.
#[derive(Debug, Clone)]
pub enum PageAction {
    /// Send a message to the server.
    Send(PageRequest),
    /// Write bytes straight to the terminal on screen.
    WriteToTerminal(Vec<u8>),
    /// Forget the stored token and go to the login page.
    Logout,
    /// Show this tag in the address (`#tag`).
    SetHash(String),
    /// Type this key sequence into the terminal on screen.
    SendKey(String),
}

/// The mathematical value of an action.
pub enum PageActionView {
    Send(PageRequestView),
    WriteToTerminal(Seq<u8>),
    Logout,
    SetHash(Seq<char>),
    SendKey(Seq<char>),
}

impl View for PageAction {
    type V = PageActionView;

    open spec fn view(&self) -> PageActionView {
        match self {
            PageAction::Send(r) => PageActionView::Send(r@),
            PageAction::WriteToTerminal(b) => PageActionView::WriteToTerminal(b@),
            PageAction::Logout => PageActionView::Logout,
            PageAction::SetHash(t) => PageActionView::SetHash(t@),
            PageAction::SendKey(k) => PageActionView::SendKey(k@),
        }
    }
}

/// The views of a list of actions.
pub open spec fn page_actions(v: Seq<PageAction>) -> Seq<PageActionView> {
    v.map_values(|a: PageAction| a@)
}

/// The largest terminal buffer kept before it is cut.
pub const BUFFER_LIMIT: usize = 100000;

/// The length a terminal buffer is cut to: its last bytes.
pub const BUFFER_KEEP: usize = 80000;

/// Whether a byte continues a UTF-8 character (`10xxxxxx`) rather than starting one.
pub open spec fn is_continuation(x: u8) -> bool {
    0x80 <= x < 0xC0
}

/// Whether index `k` of `b` is a character boundary: its end, or a byte that
/// starts a character.
pub open spec fn starts_char(b: Seq<u8>, k: int) -> bool {
    k == b.len() || (0 <= k < b.len() && !is_continuation(b[k]))
}

/// The first character boundary of `b` at or after `k`.
pub open spec fn boundary_from(b: Seq<u8>, k: int) -> int
    decreases b.len() - k,
{
    if k >= b.len() || (k >= 0 && !is_continuation(b[k])) {
        k
    } else {
        boundary_from(b, k + 1)
    }
}

/// A terminal buffer after output arrives (the decoded text's bytes): the output appended, and when that
/// makes it longer than the limit, only its longest tail that starts on a
/// character boundary and holds at most `BUFFER_KEEP` bytes.
pub open spec fn appended_buffer(old: Seq<u8>, data: Seq<u8>) -> Seq<u8> {
    let b = old + data;
    if b.len() > BUFFER_LIMIT {
        b.skip(boundary_from(b, b.len() - BUFFER_KEEP))
    } else {
        b
    }
}

/// The first boundary at or after `k` is a boundary, no earlier than `k`, and no
/// later than any boundary at or after `k`.
pub proof fn lemma_boundary_from(b: Seq<u8>, k: int, j: int)
    requires
        0 <= k <= b.len(),
    ensures
        k <= boundary_from(b, k) <= b.len(),
        starts_char(b, boundary_from(b, k)),
        forall|m: int| k <= m < boundary_from(b, k) ==> !starts_char(b, m),
        k <= j <= b.len() && starts_char(b, j) ==> boundary_from(b, k) <= j,
    decreases b.len() - k,
{
    if k < b.len() && is_continuation(b[k]) {
        lemma_boundary_from(b, k + 1, j);
    }
}

/// The low bytes of a list of numbers.
pub open spec fn low_bytes(v: Seq<u64>) -> Seq<u8> {
    v.map_values(|n: u64| n as u8)
}

/// The tags joined and the join requests sent when a list of sessions
/// arrives: each tag not yet joined is joined once, in order.
pub open spec fn join_all(joined: Seq<Seq<char>>, tags: Seq<Seq<char>>) -> (Seq<Seq<char>>, Seq<Seq<char>>)
    decreases tags.len(),
{
    if tags.len() == 0 {
        (joined, Seq::empty())
    } else {
        let (j, sent) = join_all(joined, tags.drop_last());
        if j.contains(tags.last()) {
            (j, sent)
        } else {
            (j.push(tags.last()), sent.push(tags.last()))
        }
    }
}

/// The index of the first listed session with this tag.
pub open spec fn first_tag_at(ss: Seq<SessionSummaryView>, tag: Seq<char>, i: int) -> bool {
    &&& 0 <= i < ss.len()
    &&& ss[i].tag == tag
    &&& forall|j: int| 0 <= j < i ==> ss[j].tag != tag
}

/// Whether some listed session has this tag.
pub open spec fn has_tag(ss: Seq<SessionSummaryView>, tag: Seq<char>) -> bool {
    exists|i: int| 0 <= i < ss.len() && #[trigger] ss[i].tag == tag
}

/// The id of the first listed session with this tag.
pub open spec fn id_of_tag(ss: Seq<SessionSummaryView>, tag: Seq<char>) -> Seq<char> {
    ss[choose|i: int| first_tag_at(ss, tag, i)].id
}

/// The selection after a new list arrives: kept when there is one, else the
/// session of the tag in the address, else the first listed session.
pub open spec fn selection_after_list(
    selected: Option<Seq<char>>,
    target: Option<Seq<char>>,
    next: Seq<SessionSummaryView>,
) -> Option<Seq<char>> {
    if selected is Some {
        selected
    } else if target is Some && has_tag(next, target->0) {
        Some(id_of_tag(next, target->0))
    } else if next.len() > 0 {
        Some(next[0].id)
    } else {
        None
    }
}

/// The listed sessions read from the objects of a list.
pub open spec fn summaries_of(list: Seq<SessionFields>) -> Seq<SessionSummaryView> {
    list.map_values(|f: SessionFields| summary_of_fields(f)).filter(|o: Option<SessionSummaryView>| o is Some)
        .map_values(|o: Option<SessionSummaryView>| o->0)
}

/// The listed session with this id, if any: the index of the first.
pub open spec fn first_id_at(ss: Seq<SessionSummaryView>, id: Seq<char>, i: int) -> bool {
    &&& 0 <= i < ss.len()
    &&& ss[i].id == id
    &&& forall|j: int| 0 <= j < i ==> ss[j].id != id
}

/// Whether some listed session has this id.
pub open spec fn has_id(ss: Seq<SessionSummaryView>, id: Seq<char>) -> bool {
    exists|i: int| 0 <= i < ss.len() && #[trigger] ss[i].id == id
}

/// The list after an update of one session: a listed session with its id takes
/// the new tag, status, directory and machine name, else it is added.
pub open spec fn updated_list(ss: Seq<SessionSummaryView>, s: SessionSummaryView) -> Seq<SessionSummaryView> {
    if has_id(ss, s.id) {
        let i = choose|i: int| first_id_at(ss, s.id, i);
        ss.update(i, SessionSummaryView { tag: s.tag, status: s.status, cwd: s.cwd, machine_name: s.machine_name, ..ss[i] })
    } else {
        ss.push(s)
    }
}

/// The buffers after bytes arrive for a session: its buffer set to `bytes`,
/// every other buffer unchanged.
pub open spec fn buffer_set(before: Map<Seq<char>, Vec<u8>>, after: Map<Seq<char>, Vec<u8>>, id: Seq<char>, bytes: Seq<u8>) -> bool {
    &&& after.dom() == before.dom().insert(id)
    &&& after[id]@ == bytes
    &&& forall|k: Seq<char>| k != id && #[trigger] before.contains_key(k) ==> after[k] == before[k]
}

/// The bytes held for a session: its buffer, or nothing.
pub open spec fn buffer_of(buffers: Map<Seq<char>, Vec<u8>>, id: Seq<char>) -> Seq<u8> {
    if buffers.contains_key(id) { buffers[id]@ } else { Seq::empty() }
}

/// The state of the terminal page.
pub struct TerminalPage {
    /// The session tag in the address when the page was opened.
    pub target_tag: Option<String>,
    pub ws_status: String,
    pub sessions: Vec<SessionSummary>,
    pub machines: Vec<MachineInfo>,
    pub selected_session_id: Option<String>,
    pub input_value: String,
    pub joined_tags: Vec<String>,
    pub mobile_view: MobileView,
    pub delete_confirm: Option<(String, String)>,
    pub show_create_modal: bool,
    pub create_cwd: String,
    pub create_machine: String,
    pub create_args: String,
    pub context_menu: Option<(i32, i32, String, String)>,
    /// Each session's terminal text, as its UTF-8 bytes: output is decoded lossily
    /// (invalid sequences become U+FFFD) before it is kept.
    pub terminal_buffers: KeyedList<Vec<u8>>,
    pub sessions_loaded: bool,
    pub show_scroll_to_bottom: bool,
    pub git_status: Option<GitStatusInfo>,
    pub selected_file: Option<String>,
    pub file_diff: Option<String>,
    pub show_git_panel: bool,
    pub commit_message: String,
    pub show_commit_modal: bool,
    pub is_amend: bool,
}

/// The tag named by the address fragment: what follows the `#`, when there is something.
pub open spec fn tag_of_hash(hash: Seq<char>) -> Option<Seq<char>> {
    if hash.len() > 1 { Some(hash.skip(1)) } else { None }
}

/// The tag named by the address fragment.
pub fn tag_from_hash(hash: &str) -> (r: Option<String>)
    ensures
        opt_str_view(r) == tag_of_hash(hash@),
{
    let n = hash.unicode_len();
    if n > 1 {
        let t = owned(hash.substring_char(1, n));
        assert(t@ =~= hash@.skip(1));
        Some(t)
    } else {
        None
    }
}

fn push_action(actions: &mut Vec<PageAction>, a: PageAction)
    ensures
        page_actions(final(actions)@) == page_actions(old(actions)@).push(a@),
{
    let ghost av = a@;
    actions.push(a);
    assert(page_actions(actions@) =~= page_actions(old(actions)@).push(av));
}

impl TerminalPage {
    /// A page opened at the address fragment `hash`: it shows the terminal when
    /// the fragment names a session, else the list.
    pub fn new(hash: &str) -> (r: TerminalPage)
        ensures
            opt_str_view(r.target_tag) == tag_of_hash(hash@),
            r.ws_status@ == "Connecting..."@,
            r.sessions@.len() == 0,
            r.machines@.len() == 0,
            r.selected_session_id is None,
            r.joined_tags@.len() == 0,
            r.mobile_view == (if tag_of_hash(hash@) is Some { MobileView::Terminal } else { MobileView::SessionList }),
            r.terminal_buffers.map().dom().len() == 0,
            !r.sessions_loaded,
            r.git_status is None,
            !r.show_git_panel,
            !r.show_create_modal,
            !r.show_commit_modal,
    {
        let target_tag = tag_from_hash(hash);
        let mobile_view = if target_tag.is_some() { MobileView::Terminal } else { MobileView::SessionList };
        TerminalPage {
            target_tag,
            ws_status: owned("Connecting..."),
            sessions: Vec::new(),
            machines: Vec::new(),
            selected_session_id: None,
            input_value: String::new(),
            joined_tags: Vec::new(),
            mobile_view,
            delete_confirm: None,
            show_create_modal: false,
            create_cwd: String::new(),
            create_machine: String::new(),
            create_args: String::new(),
            context_menu: None,
            terminal_buffers: KeyedList::new(),
            sessions_loaded: false,
            show_scroll_to_bottom: false,
            git_status: None,
            selected_file: None,
            file_diff: None,
            show_git_panel: false,
            commit_message: String::new(),
            show_commit_modal: false,
            is_amend: false,
        }
    }

    /// The socket opened: authenticate, then ask for the sessions and the machines.
    pub fn on_open(&mut self, token: &str) -> (r: Vec<PageAction>)
        ensures
            final(self).ws_status@ == "Authenticating..."@,
            page_actions(r@) == seq![
                PageActionView::Send(PageRequestView::Authenticate(token@)),
                PageActionView::Send(PageRequestView::ListSessions),
                PageActionView::Send(PageRequestView::ListMachines),
            ],
            summary_views(final(self).sessions@) == summary_views(old(self).sessions@),
    {
        self.ws_status = owned("Authenticating...");
        let mut r: Vec<PageAction> = Vec::new();
        push_action(&mut r, PageAction::Send(PageRequest::Authenticate(owned(token))));
        push_action(&mut r, PageAction::Send(PageRequest::ListSessions));
        push_action(&mut r, PageAction::Send(PageRequest::ListMachines));
        assert(page_actions(r@) =~= seq![
            PageActionView::Send(PageRequestView::Authenticate(token@)),
            PageActionView::Send(PageRequestView::ListSessions),
            PageActionView::Send(PageRequestView::ListMachines),
        ]);
        r
    }

    /// The socket closed.
    pub fn on_close(&mut self)
        ensures
            final(self).ws_status@ == "Disconnected"@,
            summary_views(final(self).sessions@) == summary_views(old(self).sessions@),
    {
        self.ws_status = owned("Disconnected");
    }
}


/// The parts of the page state.
#[derive(Debug, Clone, Copy, PartialEq, Eq, Structural)]
pub enum PageField {
    WsStatus,
    Sessions,
    Machines,
    Selected,
    Joined,
    Buffers,
    Loaded,
    Git,
    Diff,
    Commit,
    Input,
    Mobile,
    DeleteConfirm,
    Create,
    ContextMenu,
    GitPanel,
}

/// The mathematical value of a listed file.
pub struct ChangedFileView {
    pub path: Seq<char>,
    pub change_type: Seq<char>,
    pub additions: u32,
    pub deletions: u32,
}

impl View for ChangedFile {
    type V = ChangedFileView;

    open spec fn view(&self) -> ChangedFileView {
        ChangedFileView { path: self.path@, change_type: self.change_type@, additions: self.additions, deletions: self.deletions }
    }
}

/// The mathematical value of a git state.
pub struct GitStatusView {
    pub branch: Seq<char>,
    pub ahead: u32,
    pub behind: u32,
    pub modified: Seq<ChangedFileView>,
    pub staged: Seq<ChangedFileView>,
    pub untracked: Seq<Seq<char>>,
    pub conflicts: Seq<Seq<char>>,
}

impl View for GitStatusInfo {
    type V = GitStatusView;

    open spec fn view(&self) -> GitStatusView {
        GitStatusView {
            branch: self.branch@,
            ahead: self.ahead,
            behind: self.behind,
            modified: self.modified@.map_values(|f: ChangedFile| f@),
            staged: self.staged@.map_values(|f: ChangedFile| f@),
            untracked: text_views(self.untracked@),
            conflicts: text_views(self.conflicts@),
        }
    }
}

/// The view of an optional git state.
pub open spec fn opt_git_view(g: Option<GitStatusInfo>) -> Option<GitStatusView> {
    match g {
        Some(x) => Some(x@),
        None => None,
    }
}

/// The views of a list of machines.
pub open spec fn machine_views(v: Seq<MachineInfo>) -> Seq<(Seq<char>, Seq<char>)> {
    v.map_values(|m: MachineInfo| (m.id@, m.name@))
}

/// Every part of the page outside `changed` is as before.
pub open spec fn keeps(b: TerminalPage, a: TerminalPage, changed: Set<PageField>) -> bool {
    &&& opt_str_view(a.target_tag) == opt_str_view(b.target_tag)
    &&& (!changed.contains(PageField::WsStatus) ==> a.ws_status@ == b.ws_status@)
    &&& (!changed.contains(PageField::Sessions) ==> summary_views(a.sessions@) == summary_views(b.sessions@))
    &&& (!changed.contains(PageField::Machines) ==> machine_views(a.machines@) == machine_views(b.machines@))
    &&& (!changed.contains(PageField::Selected) ==> opt_str_view(a.selected_session_id) == opt_str_view(b.selected_session_id))
    &&& (!changed.contains(PageField::Joined) ==> text_views(a.joined_tags@) == text_views(b.joined_tags@))
    &&& (!changed.contains(PageField::Buffers) ==> a.terminal_buffers.map() == b.terminal_buffers.map())
    &&& (!changed.contains(PageField::Loaded) ==> a.sessions_loaded == b.sessions_loaded)
    &&& (!changed.contains(PageField::Git) ==> opt_git_view(a.git_status) == opt_git_view(b.git_status))
    &&& (!changed.contains(PageField::Diff) ==> opt_str_view(a.file_diff) == opt_str_view(b.file_diff))
    &&& (!changed.contains(PageField::Commit) ==> a.commit_message@ == b.commit_message@ && a.show_commit_modal == b.show_commit_modal
        && a.is_amend == b.is_amend)
    &&& (!changed.contains(PageField::Input) ==> a.input_value@ == b.input_value@)
    &&& (!changed.contains(PageField::Mobile) ==> a.mobile_view == b.mobile_view)
    &&& (!changed.contains(PageField::DeleteConfirm) ==> a.delete_confirm == b.delete_confirm)
    &&& (!changed.contains(PageField::Create) ==> a.show_create_modal == b.show_create_modal && a.create_cwd@ == b.create_cwd@
        && a.create_machine@ == b.create_machine@ && a.create_args@ == b.create_args@)
    &&& (!changed.contains(PageField::ContextMenu) ==> a.context_menu == b.context_menu)
    &&& (!changed.contains(PageField::GitPanel) ==> opt_str_view(a.selected_file) == opt_str_view(b.selected_file)
        && a.show_git_panel == b.show_git_panel && a.show_scroll_to_bottom == b.show_scroll_to_bottom)
}

/// The listed file read from a file object: present when every field is.
pub open spec fn file_of_fields(f: FileFields) -> Option<ChangedFileView> {
    if f.path is Some && f.change_type is Some && f.additions is Some && f.deletions is Some {
        Some(ChangedFileView {
            path: f.path->0@,
            change_type: f.change_type->0@,
            additions: f.additions->0 as u32,
            deletions: f.deletions->0 as u32,
        })
    } else {
        None
    }
}

/// The listed files read from a list of file objects.
pub open spec fn files_of(list: Seq<FileFields>) -> Seq<ChangedFileView> {
    list.map_values(|f: FileFields| file_of_fields(f)).filter(|o: Option<ChangedFileView>| o is Some)
        .map_values(|o: Option<ChangedFileView>| o->0)
}

/// The machine read from a machine object, with whether it is online.
pub open spec fn machine_of_fields(f: MachineFields) -> Option<(Seq<char>, Seq<char>, bool)> {
    if f.id is Some && f.name is Some && f.is_online is Some {
        Some((f.id->0@, f.name->0@, f.is_online->0))
    } else {
        None
    }
}

/// The machines read from a list of machine objects.
pub open spec fn machines_of(list: Seq<MachineFields>) -> Seq<(Seq<char>, Seq<char>)> {
    list.map_values(|f: MachineFields| machine_of_fields(f)).filter(|o: Option<(Seq<char>, Seq<char>, bool)>| o is Some)
        .map_values(|o: Option<(Seq<char>, Seq<char>, bool)>| { let t = o->0; (t.0, t.1) })
}

/// Whether the machine list reports this machine online.
pub open spec fn reported_online(list: Seq<MachineFields>, machine_id: Seq<char>) -> bool {
    exists|i: int| 0 <= i < list.len() && #[trigger] machine_of_fields(list[i]) == Some((machine_id, list[i].name->0@, true))
}

/// The listed sessions with their online state taken from the machine list.
pub open spec fn with_online(ss: Seq<SessionSummaryView>, list: Seq<MachineFields>) -> Seq<SessionSummaryView> {
    ss.map_values(|s: SessionSummaryView| SessionSummaryView { is_online: reported_online(list, s.machine_id), ..s })
}

/// The views of an optional list of session objects, empty when there is none.
pub open spec fn fields_or_empty(list: Option<Vec<SessionFields>>) -> Seq<SessionFields> {
    match list {
        Some(l) => l@,
        None => Seq::empty(),
    }
}

/// How the page reacts to a message of the server: `b` and `a` are its state
/// around the reaction, `actions` what it asks of its surroundings.
pub open spec fn page_reacted(b: TerminalPage, a: TerminalPage, notice: PageNotice, actions: Seq<PageActionView>) -> bool {
    match notice {
        PageNotice::Authenticated => {
            &&& a.ws_status@ == "Connected"@
            &&& actions.len() == 0
            &&& keeps(b, a, set![PageField::WsStatus])
        },
        PageNotice::SessionsList(list) => {
            let next = summaries_of(fields_or_empty(list));
            let (joined, sent) = join_all(text_views(b.joined_tags@), next.map_values(|s: SessionSummaryView| s.tag));
            &&& summary_views(a.sessions@) == next
            &&& text_views(a.joined_tags@) == joined
            &&& actions == sent.map_values(|t: Seq<char>| PageActionView::Send(PageRequestView::JoinSession(t)))
            &&& opt_str_view(a.selected_session_id) == selection_after_list(opt_str_view(b.selected_session_id),
                opt_str_view(b.target_tag), next)
            &&& a.sessions_loaded
            &&& keeps(b, a, set![PageField::Sessions, PageField::Joined, PageField::Selected, PageField::Loaded])
        },
        PageNotice::SessionUpdated(f) => {
            &&& actions.len() == 0
            &&& summary_views(a.sessions@) == (if b.sessions@.len() > 0 && f is Some && summary_of_fields(f->0) is Some {
                updated_list(summary_views(b.sessions@), summary_of_fields(f->0)->0)
            } else {
                summary_views(b.sessions@)
            })
            &&& keeps(b, a, set![PageField::Sessions])
        },
        PageNotice::SessionRemoved(id) => {
            &&& actions.len() == 0
            &&& summary_views(a.sessions@) == (match id {
                Some(i) => summary_views(b.sessions@).filter(|s: SessionSummaryView| s.id != i@),
                None => summary_views(b.sessions@),
            })
            &&& keeps(b, a, set![PageField::Sessions])
        },
        PageNotice::TerminalHistory { session_id, data } => {
            &&& actions.len() == 0
            &&& if session_id is Some && data is Some {
                buffer_set(b.terminal_buffers.map(), a.terminal_buffers.map(), session_id->0@, utf8_lossy(low_bytes(data->0@)))
            } else {
                a.terminal_buffers.map() == b.terminal_buffers.map()
            }
            &&& keeps(b, a, set![PageField::Buffers])
        },
        PageNotice::TerminalOutput { session_id, data } => {
            &&& if session_id is Some && data is Some {
                let id = session_id->0@;
                let bytes = low_bytes(data->0@);
                &&& buffer_set(b.terminal_buffers.map(), a.terminal_buffers.map(), id,
                    appended_buffer(buffer_of(b.terminal_buffers.map(), id), utf8_lossy(bytes)))
                &&& actions == (if opt_str_view(b.selected_session_id) == Some(id) {
                    seq![PageActionView::WriteToTerminal(bytes)]
                } else {
                    Seq::empty()
                })
            } else {
                &&& a.terminal_buffers.map() == b.terminal_buffers.map()
                &&& actions.len() == 0
            }
            &&& keeps(b, a, set![PageField::Buffers])
        },
        PageNotice::Error { code } => {
            &&& actions == (if code is Some && (code->0@ == "auth_failed"@ || code->0@ == "not_authenticated"@) {
                seq![PageActionView::Logout]
            } else {
                Seq::empty()
            })
            &&& keeps(b, a, Set::empty())
        },
        PageNotice::GitStatus { session_id, branch, ahead, behind, modified, staged, untracked, conflicts } => {
            &&& actions.len() == 0
            &&& opt_git_view(a.git_status) == (if session_id is Some && branch is Some {
                Some(GitStatusView {
                    branch: branch->0@,
                    ahead: (match ahead { Some(n) => n, None => 0 }) as u32,
                    behind: (match behind { Some(n) => n, None => 0 }) as u32,
                    modified: files_of(modified@),
                    staged: files_of(staged@),
                    untracked: text_views(untracked@),
                    conflicts: text_views(conflicts@),
                })
            } else {
                opt_git_view(b.git_status)
            })
            &&& keeps(b, a, set![PageField::Git])
        },
        PageNotice::GitDiff { session_id, path, diff } => {
            &&& actions.len() == 0
            &&& opt_str_view(a.file_diff) == (if session_id is Some && path is Some && diff is Some {
                Some(diff->0@)
            } else {
                opt_str_view(b.file_diff)
            })
            &&& keeps(b, a, set![PageField::Diff])
        },
        PageNotice::GitCommitResult { session_id, success } => {
            if session_id is Some && success == Some(true) {
                &&& a.commit_message@.len() == 0
                &&& !a.show_commit_modal
                &&& a.is_amend == b.is_amend
                &&& actions == seq![PageActionView::Send(PageRequestView::GetGitStatus(session_id->0@))]
                &&& keeps(b, a, set![PageField::Commit])
            } else {
                &&& actions.len() == 0
                &&& keeps(b, a, Set::empty())
            }
        },
        PageNotice::RemoteSessionResponse { success, session_id, session_tag } => {
            if success == Some(true) && session_id is Some && session_tag is Some {
                &&& opt_str_view(a.selected_session_id) == Some(session_id->0@)
                &&& actions == seq![PageActionView::Send(PageRequestView::ListSessions)]
                &&& keeps(b, a, set![PageField::Selected])
            } else {
                &&& actions.len() == 0
                &&& keeps(b, a, Set::empty())
            }
        },
        PageNotice::MachineList(list) => {
            &&& actions.len() == 0
            &&& match list {
                Some(l) => {
                    &&& machine_views(a.machines@) == machines_of(l@)
                    &&& summary_views(a.sessions@) == with_online(summary_views(b.sessions@), l@)
                    &&& keeps(b, a, set![PageField::Machines, PageField::Sessions])
                },
                None => keeps(b, a, Set::empty()),
            }
        },
        PageNotice::Other => {
            &&& actions.len() == 0
            &&& keeps(b, a, Set::empty())
        },
    }
}


fn low_bytes_exec(data: &Vec<u64>) -> (r: Vec<u8>)
    ensures
        r@ == low_bytes(data@),
{
    let mut r: Vec<u8> = Vec::new();
    let mut i: usize = 0;
    while i < data.len()
        invariant
            i <= data@.len(),
            r@ == low_bytes(data@.take(i as int)),
        decreases data@.len() - i,
    {
        r.push(data[i] as u8);
        assert(low_bytes(data@.take(i as int + 1)) =~= low_bytes(data@.take(i as int)).push(data@[i as int] as u8));
        i = i + 1;
    }
    assert(data@.take(i as int) =~= data@);
    r
}

fn push_range(r: &mut Vec<u8>, src: &Vec<u8>, from: usize)
    requires
        from <= src@.len(),
    ensures
        final(r)@ == old(r)@ + src@.skip(from as int),
{
    let mut i: usize = from;
    while i < src.len()
        invariant
            from <= i <= src@.len(),
            r@ == old(r)@ + src@.subrange(from as int, i as int),
        decreases src@.len() - i,
    {
        r.push(src[i]);
        assert(old(r)@ + src@.subrange(from as int, i as int + 1) =~= old(r)@ + src@.subrange(from as int, i as int) + seq![src@[i as int]]);
        i = i + 1;
    }
    assert(src@.subrange(from as int, src@.len() as int) =~= src@.skip(from as int));
}

/// The first boundary at or after `s + i` in `b` is `s` past the first boundary at
/// or after `i` in the tail of `b` from `s`.
proof fn lemma_boundary_in_tail(b: Seq<u8>, s: int, i: int)
    requires
        0 <= s <= b.len(),
        0 <= i <= b.len() - s,
    ensures
        boundary_from(b, s + i) == s + boundary_from(b.skip(s), i),
    decreases b.len() - s - i,
{
    if i < b.len() - s {
        assert(b.skip(s)[i] == b[s + i]);
        lemma_boundary_in_tail(b, s, i + 1);
    }
}

/// A terminal buffer after output arrives.
pub fn append_output(old: &Vec<u8>, data: &Vec<u8>) -> (r: Vec<u8>)
    ensures
        r@ == appended_buffer(old@, data@),
{
    let o = old.len();
    let d = data.len();
    let ghost b = old@ + data@;
    let cut = d > BUFFER_LIMIT || o > BUFFER_LIMIT - d;
    let mut t: Vec<u8> = Vec::new();
    if !cut {
        push_range(&mut t, old, 0);
        push_range(&mut t, data, 0);
        assert(old@.skip(0) =~= old@);
        assert(data@.skip(0) =~= data@);
        assert(t@ =~= b);
        return t;
    } else if d >= BUFFER_KEEP {
        push_range(&mut t, data, d - BUFFER_KEEP);
        assert(t@ =~= b.skip(b.len() - BUFFER_KEEP));
    } else {
        push_range(&mut t, old, o - (BUFFER_KEEP - d));
        push_range(&mut t, data, 0);
        assert(data@.skip(0) =~= data@);
        assert(t@ =~= b.skip(b.len() - BUFFER_KEEP));
    }
    let ghost s: int = b.len() - BUFFER_KEEP;
    let n = t.len();
    let mut k: usize = 0;
    while k < n && 0x80u8 <= t[k] && t[k] < 0xC0u8
        invariant
            n == t@.len(),
            k <= n,
            boundary_from(t@, 0) == boundary_from(t@, k as int),
        decreases n - k,
    {
        k = k + 1;
    }
    proof {
        lemma_boundary_in_tail(b, s, 0);
    }
    let mut r: Vec<u8> = Vec::new();
    push_range(&mut r, &t, k);
    assert(r@ =~= b.skip(boundary_from(b, s)));
    r
}

fn copy_texts(v: &Vec<String>) -> (r: Vec<String>)
    ensures
        text_views(r@) == text_views(v@),
{
    let mut r: Vec<String> = Vec::new();
    let mut i: usize = 0;
    while i < v.len()
        invariant
            i <= v@.len(),
            text_views(r@) == text_views(v@).take(i as int),
        decreases v@.len() - i,
    {
        let ghost prev = r@;
        r.push(v[i].clone());
        assert(text_views(r@) =~= text_views(prev).push(v@[i as int]@));
        assert(text_views(v@).take(i as int + 1) =~= text_views(v@).take(i as int).push(v@[i as int]@));
        i = i + 1;
    }
    assert(text_views(v@).take(i as int) =~= text_views(v@));
    r
}

fn files_from(list: &Vec<FileFields>) -> (r: Vec<ChangedFile>)
    ensures
        r@.map_values(|f: ChangedFile| f@) == files_of(list@),
{
    let ghost parsed = list@.map_values(|f: FileFields| file_of_fields(f));
    let ghost keep = |o: Option<ChangedFileView>| o is Some;
    let mut r: Vec<ChangedFile> = Vec::new();
    let mut i: usize = 0;
    while i < list.len()
        invariant
            i <= list@.len(),
            parsed == list@.map_values(|f: FileFields| file_of_fields(f)),
            keep == (|o: Option<ChangedFileView>| o is Some),
            r@.map_values(|f: ChangedFile| f@) == parsed.take(i as int).filter(keep).map_values(|o: Option<ChangedFileView>| o->0),
        decreases list@.len() - i,
    {
        proof {
            assert(parsed.take(i as int + 1) =~= parsed.take(i as int).push(parsed[i as int]));
            parsed.take(i as int).lemma_filter_push(parsed[i as int], keep);
        }
        let f = &list[i];
        match (&f.path, &f.change_type, f.additions, f.deletions) {
            (Some(path), Some(ct), Some(a), Some(d)) => {
                let c = ChangedFile { path: path.clone(), change_type: ct.clone(), additions: a as u32, deletions: d as u32 };
                let ghost prev = r@;
                let ghost cv = c@;
                r.push(c);
                assert(r@.map_values(|f: ChangedFile| f@) =~= prev.map_values(|f: ChangedFile| f@).push(cv));
                assert(parsed.take(i as int + 1).filter(keep).map_values(|o: Option<ChangedFileView>| o->0) =~=
                    parsed.take(i as int).filter(keep).map_values(|o: Option<ChangedFileView>| o->0).push(cv));
            },
            _ => {},
        }
        i = i + 1;
    }
    assert(parsed.take(i as int) =~= parsed);
    r
}

fn summaries_from(list: &Vec<SessionFields>) -> (r: Vec<SessionSummary>)
    ensures
        summary_views(r@) == summaries_of(list@),
{
    let ghost parsed = list@.map_values(|f: SessionFields| summary_of_fields(f));
    let ghost keep = |o: Option<SessionSummaryView>| o is Some;
    let mut r: Vec<SessionSummary> = Vec::new();
    let mut i: usize = 0;
    while i < list.len()
        invariant
            i <= list@.len(),
            parsed == list@.map_values(|f: SessionFields| summary_of_fields(f)),
            keep == (|o: Option<SessionSummaryView>| o is Some),
            summary_views(r@) == parsed.take(i as int).filter(keep).map_values(|o: Option<SessionSummaryView>| o->0),
        decreases list@.len() - i,
    {
        proof {
            assert(parsed.take(i as int + 1) =~= parsed.take(i as int).push(parsed[i as int]));
            parsed.take(i as int).lemma_filter_push(parsed[i as int], keep);
        }
        match summary_from_fields(&list[i]) {
            Some(c) => {
                let ghost prev = r@;
                let ghost cv = c@;
                r.push(c);
                assert(summary_views(r@) =~= summary_views(prev).push(cv));
                assert(parsed.take(i as int + 1).filter(keep).map_values(|o: Option<SessionSummaryView>| o->0) =~=
                    parsed.take(i as int).filter(keep).map_values(|o: Option<SessionSummaryView>| o->0).push(cv));
            },
            None => {},
        }
        i = i + 1;
    }
    assert(parsed.take(i as int) =~= parsed);
    r
}

fn contains_text_item(v: &Vec<String>, t: &str) -> (r: bool)
    ensures
        r == text_views(v@).contains(t@),
{
    let ghost tv = text_views(v@);
    let mut i: usize = 0;
    while i < v.len()
        invariant
            i <= v@.len(),
            tv == text_views(v@),
            forall|j: int| 0 <= j < i ==> tv[j] != t@,
        decreases v@.len() - i,
    {
        if str_eq(v[i].as_str(), t) {
            assert(tv[i as int] == t@);
            return true;
        }
        i = i + 1;
    }
    false
}

fn index_of_tag(ss: &Vec<SessionSummary>, tag: &str) -> (r: Option<usize>)
    ensures
        match r {
            Some(i) => first_tag_at(summary_views(ss@), tag@, i as int),
            None => !has_tag(summary_views(ss@), tag@),
        },
{
    let ghost sv = summary_views(ss@);
    let mut i: usize = 0;
    while i < ss.len()
        invariant
            i <= ss@.len(),
            sv == summary_views(ss@),
            forall|j: int| 0 <= j < i ==> sv[j].tag != tag@,
        decreases ss@.len() - i,
    {
        if str_eq(ss[i].tag.as_str(), tag) {
            return Some(i);
        }
        i = i + 1;
    }
    None
}

fn index_of_id(ss: &Vec<SessionSummary>, id: &str) -> (r: Option<usize>)
    ensures
        match r {
            Some(i) => first_id_at(summary_views(ss@), id@, i as int),
            None => !has_id(summary_views(ss@), id@),
        },
{
    let ghost sv = summary_views(ss@);
    let mut i: usize = 0;
    while i < ss.len()
        invariant
            i <= ss@.len(),
            sv == summary_views(ss@),
            forall|j: int| 0 <= j < i ==> sv[j].id != id@,
        decreases ss@.len() - i,
    {
        if str_eq(ss[i].id.as_str(), id) {
            return Some(i);
        }
        i = i + 1;
    }
    None
}

proof fn lemma_first_tag_unique(ss: Seq<SessionSummaryView>, t: Seq<char>, i: int, j: int)
    requires
        first_tag_at(ss, t, i),
        first_tag_at(ss, t, j),
    ensures
        i == j,
{
}

proof fn lemma_first_id_unique(ss: Seq<SessionSummaryView>, t: Seq<char>, i: int, j: int)
    requires
        first_id_at(ss, t, i),
        first_id_at(ss, t, j),
    ensures
        i == j,
{
}

impl TerminalPage {
    fn on_sessions_list(&mut self, list: Option<Vec<SessionFields>>) -> (r: Vec<PageAction>)
        ensures
            page_reacted(*old(self), *final(self), PageNotice::SessionsList(list), page_actions(r@)),
    {
        let ghost b = *self;
        let ghost fl = fields_or_empty(list);
        let next = match &list {
            Some(l) => summaries_from(l),
            None => {
                let e: Vec<SessionFields> = Vec::new();
                assert(e@ =~= fl);
                summaries_from(&e)
            },
        };
        let ghost nv = summary_views(next@);
        let ghost tags = nv.map_values(|s: SessionSummaryView| s.tag);
        let ghost j0 = text_views(self.joined_tags@);
        let ghost send = |t: Seq<char>| PageActionView::Send(PageRequestView::JoinSession(t));
        let mut actions: Vec<PageAction> = Vec::new();
        let ghost mut sent: Seq<Seq<char>> = Seq::empty();
        let mut k: usize = 0;
        while k < next.len()
            invariant
                k <= next@.len(),
                nv == summary_views(next@),
                tags == nv.map_values(|s: SessionSummaryView| s.tag),
                send == (|t: Seq<char>| PageActionView::Send(PageRequestView::JoinSession(t))),
                (text_views(self.joined_tags@), sent) == join_all(j0, tags.take(k as int)),
                page_actions(actions@) == sent.map_values(send),
                summary_views(self.sessions@) == summary_views(b.sessions@),
                keeps(b, *self, set![PageField::Joined]),
            decreases next@.len() - k,
        {
            let tag = &next[k].tag;
            assert(tags.take(k as int + 1).drop_last() =~= tags.take(k as int));
            assert(tags.take(k as int + 1).last() == tag@);
            if !contains_text_item(&self.joined_tags, tag.as_str()) {
                let ghost jv = text_views(self.joined_tags@);
                self.joined_tags.push(tag.clone());
                assert(text_views(self.joined_tags@) =~= jv.push(tag@));
                push_action(&mut actions, PageAction::Send(PageRequest::JoinSession(tag.clone())));
                proof {
                    assert(sent.push(tag@).map_values(send) =~= sent.map_values(send).push(send(tag@)));
                    sent = sent.push(tag@);
                }
            }
            k = k + 1;
        }
        assert(tags.take(k as int) =~= tags);
        if self.selected_session_id.is_none() {
            let mut chosen: Option<String> = None;
            match &self.target_tag {
                Some(t) => {
                    match index_of_tag(&next, t.as_str()) {
                        Some(i) => {
                            proof {
                                let c = choose|c: int| first_tag_at(nv, t@, c);
                                lemma_first_tag_unique(nv, t@, i as int, c);
                            }
                            chosen = Some(next[i].id.clone());
                        },
                        None => {},
                    }
                },
                None => {},
            }
            if chosen.is_none() && next.len() > 0 {
                chosen = Some(next[0].id.clone());
            }
            self.selected_session_id = chosen;
        }
        self.sessions = next;
        self.sessions_loaded = true;
        actions
    }

    fn on_session_updated(&mut self, f: Option<SessionFields>)
        ensures
            page_reacted(*old(self), *final(self), PageNotice::SessionUpdated(f), Seq::empty()),
    {
        if self.sessions.len() > 0 {
            match &f {
                Some(fields) => {
                    match summary_from_fields(fields) {
                        Some(s) => {
                            let ghost sv = summary_views(self.sessions@);
                            let ghost s_view = s@;
                            match index_of_id(&self.sessions, s.id.as_str()) {
                                Some(i) => {
                                    proof {
                                        let c = choose|c: int| first_id_at(sv, s_view.id, c);
                                        lemma_first_id_unique(sv, s_view.id, i as int, c);
                                    }
                                    let cur = &self.sessions[i];
                                    let updated = SessionSummary {
                                        id: cur.id.clone(),
                                        tag: s.tag,
                                        status: s.status,
                                        cwd: s.cwd,
                                        machine_id: cur.machine_id.clone(),
                                        machine_name: s.machine_name,
                                        is_online: cur.is_online,
                                    };
                                    let ghost uv = updated@;
                                    self.sessions.set(i, updated);
                                    assert(summary_views(self.sessions@) =~= sv.update(i as int, uv));
                                },
                                None => {
                                    self.sessions.push(s);
                                    assert(summary_views(self.sessions@) =~= sv.push(s_view));
                                },
                            }
                        },
                        None => {},
                    }
                },
                None => {},
            }
        }
    }

    fn on_session_removed(&mut self, id: Option<String>)
        ensures
            page_reacted(*old(self), *final(self), PageNotice::SessionRemoved(id), Seq::empty()),
    {
        match &id {
            Some(id) => {
                let ghost sv = summary_views(self.sessions@);
                let ghost pred = |s: SessionSummaryView| s.id != id@;
                let mut r: Vec<SessionSummary> = Vec::new();
                let mut i: usize = 0;
                while i < self.sessions.len()
                    invariant
                        i <= self.sessions@.len(),
                        sv == summary_views(self.sessions@),
                        pred == (|s: SessionSummaryView| s.id != id@),
                        summary_views(r@) == sv.take(i as int).filter(pred),
                    decreases self.sessions@.len() - i,
                {
                    proof {
                        assert(sv.take(i as int + 1) =~= sv.take(i as int).push(sv[i as int]));
                        sv.take(i as int).lemma_filter_push(sv[i as int], pred);
                    }
                    if !str_eq(self.sessions[i].id.as_str(), id.as_str()) {
                        let c = self.sessions[i].copy();
                        let ghost prev = r@;
                        r.push(c);
                        assert(summary_views(r@) =~= summary_views(prev).push(sv[i as int]));
                    }
                    i = i + 1;
                }
                assert(sv.take(i as int) =~= sv);
                self.sessions = r;
            },
            None => {},
        }
    }

    fn on_terminal_history(&mut self, session_id: Option<String>, data: Option<Vec<u64>>)
        ensures
            page_reacted(*old(self), *final(self), PageNotice::TerminalHistory { session_id, data }, Seq::empty()),
    {
        match (&session_id, &data) {
            (Some(id), Some(d)) => {
                let bytes = low_bytes_exec(d);
                let text = decode_lossy(&bytes);
                let ghost m = self.terminal_buffers.map();
                self.terminal_buffers.insert(id.clone(), text);
                assert(self.terminal_buffers.map().dom() =~= m.dom().insert(id@));
            },
            _ => {},
        }
    }

    fn on_terminal_output(&mut self, session_id: Option<String>, data: Option<Vec<u64>>) -> (r: Vec<PageAction>)
        ensures
            page_reacted(*old(self), *final(self), PageNotice::TerminalOutput { session_id, data }, page_actions(r@)),
    {
        let mut actions: Vec<PageAction> = Vec::new();
        match (&session_id, &data) {
            (Some(id), Some(d)) => {
                let bytes = low_bytes_exec(d);
                let current = match &self.selected_session_id {
                    Some(s) => str_eq(s.as_str(), id.as_str()),
                    None => false,
                };
                if current {
                    push_action(&mut actions, PageAction::WriteToTerminal(crate::text::copy_bytes(bytes.as_slice())));
                    assert(page_actions(actions@) =~= seq![PageActionView::WriteToTerminal(bytes@)]);
                } else {
                    assert(page_actions(actions@) =~= Seq::<PageActionView>::empty());
                }
                let ghost m = self.terminal_buffers.map();
                let empty: Vec<u8> = Vec::new();
                let old_buf = match self.terminal_buffers.get(id.as_str()) {
                    Some(b) => crate::text::copy_bytes(b.as_slice()),
                    None => empty,
                };
                assert(old_buf@ == buffer_of(m, id@));
                let text = decode_lossy(&bytes);
                let nb = append_output(&old_buf, &text);
                self.terminal_buffers.insert(id.clone(), nb);
                assert(self.terminal_buffers.map().dom() =~= m.dom().insert(id@));
            },
            _ => {},
        }
        actions
    }
}


fn machine_reported_online(list: &Vec<MachineFields>, machine_id: &str) -> (r: bool)
    ensures
        r == reported_online(list@, machine_id@),
{
    let mut i: usize = 0;
    while i < list.len()
        invariant
            i <= list@.len(),
            forall|j: int| 0 <= j < i ==> #[trigger] machine_of_fields(list@[j]) != Some((machine_id@, list@[j].name->0@, true)),
        decreases list@.len() - i,
    {
        let m = &list[i];
        match (&m.id, &m.name, m.is_online) {
            (Some(id), Some(_), Some(true)) => {
                if str_eq(id.as_str(), machine_id) {
                    assert(machine_of_fields(list@[i as int]) == Some((machine_id@, list@[i as int].name->0@, true)));
                    return true;
                }
            },
            _ => {},
        }
        i = i + 1;
    }
    false
}

fn machines_from(list: &Vec<MachineFields>) -> (r: Vec<MachineInfo>)
    ensures
        machine_views(r@) == machines_of(list@),
{
    let ghost parsed = list@.map_values(|f: MachineFields| machine_of_fields(f));
    let ghost keep = |o: Option<(Seq<char>, Seq<char>, bool)>| o is Some;
    let ghost pick = |o: Option<(Seq<char>, Seq<char>, bool)>| { let t = o->0; (t.0, t.1) };
    let mut r: Vec<MachineInfo> = Vec::new();
    let mut i: usize = 0;
    while i < list.len()
        invariant
            i <= list@.len(),
            parsed == list@.map_values(|f: MachineFields| machine_of_fields(f)),
            keep == (|o: Option<(Seq<char>, Seq<char>, bool)>| o is Some),
            pick == (|o: Option<(Seq<char>, Seq<char>, bool)>| { let t = o->0; (t.0, t.1) }),
            machine_views(r@) == parsed.take(i as int).filter(keep).map_values(pick),
        decreases list@.len() - i,
    {
        proof {
            assert(parsed.take(i as int + 1) =~= parsed.take(i as int).push(parsed[i as int]));
            parsed.take(i as int).lemma_filter_push(parsed[i as int], keep);
        }
        let m = &list[i];
        match (&m.id, &m.name, m.is_online) {
            (Some(id), Some(name), Some(_)) => {
                let ghost prev = r@;
                r.push(MachineInfo { id: id.clone(), name: name.clone() });
                assert(machine_views(r@) =~= machine_views(prev).push((id@, name@)));
                assert(parsed.take(i as int + 1).filter(keep).map_values(pick) =~=
                    parsed.take(i as int).filter(keep).map_values(pick).push((id@, name@)));
            },
            _ => {},
        }
        i = i + 1;
    }
    assert(parsed.take(i as int) =~= parsed);
    r
}

impl TerminalPage {
    fn on_machine_list(&mut self, list: Option<Vec<MachineFields>>)
        ensures
            page_reacted(*old(self), *final(self), PageNotice::MachineList(list), Seq::empty()),
    {
        match &list {
            Some(l) => {
                self.machines = machines_from(l);
                let ghost sv = summary_views(self.sessions@);
                let mut next: Vec<SessionSummary> = Vec::new();
                let mut i: usize = 0;
                while i < self.sessions.len()
                    invariant
                        i <= self.sessions@.len(),
                        sv == summary_views(self.sessions@),
                        summary_views(next@) == with_online(sv.take(i as int), l@),
                    decreases self.sessions@.len() - i,
                {
                    let mut c = self.sessions[i].copy();
                    c.is_online = machine_reported_online(l, c.machine_id.as_str());
                    let ghost prev = next@;
                    let ghost cv = c@;
                    next.push(c);
                    assert(summary_views(next@) =~= summary_views(prev).push(cv));
                    assert(with_online(sv.take(i as int + 1), l@) =~= with_online(sv.take(i as int), l@).push(cv));
                    i = i + 1;
                }
                assert(sv.take(i as int) =~= sv);
                self.sessions = next;
            },
            None => {},
        }
    }

    fn on_git_status(
        &mut self,
        session_id: Option<String>,
        branch: Option<String>,
        ahead: Option<u64>,
        behind: Option<u64>,
        modified: Vec<FileFields>,
        staged: Vec<FileFields>,
        untracked: Vec<String>,
        conflicts: Vec<String>,
    )
        ensures
            page_reacted(*old(self), *final(self),
                PageNotice::GitStatus { session_id, branch, ahead, behind, modified, staged, untracked, conflicts }, Seq::empty()),
    {
        match (&session_id, &branch) {
            (Some(_), Some(br)) => {
                let a: u64 = match ahead { Some(n) => n, None => 0 };
                let b: u64 = match behind { Some(n) => n, None => 0 };
                self.git_status = Some(GitStatusInfo {
                    branch: br.clone(),
                    ahead: a as u32,
                    behind: b as u32,
                    modified: files_from(&modified),
                    staged: files_from(&staged),
                    untracked: copy_texts(&untracked),
                    conflicts: copy_texts(&conflicts),
                });
            },
            _ => {},
        }
    }

    /// Reacts to a message of the server.
    pub fn on_message(&mut self, notice: PageNotice) -> (r: Vec<PageAction>)
        ensures
            page_reacted(*old(self), *final(self), notice, page_actions(r@)),
    {
        let empty: Vec<PageAction> = Vec::new();
        assert(page_actions(empty@) =~= Seq::<PageActionView>::empty());
        match notice {
            PageNotice::Authenticated => {
                self.ws_status = owned("Connected");
                empty
            },
            PageNotice::SessionsList(list) => self.on_sessions_list(list),
            PageNotice::SessionUpdated(f) => {
                self.on_session_updated(f);
                empty
            },
            PageNotice::SessionRemoved(id) => {
                self.on_session_removed(id);
                empty
            },
            PageNotice::TerminalHistory { session_id, data } => {
                self.on_terminal_history(session_id, data);
                empty
            },
            PageNotice::TerminalOutput { session_id, data } => self.on_terminal_output(session_id, data),
            PageNotice::Error { code } => {
                let mut actions = empty;
                match &code {
                    Some(c) => {
                        if str_eq(c.as_str(), "auth_failed") || str_eq(c.as_str(), "not_authenticated") {
                            push_action(&mut actions, PageAction::Logout);
                            assert(page_actions(actions@) =~= seq![PageActionView::Logout]);
                        }
                    },
                    None => {},
                }
                actions
            },
            PageNotice::GitStatus { session_id, branch, ahead, behind, modified, staged, untracked, conflicts } => {
                self.on_git_status(session_id, branch, ahead, behind, modified, staged, untracked, conflicts);
                empty
            },
            PageNotice::GitDiff { session_id, path, diff } => {
                match (&session_id, &path, &diff) {
                    (Some(_), Some(_), Some(d)) => {
                        self.file_diff = Some(d.clone());
                    },
                    _ => {},
                }
                empty
            },
            PageNotice::GitCommitResult { session_id, success } => {
                let mut actions = empty;
                match (&session_id, success) {
                    (Some(id), Some(true)) => {
                        self.commit_message = String::new();
                        self.show_commit_modal = false;
                        push_action(&mut actions, PageAction::Send(PageRequest::GetGitStatus(id.clone())));
                        assert(page_actions(actions@) =~= seq![PageActionView::Send(PageRequestView::GetGitStatus(id@))]);
                    },
                    _ => {},
                }
                actions
            },
            PageNotice::RemoteSessionResponse { success, session_id, session_tag } => {
                let mut actions = empty;
                match (success, &session_id, &session_tag) {
                    (Some(true), Some(id), Some(_)) => {
                        self.selected_session_id = Some(id.clone());
                        push_action(&mut actions, PageAction::Send(PageRequest::ListSessions));
                        assert(page_actions(actions@) =~= seq![PageActionView::Send(PageRequestView::ListSessions)]);
                    },
                    _ => {},
                }
                actions
            },
            PageNotice::MachineList(list) => {
                self.on_machine_list(list);
                empty
            },
            PageNotice::Other => empty,
        }
    }
}


/// A key of the on-screen keyboard.
#[derive(Debug, Clone, Copy, PartialEq, Eq, Structural)]
pub enum VirtualKey {
    Up,
    Down,
    Left,
    Right,
    Enter,
}

/// The sequence a terminal receives for a key: ANSI arrows, and a carriage return for Enter.
pub open spec fn key_text(k: VirtualKey) -> Seq<char> {
    match k {
        VirtualKey::Up => "\x1b[A"@,
        VirtualKey::Down => "\x1b[B"@,
        VirtualKey::Left => "\x1b[D"@,
        VirtualKey::Right => "\x1b[C"@,
        VirtualKey::Enter => "\r"@,
    }
}

/// The sequence a terminal receives for a key.
pub fn key_sequence(k: VirtualKey) -> (r: &'static str)
    ensures
        r@ == key_text(k),
{
    match k {
        VirtualKey::Up => "\x1b[A",
        VirtualKey::Down => "\x1b[B",
        VirtualKey::Left => "\x1b[D",
        VirtualKey::Right => "\x1b[C",
        VirtualKey::Enter => "\r",
    }
}

/// The style class of a listed session's status.
pub open spec fn status_class_of(status: Seq<char>) -> Seq<char> {
    if status == "running"@ {
        "running"@
    } else if status == "initializing"@ {
        "initializing"@
    } else if status == "terminated"@ {
        "exited"@
    } else {
        ""@
    }
}

/// The style class of a listed session's status.
pub fn session_status_class(status: &str) -> (r: &'static str)
    ensures
        r@ == status_class_of(status@),
{
    if str_eq(status, "running") {
        "running"
    } else if str_eq(status, "initializing") {
        "initializing"
    } else if str_eq(status, "terminated") {
        "exited"
    } else {
        ""
    }
}

/// The selection, as its view.
pub open spec fn selected_of(p: TerminalPage) -> Option<Seq<char>> {
    opt_str_view(p.selected_session_id)
}

impl TerminalPage {
    /// The address fragment changed: select the first session of its tag (when
    /// one is listed), or nothing when the fragment names no tag.
    pub fn on_hash_change(&mut self, hash: &str)
        ensures
            selected_of(*final(self)) == match tag_of_hash(hash@) {
                Some(t) => if has_tag(summary_views(old(self).sessions@), t) {
                    Some(id_of_tag(summary_views(old(self).sessions@), t))
                } else {
                    selected_of(*old(self))
                },
                None => None,
            },
            keeps(*old(self), *final(self), set![PageField::Selected]),
    {
        let ghost sv = summary_views(self.sessions@);
        match tag_from_hash(hash) {
            Some(t) => {
                match index_of_tag(&self.sessions, t.as_str()) {
                    Some(i) => {
                        proof {
                            let c = choose|c: int| first_tag_at(sv, t@, c);
                            lemma_first_tag_unique(sv, t@, i as int, c);
                        }
                        self.selected_session_id = Some(self.sessions[i].id.clone());
                    },
                    None => {},
                }
            },
            None => {
                self.selected_session_id = None;
            },
        }
    }

    /// Bytes typed into the terminal go to the selected session.
    pub fn on_terminal_input(&self, data: Vec<u8>) -> (r: Vec<PageAction>)
        ensures
            page_actions(r@) == match selected_of(*self) {
                Some(id) => seq![PageActionView::Send(PageRequestView::TerminalInput { session_id: id, data: data@ })],
                None => Seq::empty(),
            },
    {
        let mut r: Vec<PageAction> = Vec::new();
        match &self.selected_session_id {
            Some(id) => {
                push_action(&mut r, PageAction::Send(PageRequest::TerminalInput { session_id: id.clone(), data }));
                assert(page_actions(r@) =~= seq![PageActionView::Send(PageRequestView::TerminalInput { session_id: id@, data: data@ })]);
            },
            None => {
                assert(page_actions(r@) =~= Seq::<PageActionView>::empty());
            },
        }
        r
    }

    /// A key of the on-screen keyboard.
    pub fn on_virtual_key(&self, k: VirtualKey) -> (r: PageAction)
        ensures
            r@ == PageActionView::SendKey(key_text(k)),
    {
        PageAction::SendKey(owned(key_sequence(k)))
    }

    /// The text of the input line changed.
    pub fn on_input(&mut self, value: String)
        ensures
            final(self).input_value@ == value@,
            keeps(*old(self), *final(self), set![PageField::Input]),
    {
        self.input_value = value;
    }

    /// The input line was submitted: its text without surrounding white space,
    /// when there is some and a session is selected, goes to that session
    /// followed by a newline, and the line is cleared.
    pub fn on_send(&mut self) -> (r: Vec<PageAction>)
        ensures
            ({
                let text = trim_spec(old(self).input_value@);
                if text.len() > 0 && selected_of(*old(self)) is Some {
                    &&& page_actions(r@) == seq![PageActionView::Send(PageRequestView::TerminalInput {
                        session_id: selected_of(*old(self))->0,
                        data: encode_utf8(text + "\n"@),
                    })]
                    &&& final(self).input_value@.len() == 0
                    &&& keeps(*old(self), *final(self), set![PageField::Input])
                } else {
                    &&& page_actions(r@).len() == 0
                    &&& keeps(*old(self), *final(self), Set::empty())
                }
            }),
    {
        let mut r: Vec<PageAction> = Vec::new();
        let text = trim(self.input_value.as_str());
        if text.as_str().unicode_len() == 0 {
            return r;
        }
        match &self.selected_session_id {
            Some(id) => {
                let line = concat(text.as_str(), "\n");
                let data = crate::text::copy_bytes(line.as_str().as_bytes());
                push_action(&mut r, PageAction::Send(PageRequest::TerminalInput { session_id: id.clone(), data }));
                self.input_value = String::new();
            },
            None => {},
        }
        r
    }

    /// Back to the session list on a small screen.
    pub fn on_back(&mut self)
        ensures
            final(self).mobile_view == MobileView::SessionList,
            keeps(*old(self), *final(self), set![PageField::Mobile]),
    {
        self.mobile_view = MobileView::SessionList;
    }

    /// Opens or closes the git panel; opening it asks for the git state of the
    /// selected session.
    pub fn on_toggle_git_panel(&mut self) -> (r: Vec<PageAction>)
        ensures
            final(self).show_git_panel == !old(self).show_git_panel,
            opt_str_view(final(self).selected_file) == opt_str_view(old(self).selected_file),
            final(self).show_scroll_to_bottom == old(self).show_scroll_to_bottom,
            page_actions(r@) == (if final(self).show_git_panel && selected_of(*old(self)) is Some {
                seq![PageActionView::Send(PageRequestView::GetGitStatus(selected_of(*old(self))->0))]
            } else {
                Seq::empty()
            }),
            keeps(*old(self), *final(self), set![PageField::GitPanel]),
    {
        let mut r: Vec<PageAction> = Vec::new();
        self.show_git_panel = !self.show_git_panel;
        if self.show_git_panel {
            match &self.selected_session_id {
                Some(id) => {
                    push_action(&mut r, PageAction::Send(PageRequest::GetGitStatus(id.clone())));
                },
                None => {},
            }
        }
        r
    }

    /// A file of the git panel was chosen: ask for its diff.
    pub fn on_select_file(&mut self, path: String) -> (r: Vec<PageAction>)
        ensures
            opt_str_view(final(self).selected_file) == Some(path@),
            final(self).show_git_panel == old(self).show_git_panel,
            final(self).show_scroll_to_bottom == old(self).show_scroll_to_bottom,
            page_actions(r@) == match selected_of(*old(self)) {
                Some(id) => seq![PageActionView::Send(PageRequestView::GetGitDiff { session_id: id, path: path@ })],
                None => Seq::empty(),
            },
            keeps(*old(self), *final(self), set![PageField::GitPanel]),
    {
        let mut r: Vec<PageAction> = Vec::new();
        match &self.selected_session_id {
            Some(id) => {
                push_action(&mut r, PageAction::Send(PageRequest::GetGitDiff { session_id: id.clone(), path: path.clone() }));
            },
            None => {},
        }
        self.selected_file = Some(path);
        r
    }

    /// Opens the commit dialog, to amend the last commit or not.
    pub fn on_commit(&mut self, amend: bool)
        ensures
            final(self).is_amend == amend,
            final(self).show_commit_modal,
            final(self).commit_message@ == old(self).commit_message@,
            keeps(*old(self), *final(self), set![PageField::Commit]),
    {
        self.is_amend = amend;
        self.show_commit_modal = true;
    }

    /// The commit message changed.
    pub fn on_commit_message(&mut self, text: String)
        ensures
            final(self).commit_message@ == text@,
            final(self).show_commit_modal == old(self).show_commit_modal,
            final(self).is_amend == old(self).is_amend,
            keeps(*old(self), *final(self), set![PageField::Commit]),
    {
        self.commit_message = text;
    }

    /// Closes the commit dialog.
    pub fn on_cancel_commit(&mut self)
        ensures
            !final(self).show_commit_modal,
            final(self).commit_message@ == old(self).commit_message@,
            final(self).is_amend == old(self).is_amend,
            keeps(*old(self), *final(self), set![PageField::Commit]),
    {
        self.show_commit_modal = false;
    }

    /// Whether the commit button is disabled: a new commit needs a message.
    pub fn commit_disabled(&self) -> (r: bool)
        ensures
            r == (!self.is_amend && self.commit_message@.len() == 0),
    {
        !self.is_amend && self.commit_message.as_str().unicode_len() == 0
    }

    /// The commit dialog was submitted: commit in the selected session.
    pub fn on_submit_commit(&self) -> (r: Vec<PageAction>)
        ensures
            page_actions(r@) == match selected_of(*self) {
                Some(id) => seq![PageActionView::Send(PageRequestView::GitCommit {
                    session_id: id,
                    message: self.commit_message@,
                    amend: self.is_amend,
                })],
                None => Seq::empty(),
            },
    {
        let mut r: Vec<PageAction> = Vec::new();
        match &self.selected_session_id {
            Some(id) => {
                push_action(&mut r, PageAction::Send(PageRequest::GitCommit {
                    session_id: id.clone(),
                    message: self.commit_message.clone(),
                    amend: self.is_amend,
                }));
            },
            None => {},
        }
        assert(page_actions(r@) =~= match selected_of(*self) {
            Some(id) => seq![PageActionView::Send(PageRequestView::GitCommit {
                session_id: id,
                message: self.commit_message@,
                amend: self.is_amend,
            })],
            None => Seq::<PageActionView>::empty(),
        });
        r
    }

    /// Deletes a session: asks the server, drops the selection when it was that
    /// session, and closes the confirmation.
    pub fn on_delete_session(&mut self, session_id: String) -> (r: Vec<PageAction>)
        ensures
            page_actions(r@) == seq![PageActionView::Send(PageRequestView::DeleteSession(session_id@))],
            selected_of(*final(self)) == (if selected_of(*old(self)) == Some(session_id@) { None } else { selected_of(*old(self)) }),
            final(self).delete_confirm is None,
            keeps(*old(self), *final(self), set![PageField::Selected, PageField::DeleteConfirm]),
    {
        let mut r: Vec<PageAction> = Vec::new();
        let same = match &self.selected_session_id {
            Some(s) => str_eq(s.as_str(), session_id.as_str()),
            None => false,
        };
        if same {
            self.selected_session_id = None;
        }
        self.delete_confirm = None;
        push_action(&mut r, PageAction::Send(PageRequest::DeleteSession(session_id)));
        assert(page_actions(r@) =~= seq![PageActionView::Send(PageRequestView::DeleteSession(session_id@))]);
        r
    }

    /// A right click on a session opens its menu at the pointer.
    pub fn on_context_menu(&mut self, x: i32, y: i32, session_id: String, tag: String)
        ensures
            final(self).context_menu == Some((x, y, session_id, tag)),
            keeps(*old(self), *final(self), set![PageField::ContextMenu]),
    {
        self.context_menu = Some((x, y, session_id, tag));
    }

    /// A click anywhere closes the menu.
    pub fn on_page_click(&mut self)
        ensures
            final(self).context_menu is None,
            keeps(*old(self), *final(self), set![PageField::ContextMenu]),
    {
        self.context_menu = None;
    }

    /// The menu's delete item asks for a confirmation for its session.
    pub fn on_context_delete(&mut self)
        ensures
            final(self).context_menu is None,
            final(self).delete_confirm == match old(self).context_menu {
                Some((_, _, id, tag)) => Some((id, tag)),
                None => old(self).delete_confirm,
            },
            keeps(*old(self), *final(self), set![PageField::ContextMenu, PageField::DeleteConfirm]),
    {
        let mut menu: Option<(i32, i32, String, String)> = None;
        std::mem::swap(&mut menu, &mut self.context_menu);
        match menu {
            Some((_, _, id, tag)) => {
                self.delete_confirm = Some((id, tag));
            },
            None => {},
        }
    }

    /// The confirmation was cancelled.
    pub fn on_cancel_delete(&mut self)
        ensures
            final(self).delete_confirm is None,
            keeps(*old(self), *final(self), set![PageField::DeleteConfirm]),
    {
        self.delete_confirm = None;
    }

    /// A session of the list was chosen: select it, show the terminal, put its
    /// tag in the address, and join it when it is not joined yet and has not terminated.
    pub fn on_select_session(&mut self, session_id: String, tag: String, status: &str) -> (r: Vec<PageAction>)
        ensures
            selected_of(*final(self)) == Some(session_id@),
            final(self).mobile_view == MobileView::Terminal,
            ({
                let join = !text_views(old(self).joined_tags@).contains(tag@) && status@ != "terminated"@;
                &&& page_actions(r@) == if join {
                    seq![PageActionView::SetHash(tag@), PageActionView::Send(PageRequestView::JoinSession(tag@))]
                } else {
                    seq![PageActionView::SetHash(tag@)]
                }
                &&& text_views(final(self).joined_tags@) == if join {
                    text_views(old(self).joined_tags@).push(tag@)
                } else {
                    text_views(old(self).joined_tags@)
                }
            }),
            keeps(*old(self), *final(self), set![PageField::Selected, PageField::Mobile, PageField::Joined]),
    {
        let mut r: Vec<PageAction> = Vec::new();
        self.selected_session_id = Some(session_id);
        self.mobile_view = MobileView::Terminal;
        push_action(&mut r, PageAction::SetHash(tag.clone()));
        if !contains_text_item(&self.joined_tags, tag.as_str()) && !str_eq(status, "terminated") {
            let ghost jv = text_views(self.joined_tags@);
            self.joined_tags.push(tag.clone());
            assert(text_views(self.joined_tags@) =~= jv.push(tag@));
            push_action(&mut r, PageAction::Send(PageRequest::JoinSession(tag)));
        }
        r
    }

    /// Opens or closes the dialog that creates a session.
    pub fn set_create_modal(&mut self, open: bool)
        ensures
            final(self).show_create_modal == open,
            final(self).create_cwd@ == old(self).create_cwd@,
            final(self).create_machine@ == old(self).create_machine@,
            final(self).create_args@ == old(self).create_args@,
            keeps(*old(self), *final(self), set![PageField::Create]),
    {
        self.show_create_modal = open;
    }

    /// Sets the fields of the creation dialog: machine, directory and arguments.
    pub fn set_create_fields(&mut self, machine: String, cwd: String, args: String)
        ensures
            final(self).create_machine@ == machine@,
            final(self).create_cwd@ == cwd@,
            final(self).create_args@ == args@,
            final(self).show_create_modal == old(self).show_create_modal,
            keeps(*old(self), *final(self), set![PageField::Create]),
    {
        self.create_machine = machine;
        self.create_cwd = cwd;
        self.create_args = args;
    }

    /// The creation dialog was submitted: ask for a session on the chosen
    /// machine (the first listed one when none is chosen, `local` when there is
    /// none), with the directory and arguments when they are given; then close
    /// and clear the dialog.
    pub fn on_create_session(&mut self) -> (r: Vec<PageAction>)
        ensures
            ({
                let chosen = if old(self).create_machine@.len() == 0 && old(self).machines@.len() > 0 {
                    old(self).machines@[0].id@
                } else {
                    old(self).create_machine@
                };
                page_actions(r@) == seq![PageActionView::Send(PageRequestView::RequestRemoteSession {
                    machine_id: if chosen.len() == 0 { "local"@ } else { chosen },
                    cwd: if old(self).create_cwd@.len() == 0 { None } else { Some(old(self).create_cwd@) },
                    args: if old(self).create_args@.len() == 0 { None } else { Some(old(self).create_args@) },
                })]
            }),
            !final(self).show_create_modal,
            final(self).create_cwd@.len() == 0,
            final(self).create_machine@.len() == 0,
            final(self).create_args@.len() == 0,
            keeps(*old(self), *final(self), set![PageField::Create]),
    {
        let mut machine_id = self.create_machine.clone();
        if machine_id.as_str().unicode_len() == 0 && self.machines.len() > 0 {
            machine_id = self.machines[0].id.clone();
        }
        let machine_id = if machine_id.as_str().unicode_len() == 0 { owned("local") } else { machine_id };
        let cwd = if self.create_cwd.as_str().unicode_len() == 0 { None } else { Some(self.create_cwd.clone()) };
        let args = if self.create_args.as_str().unicode_len() == 0 { None } else { Some(self.create_args.clone()) };
        let mut r: Vec<PageAction> = Vec::new();
        push_action(&mut r, PageAction::Send(PageRequest::RequestRemoteSession { machine_id, cwd, args }));
        self.show_create_modal = false;
        self.create_cwd = String::new();
        self.create_machine = String::new();
        self.create_args = String::new();
        r
    }

    /// The terminal reports whether the user scrolled away from the end.
    pub fn on_scroll_state(&mut self, scrolled_up: bool)
        ensures
            final(self).show_scroll_to_bottom == scrolled_up,
            final(self).show_git_panel == old(self).show_git_panel,
            opt_str_view(final(self).selected_file) == opt_str_view(old(self).selected_file),
            keeps(*old(self), *final(self), set![PageField::GitPanel]),
    {
        self.show_scroll_to_bottom = scrolled_up;
    }

    /// The session whose git state is refreshed every twenty seconds: the
    /// selected one while the git panel is open.
    pub fn git_refresh_target(&self) -> (r: Option<String>)
        ensures
            opt_str_view(r) == (if self.show_git_panel { selected_of(*self) } else { None }),
    {
        if self.show_git_panel { copy_opt_string(&self.selected_session_id) } else { None }
    }

    /// The selected session, when it is listed.
    pub fn selected_session(&self) -> (r: Option<SessionSummary>)
        ensures
            match selected_of(*self) {
                Some(id) => match r {
                    Some(s) => has_id(summary_views(self.sessions@), id)
                        && s@ == summary_views(self.sessions@)[choose|i: int| first_id_at(summary_views(self.sessions@), id, i)],
                    None => !has_id(summary_views(self.sessions@), id),
                },
                None => r is None,
            },
    {
        let ghost sv = summary_views(self.sessions@);
        match &self.selected_session_id {
            Some(id) => match index_of_id(&self.sessions, id.as_str()) {
                Some(i) => {
                    proof {
                        let c = choose|c: int| first_id_at(sv, id@, c);
                        lemma_first_id_unique(sv, id@, i as int, c);
                    }
                    Some(self.sessions[i].copy())
                },
                None => None,
            },
            None => None,
        }
    }

    /// Whether the address names a session that is not listed.
    pub fn target_session_missing(&self) -> (r: bool)
        ensures
            r == match opt_str_view(self.target_tag) {
                Some(t) => !has_tag(summary_views(self.sessions@), t),
                None => false,
            },
    {
        match &self.target_tag {
            Some(t) => index_of_tag(&self.sessions, t.as_str()).is_none(),
            None => false,
        }
    }

    /// The bytes to show in the terminal: the buffer of the selected session.
    pub fn terminal_content(&self) -> (r: Vec<u8>)
        ensures
            r@ == match selected_of(*self) {
                Some(id) => buffer_of(self.terminal_buffers.map(), id),
                None => Seq::empty(),
            },
    {
        match &self.selected_session_id {
            Some(id) => match self.terminal_buffers.get(id.as_str()) {
                Some(b) => crate::text::copy_bytes(b.as_slice()),
                None => Vec::new(),
            },
            None => Vec::new(),
        }
    }

    /// The style classes of the list and the terminal: a small screen hides the one not shown.
    pub fn layout_classes(&self) -> (r: (&'static str, &'static str))
        ensures
            r.0@ == (if self.mobile_view == MobileView::SessionList { "chat-sidebar"@ } else { "chat-sidebar mobile-hidden"@ }),
            r.1@ == (if self.mobile_view == MobileView::Terminal { "chat-panel"@ } else { "chat-panel mobile-hidden"@ }),
    {
        let side = if self.mobile_view == MobileView::SessionList { "chat-sidebar" } else { "chat-sidebar mobile-hidden" };
        let panel = if self.mobile_view == MobileView::Terminal { "chat-panel" } else { "chat-panel mobile-hidden" };
        (side, panel)
    }

    /// The header of the terminal: the selected session's tag (`Unknown` when it
    /// is not listed) and the first eight characters of its id in brackets.
    pub fn terminal_header(&self) -> (r: (String, String))
        ensures
            ({
                let id = match selected_of(*self) { Some(i) => i, None => Seq::empty() };
                let sv = summary_views(self.sessions@);
                &&& r.0@ == (if has_id(sv, id) { sv[choose|i: int| first_id_at(sv, id, i)].tag } else { "Unknown"@ })
                &&& r.1@ == "("@ + (if id.len() <= 8 { id } else { id.take(8) }) + ")"@
            }),
    {
        let ghost sv = summary_views(self.sessions@);
        let id = match &self.selected_session_id {
            Some(i) => i.clone(),
            None => String::new(),
        };
        let tag = match index_of_id(&self.sessions, id.as_str()) {
            Some(i) => {
                proof {
                    let c = choose|c: int| first_id_at(sv, id@, c);
                    lemma_first_id_unique(sv, id@, i as int, c);
                }
                self.sessions[i].tag.clone()
            },
            None => owned("Unknown"),
        };
        let short = first_chars(id.as_str(), 8);
        let a = concat("(", short.as_str());
        (tag, concat(a.as_str(), ")"))
    }

    /// The badge of the git button: the number of modified and staged files
    /// (wrapping around past the largest `usize`), shown when there are some.
    pub fn git_badge(&self) -> (r: Option<usize>)
        ensures
            r == match self.git_status {
                Some(g) => if g.modified@.len() > 0 || g.staged@.len() > 0 {
                    let sum = g.modified@.len() + g.staged@.len();
                    Some(if sum <= usize::MAX { sum as usize } else { (sum - usize::MAX - 1) as usize })
                } else {
                    None
                },
                None => None,
            },
    {
        match &self.git_status {
            Some(g) => {
                if g.modified.len() > 0 || g.staged.len() > 0 {
                    if g.modified.len() <= usize::MAX - g.staged.len() {
                        Some(g.modified.len() + g.staged.len())
                    } else {
                        Some(g.modified.len() - (usize::MAX - g.staged.len()) - 1)
                    }
                } else {
                    None
                }
            },
            None => None,
        }
    }
}


/// The machine a session is grouped under: its machine name, or `unknown`.
pub open spec fn machine_key(s: SessionSummaryView) -> Seq<char> {
    if s.machine_name.len() == 0 { "unknown"@ } else { s.machine_name }
}

/// Whether a session belongs to machine `m` and folder `f`.
pub open spec fn in_group(m: Seq<char>, f: Seq<char>) -> spec_fn(SessionSummaryView) -> bool {
    |s: SessionSummaryView| machine_key(s) == m && folder_of(s.cwd) == f
}

/// The order of sessions in a folder: running ones first, then by tag.
pub open spec fn listing_key(s: SessionSummaryView) -> SortKeyView {
    SortKeyView { rank: if s.status == "running"@ { 0 } else { 1 }, text: s.tag }
}

/// The listing keys of a list of sessions.
pub open spec fn listing_keys(ss: Seq<SessionSummaryView>) -> Seq<SortKeyView> {
    ss.map_values(|s: SessionSummaryView| listing_key(s))
}

/// `out` is `src` in a stable order by listing key.
pub open spec fn listed_in_order(src: Seq<SessionSummaryView>, out: Seq<SessionSummaryView>) -> bool {
    exists|order: Seq<int>| #[trigger] is_stable_order(listing_keys(src), order) && out == order.map_values(|i: int| src[i])
}

/// Names that occur once each, in lexicographic order.
pub open spec fn names_in_order(names: Seq<Seq<char>>) -> bool {
    &&& forall|i: int, j: int| 0 <= i < j < names.len() ==> names[i] != names[j]
    &&& forall|i: int| 0 <= i < names.len() - 1 ==> !text_lt(#[trigger] names[i + 1], names[i])
}

/// A folder of a machine group, with its sessions.
#[derive(Debug, Clone)]
pub struct FolderGroup {
    pub folder: String,
    pub sessions: Vec<SessionSummary>,
}

/// The sessions of one machine, by folder.
#[derive(Debug, Clone)]
pub struct MachineGroup {
    pub machine: String,
    pub folders: Vec<FolderGroup>,
}

/// The mathematical value of a folder group.
pub struct FolderGroupView {
    pub folder: Seq<char>,
    pub sessions: Seq<SessionSummaryView>,
}

/// The mathematical value of a machine group.
pub struct MachineGroupView {
    pub machine: Seq<char>,
    pub folders: Seq<FolderGroupView>,
}

impl View for FolderGroup {
    type V = FolderGroupView;

    open spec fn view(&self) -> FolderGroupView {
        FolderGroupView { folder: self.folder@, sessions: summary_views(self.sessions@) }
    }
}

impl View for MachineGroup {
    type V = MachineGroupView;

    open spec fn view(&self) -> MachineGroupView {
        MachineGroupView { machine: self.machine@, folders: self.folders@.map_values(|f: FolderGroup| f@) }
    }
}

/// Whether a group has a folder of this name.
pub open spec fn has_folder(g: MachineGroupView, f: Seq<char>) -> bool {
    exists|j: int| 0 <= j < g.folders.len() && #[trigger] g.folders[j].folder == f
}

/// Whether there is a group of this machine.
pub open spec fn has_machine(gs: Seq<MachineGroupView>, m: Seq<char>) -> bool {
    exists|i: int| 0 <= i < gs.len() && #[trigger] gs[i].machine == m
}

/// A machine group lists, once each and in order, the folders of the
/// machine's sessions, each with its sessions in listing order.
pub open spec fn group_ok(ss: Seq<SessionSummaryView>, g: MachineGroupView) -> bool {
    &&& names_in_order(g.folders.map_values(|f: FolderGroupView| f.folder))
    &&& forall|k: int| 0 <= k < ss.len() && machine_key(#[trigger] ss[k]) == g.machine ==> has_folder(g, folder_of(ss[k].cwd))
    &&& forall|j: int| 0 <= j < g.folders.len() ==> (#[trigger] g.folders[j]).sessions.len() > 0
        && listed_in_order(ss.filter(in_group(g.machine, g.folders[j].folder)), g.folders[j].sessions)
}

/// Some listed session runs on machine `m`.
pub open spec fn has_machine_session(ss: Seq<SessionSummaryView>, m: Seq<char>) -> bool {
    exists|k: int| 0 <= k < ss.len() && machine_key(#[trigger] ss[k]) == m
}

/// The groups list, once each and in order, the machines of the sessions and
/// no other, each grouped by folder with at least one folder.
pub open spec fn grouped(ss: Seq<SessionSummaryView>, gs: Seq<MachineGroupView>) -> bool {
    &&& names_in_order(gs.map_values(|g: MachineGroupView| g.machine))
    &&& forall|k: int| 0 <= k < ss.len() ==> has_machine(gs, machine_key(#[trigger] ss[k]))
    &&& forall|i: int| 0 <= i < gs.len() ==> group_ok(ss, #[trigger] gs[i])
    &&& forall|i: int| 0 <= i < gs.len() ==> (#[trigger] gs[i]).folders.len() > 0 && has_machine_session(ss, gs[i].machine)
}

/// The texts of `v` once each, in the order they first occur.
fn distinct_texts(v: &Vec<String>) -> (r: Vec<String>)
    ensures
        forall|i: int, j: int| 0 <= i < j < r@.len() ==> r@[i]@ != r@[j]@,
        forall|i: int| 0 <= i < r@.len() ==> text_views(v@).contains(#[trigger] r@[i]@),
        forall|k: int| 0 <= k < v@.len() ==> text_views(r@).contains(#[trigger] v@[k]@),
{
    let mut r: Vec<String> = Vec::new();
    let mut k: usize = 0;
    while k < v.len()
        invariant
            k <= v@.len(),
            forall|i: int, j: int| 0 <= i < j < r@.len() ==> r@[i]@ != r@[j]@,
            forall|i: int| 0 <= i < r@.len() ==> text_views(v@).contains(#[trigger] r@[i]@),
            forall|q: int| 0 <= q < k ==> text_views(r@).contains(#[trigger] v@[q]@),
        decreases v@.len() - k,
    {
        if !contains_text_item(&r, v[k].as_str()) {
            let ghost prev = r@;
            r.push(v[k].clone());
            proof {
                assert(text_views(v@)[k as int] == v@[k as int]@);
                assert forall|q: int| 0 <= q < k + 1 implies text_views(r@).contains(#[trigger] v@[q]@) by {
                    if q < k {
                        let w = choose|w: int| 0 <= w < text_views(prev).len() && text_views(prev)[w] == v@[q]@;
                        assert(text_views(r@)[w] == v@[q]@);
                    } else {
                        assert(text_views(r@)[prev.len() as int] == v@[q]@);
                    }
                }
                assert forall|i: int, j: int| 0 <= i < j < r@.len() implies r@[i]@ != r@[j]@ by {
                    if j == prev.len() {
                        assert(text_views(prev)[i] == prev[i]@);
                    }
                }
            }
        } else {
            assert(text_views(r@).contains(v@[k as int]@));
        }
        k = k + 1;
    }
    r
}

/// Distinct names in lexicographic order.
fn sorted_names(v: Vec<String>) -> (r: Vec<String>)
    requires
        forall|i: int, j: int| 0 <= i < j < v@.len() ==> v@[i]@ != v@[j]@,
    ensures
        names_in_order(text_views(r@)),
        forall|i: int| 0 <= i < r@.len() ==> text_views(v@).contains(#[trigger] r@[i]@),
        forall|k: int| 0 <= k < v@.len() ==> text_views(r@).contains(#[trigger] v@[k]@),
{
    let mut keys: Vec<SortKey> = Vec::new();
    let mut i: usize = 0;
    while i < v.len()
        invariant
            i <= v@.len(),
            keys@.len() == i,
            forall|j: int| 0 <= j < i ==> #[trigger] keys@[j]@ == (SortKeyView { rank: 0, text: v@[j]@ }),
        decreases v@.len() - i,
    {
        keys.push(SortKey { rank: 0, text: v[i].clone() });
        i = i + 1;
    }
    let ghost ks = keys@.map_values(|k: SortKey| k@);
    let order = stable_order(&keys);
    let ghost os = order@.map_values(|i: usize| i as int);
    let mut r: Vec<String> = Vec::new();
    let mut p: usize = 0;
    while p < order.len()
        invariant
            p <= order@.len(),
            order@.len() == v@.len(),
            ks == keys@.map_values(|k: SortKey| k@),
            keys@.len() == v@.len(),
            forall|j: int| 0 <= j < v@.len() ==> #[trigger] keys@[j]@ == (SortKeyView { rank: 0, text: v@[j]@ }),
            os == order@.map_values(|i: usize| i as int),
            is_stable_order(ks, os),
            r@.len() == p,
            forall|q: int| 0 <= q < p ==> #[trigger] r@[q]@ == v@[os[q]]@,
        decreases order@.len() - p,
    {
        assert(0 <= os[p as int] < ks.len());
        r.push(v[order[p]].clone());
        p = p + 1;
    }
    proof {
        assert forall|a: int| 0 <= a < r@.len() - 1 implies !text_lt(#[trigger] text_views(r@)[a + 1], text_views(r@)[a]) by {
            lemma_goes_before_key(ks, os[a], os[a + 1]);
            assert(ks[os[a]] == keys@[os[a]]@);
            assert(ks[os[a + 1]] == keys@[os[a + 1]]@);
        }
        assert forall|a: int, b: int| 0 <= a < b < text_views(r@).len() implies text_views(r@)[a] != text_views(r@)[b] by {
            assert(os[a] != os[b]);
        }
        assert forall|q: int| 0 <= q < r@.len() implies text_views(v@).contains(#[trigger] r@[q]@) by {
            assert(text_views(v@)[os[q]] == r@[q]@);
        }
        assert forall|k: int| 0 <= k < v@.len() implies text_views(r@).contains(#[trigger] v@[k]@) by {
            assert(os.contains(k));
            let q = choose|q: int| 0 <= q < os.len() && os[q] == k;
            assert(text_views(r@)[q] == v@[k]@);
        }
    }
    r
}

fn listing_sort_key(s: &SessionSummary) -> (r: SortKey)
    ensures
        r@ == listing_key(s@),
{
    SortKey { rank: if str_eq(s.status.as_str(), "running") { 0 } else { 1 }, text: s.tag.clone() }
}

/// Sessions in listing order: running ones first, then by tag, ties kept in order.
pub fn order_listing(src: &Vec<SessionSummary>) -> (r: Vec<SessionSummary>)
    ensures
        listed_in_order(summary_views(src@), summary_views(r@)),
{
    let ghost sv = summary_views(src@);
    let mut keys: Vec<SortKey> = Vec::new();
    let mut i: usize = 0;
    while i < src.len()
        invariant
            i <= src@.len(),
            sv == summary_views(src@),
            keys@.len() == i,
            forall|j: int| 0 <= j < i ==> #[trigger] keys@[j]@ == listing_key(sv[j]),
        decreases src@.len() - i,
    {
        keys.push(listing_sort_key(&src[i]));
        i = i + 1;
    }
    let ghost ks = listing_keys(sv);
    assert(keys@.map_values(|k: SortKey| k@) =~= ks);
    let order = stable_order(&keys);
    let ghost os = order@.map_values(|i: usize| i as int);
    let mut out: Vec<SessionSummary> = Vec::new();
    let mut p: usize = 0;
    while p < order.len()
        invariant
            p <= order@.len(),
            order@.len() == src@.len(),
            sv == summary_views(src@),
            os == order@.map_values(|i: usize| i as int),
            is_stable_order(ks, os),
            summary_views(out@) == os.take(p as int).map_values(|i: int| sv[i]),
        decreases order@.len() - p,
    {
        assert(0 <= os[p as int] < ks.len());
        let c = src[order[p]].copy();
        let ghost prev = out@;
        out.push(c);
        assert(summary_views(out@) =~= summary_views(prev).push(c@));
        assert(os.take(p as int + 1).map_values(|i: int| sv[i]) =~= os.take(p as int).map_values(|i: int| sv[i]).push(sv[os[p as int]]));
        p = p + 1;
    }
    assert(os.take(p as int) =~= os);
    assert(is_stable_order(listing_keys(sv), os));
    out
}


fn machine_key_exec(s: &SessionSummary) -> (r: String)
    ensures
        r@ == machine_key(s@),
{
    if s.machine_name.as_str().unicode_len() == 0 { owned("unknown") } else { s.machine_name.clone() }
}

/// The sessions of machine `m` in folder `f`, in list order.
fn sessions_in(ss: &Vec<SessionSummary>, m: &str, f: &str) -> (r: Vec<SessionSummary>)
    ensures
        summary_views(r@) == summary_views(ss@).filter(in_group(m@, f@)),
{
    let ghost sv = summary_views(ss@);
    let ghost pred = in_group(m@, f@);
    let mut r: Vec<SessionSummary> = Vec::new();
    let mut i: usize = 0;
    while i < ss.len()
        invariant
            i <= ss@.len(),
            sv == summary_views(ss@),
            pred == in_group(m@, f@),
            summary_views(r@) == sv.take(i as int).filter(pred),
        decreases ss@.len() - i,
    {
        proof {
            assert(sv.take(i as int + 1) =~= sv.take(i as int).push(sv[i as int]));
            sv.take(i as int).lemma_filter_push(sv[i as int], pred);
        }
        let mk = machine_key_exec(&ss[i]);
        let folder = ss[i].folder_name();
        if str_eq(mk.as_str(), m) && str_eq(folder.as_str(), f) {
            let c = ss[i].copy();
            let ghost prev = r@;
            r.push(c);
            assert(summary_views(r@) =~= summary_views(prev).push(sv[i as int]));
        }
        i = i + 1;
    }
    assert(sv.take(i as int) =~= sv);
    r
}

/// Whether some session belongs to machine `m` and folder `f`.
pub open spec fn has_session_in(ss: Seq<SessionSummaryView>, m: Seq<char>, f: Seq<char>) -> bool {
    exists|k: int| 0 <= k < ss.len() && #[trigger] in_group(m, f)(ss[k])
}

/// The folders of the sessions of machine `m`, once each and in order.
fn folders_of_machine(ss: &Vec<SessionSummary>, m: &str) -> (r: Vec<String>)
    ensures
        names_in_order(text_views(r@)),
        forall|i: int| 0 <= i < r@.len() ==> has_session_in(summary_views(ss@), m@, #[trigger] r@[i]@),
        forall|k: int| 0 <= k < ss@.len() && machine_key(#[trigger] ss@[k]@) == m@ ==> text_views(r@).contains(folder_of(ss@[k]@.cwd)),
{
    let mut fl: Vec<String> = Vec::new();
    let ghost mut src: Seq<int> = Seq::empty();
    let mut k: usize = 0;
    while k < ss.len()
        invariant
            k <= ss@.len(),
            src.len() == fl@.len(),
            forall|i: int| 0 <= i < fl@.len() ==> 0 <= #[trigger] src[i] < k && machine_key(ss@[src[i]]@) == m@
                && folder_of(ss@[src[i]]@.cwd) == fl@[i]@,
            forall|q: int| 0 <= q < k && machine_key(#[trigger] ss@[q]@) == m@ ==> text_views(fl@).contains(folder_of(ss@[q]@.cwd)),
        decreases ss@.len() - k,
    {
        let mk = machine_key_exec(&ss[k]);
        if str_eq(mk.as_str(), m) {
            let folder = ss[k].folder_name();
            let ghost prev = fl@;
            fl.push(folder);
            proof {
                src = src.push(k as int);
                assert(text_views(fl@)[prev.len() as int] == folder_of(ss@[k as int]@.cwd));
                assert forall|q: int| 0 <= q < k + 1 && machine_key(#[trigger] ss@[q]@) == m@ implies
                    text_views(fl@).contains(folder_of(ss@[q]@.cwd)) by {
                    if q < k {
                        let w = choose|w: int| 0 <= w < text_views(prev).len() && text_views(prev)[w] == folder_of(ss@[q]@.cwd);
                        assert(text_views(fl@)[w] == folder_of(ss@[q]@.cwd));
                    }
                }
            }
        }
        k = k + 1;
    }
    let d = distinct_texts(&fl);
    let r = sorted_names(d);
    proof {
        assert forall|i: int| 0 <= i < r@.len() implies has_session_in(summary_views(ss@), m@, #[trigger] r@[i]@) by {
            assert(text_views(d@).contains(r@[i]@));
            let a = choose|a: int| 0 <= a < text_views(d@).len() && text_views(d@)[a] == r@[i]@;
            assert(text_views(fl@).contains(d@[a]@));
            let b = choose|b: int| 0 <= b < text_views(fl@).len() && text_views(fl@)[b] == d@[a]@;
            assert(machine_key(ss@[src[b]]@) == m@);
            assert(summary_views(ss@)[src[b]] == ss@[src[b]]@);
            assert(text_views(d@)[a] == d@[a]@);
            assert(text_views(fl@)[b] == fl@[b]@);
            assert(fl@[b]@ == r@[i]@);
            assert(in_group(m@, r@[i]@)(summary_views(ss@)[src[b]]));
        }
        assert forall|q: int| 0 <= q < ss@.len() && machine_key(#[trigger] ss@[q]@) == m@ implies
            text_views(r@).contains(folder_of(ss@[q]@.cwd)) by {
            let b = choose|b: int| 0 <= b < text_views(fl@).len() && text_views(fl@)[b] == folder_of(ss@[q]@.cwd);
            assert(text_views(fl@)[b] == fl@[b]@);
            assert(text_views(d@).contains(fl@[b]@));
            let a = choose|a: int| 0 <= a < text_views(d@).len() && text_views(d@)[a] == fl@[b]@;
            assert(text_views(d@)[a] == d@[a]@);
            assert(text_views(r@).contains(d@[a]@));
        }
    }
    r
}

/// The machines of the sessions, once each and in order.
fn machines_of_sessions(ss: &Vec<SessionSummary>) -> (r: Vec<String>)
    ensures
        names_in_order(text_views(r@)),
        forall|k: int| 0 <= k < ss@.len() ==> text_views(r@).contains(machine_key(#[trigger] ss@[k]@)),
        forall|i: int| 0 <= i < r@.len() ==> has_machine_session(summary_views(ss@), #[trigger] r@[i]@),
{
    let mut mk: Vec<String> = Vec::new();
    let mut k: usize = 0;
    while k < ss.len()
        invariant
            k <= ss@.len(),
            mk@.len() == k,
            forall|q: int| 0 <= q < k ==> #[trigger] mk@[q]@ == machine_key(ss@[q]@),
        decreases ss@.len() - k,
    {
        mk.push(machine_key_exec(&ss[k]));
        k = k + 1;
    }
    let d = distinct_texts(&mk);
    let r = sorted_names(d);
    proof {
        assert forall|q: int| 0 <= q < ss@.len() implies text_views(r@).contains(machine_key(#[trigger] ss@[q]@)) by {
            assert(mk@[q]@ == machine_key(ss@[q]@));
            assert(text_views(d@).contains(mk@[q]@));
            let a = choose|a: int| 0 <= a < text_views(d@).len() && text_views(d@)[a] == mk@[q]@;
            assert(text_views(d@)[a] == d@[a]@);
            assert(text_views(r@).contains(d@[a]@));
        }
        assert forall|i: int| 0 <= i < r@.len() implies has_machine_session(summary_views(ss@), #[trigger] r@[i]@) by {
            assert(text_views(d@).contains(r@[i]@));
            let a = choose|a: int| 0 <= a < text_views(d@).len() && text_views(d@)[a] == r@[i]@;
            assert(text_views(d@)[a] == d@[a]@);
            assert(text_views(mk@).contains(d@[a]@));
            let q = choose|q: int| 0 <= q < text_views(mk@).len() && text_views(mk@)[q] == d@[a]@;
            assert(text_views(mk@)[q] == mk@[q]@);
            assert(mk@[q]@ == machine_key(ss@[q]@));
            assert(summary_views(ss@)[q] == ss@[q]@);
        }
    }
    r
}

impl TerminalPage {
    /// The listed sessions grouped by machine, then by folder: machines and
    /// folders once each in lexicographic order, sessions running first and
    /// then by tag.
    pub fn grouped_sessions(&self) -> (r: Vec<MachineGroup>)
        ensures
            grouped(summary_views(self.sessions@), r@.map_values(|g: MachineGroup| g@)),
    {
        let ghost sv = summary_views(self.sessions@);
        let machines = machines_of_sessions(&self.sessions);
        let mut groups: Vec<MachineGroup> = Vec::new();
        let mut p: usize = 0;
        while p < machines.len()
            invariant
                p <= machines@.len(),
                sv == summary_views(self.sessions@),
                groups@.len() == p,
                forall|i: int| 0 <= i < p ==> (#[trigger] groups@[i])@.machine == machines@[i]@,
                forall|i: int| 0 <= i < p ==> group_ok(sv, (#[trigger] groups@[i])@),
                forall|i: int| 0 <= i < p ==> (#[trigger] groups@[i])@.folders.len() > 0,
                forall|i: int| 0 <= i < machines@.len() ==> has_machine_session(sv, #[trigger] machines@[i]@),
            decreases machines@.len() - p,
        {
            let m = machines[p].as_str();
            let folders = folders_of_machine(&self.sessions, m);
            let mut fgs: Vec<FolderGroup> = Vec::new();
            let mut q: usize = 0;
            while q < folders.len()
                invariant
                    q <= folders@.len(),
                    sv == summary_views(self.sessions@),
                    fgs@.len() == q,
                    forall|j: int| 0 <= j < folders@.len() ==> has_session_in(sv, m@, #[trigger] folders@[j]@),
                    forall|j: int| 0 <= j < q ==> (#[trigger] fgs@[j])@.folder == folders@[j]@,
                    forall|j: int| 0 <= j < q ==> (#[trigger] fgs@[j])@.sessions.len() > 0
                        && listed_in_order(sv.filter(in_group(m@, folders@[j]@)), fgs@[j]@.sessions),
                decreases folders@.len() - q,
            {
                let f = folders[q].as_str();
                let src = sessions_in(&self.sessions, m, f);
                let out = order_listing(&src);
                proof {
                    assert(has_session_in(sv, m@, folders@[q as int]@));
                    let k = choose|k: int| 0 <= k < sv.len() && #[trigger] in_group(m@, f@)(sv[k]);
                    sv.lemma_filter_contains(in_group(m@, f@), k);
                    let order = choose|order: Seq<int>| #[trigger] is_stable_order(listing_keys(summary_views(src@)), order)
                        && summary_views(out@) == order.map_values(|i: int| summary_views(src@)[i]);
                    assert(summary_views(src@).len() > 0);
                    assert(summary_views(out@).len() == order.len());
                }
                fgs.push(FolderGroup { folder: folders[q].clone(), sessions: out });
                q = q + 1;
            }
            let g = MachineGroup { machine: machines[p].clone(), folders: fgs };
            proof {
                let gv = g@;
                assert(has_machine_session(sv, machines@[p as int]@));
                let k0 = choose|k: int| 0 <= k < sv.len() && machine_key(#[trigger] sv[k]) == machines@[p as int]@;
                assert(self.sessions@[k0]@ == sv[k0]);
                assert(text_views(folders@).contains(folder_of(sv[k0].cwd)));
                assert(gv.folders.len() > 0);
                assert(gv.folders.map_values(|f: FolderGroupView| f.folder) =~= text_views(folders@));
                assert forall|k: int| 0 <= k < sv.len() && machine_key(#[trigger] sv[k]) == gv.machine implies
                    has_folder(gv, folder_of(sv[k].cwd)) by {
                    assert(self.sessions@[k]@ == sv[k]);
                    assert(text_views(folders@).contains(folder_of(sv[k].cwd)));
                    let j = choose|j: int| 0 <= j < text_views(folders@).len() && text_views(folders@)[j] == folder_of(sv[k].cwd);
                    assert(gv.folders[j].folder == folder_of(sv[k].cwd));
                }
                assert forall|j: int| 0 <= j < gv.folders.len() implies (#[trigger] gv.folders[j]).sessions.len() > 0
                    && listed_in_order(sv.filter(in_group(gv.machine, gv.folders[j].folder)), gv.folders[j].sessions) by {
                    assert(gv.folders[j] == fgs@[j]@);
                }
                assert(group_ok(sv, gv));
            }
            groups.push(g);
            p = p + 1;
        }
        proof {
            let gs = groups@.map_values(|g: MachineGroup| g@);
            assert(gs.map_values(|g: MachineGroupView| g.machine) =~= text_views(machines@));
            assert forall|k: int| 0 <= k < sv.len() implies has_machine(gs, machine_key(#[trigger] sv[k])) by {
                assert(self.sessions@[k]@ == sv[k]);
                assert(text_views(machines@).contains(machine_key(sv[k])));
                let i = choose|i: int| 0 <= i < text_views(machines@).len() && text_views(machines@)[i] == machine_key(sv[k]);
                assert(gs[i].machine == machine_key(sv[k]));
            }
            assert forall|i: int| 0 <= i < gs.len() implies group_ok(sv, #[trigger] gs[i]) by {
                assert(gs[i] == groups@[i]@);
            }
            assert forall|i: int| 0 <= i < gs.len() implies (#[trigger] gs[i]).folders.len() > 0
                && has_machine_session(sv, gs[i].machine) by {
                assert(gs[i] == groups@[i]@);
                assert(has_machine_session(sv, machines@[i]@));
            }
        }
        groups
    }
}


/// A terminal buffer never grows past the limit: output appended to a buffer
/// within it leaves one within it.
pub proof fn lemma_buffer_bounded(old: Seq<u8>, data: Seq<u8>)
    requires
        old.len() <= BUFFER_LIMIT,
    ensures
        appended_buffer(old, data).len() <= BUFFER_LIMIT,
{
    let b = old + data;
    if b.len() > BUFFER_LIMIT {
        lemma_boundary_from(b, b.len() - BUFFER_KEEP, b.len() - BUFFER_KEEP);
    }
}

/// The buffer always ends with the newest output, as long as that output is
/// no longer than what a cut keeps and starts a character.
pub proof fn lemma_buffer_ends_with_output(old: Seq<u8>, data: Seq<u8>)
    requires
        data.len() <= BUFFER_KEEP,
        data.len() == 0 || !is_continuation(data[0]),
    ensures
        ({
            let b = appended_buffer(old, data);
            b.len() >= data.len() && b.skip(b.len() - data.len()) == data
        }),
{
    let b = old + data;
    if b.len() > BUFFER_LIMIT {
        let s = b.len() - data.len();
        assert(starts_char(b, s)) by {
            if data.len() > 0 {
                assert(b[s] == data[0]);
            }
        }
        lemma_boundary_from(b, b.len() - BUFFER_KEEP, s);
    }
    let r = appended_buffer(old, data);
    assert(r.skip(r.len() - data.len()) =~= data);
}

/// A cut buffer starts a character, is no longer than what a cut keeps, and is
/// the longest tail of the output that does both.
pub proof fn lemma_buffer_cut_on_boundary(old: Seq<u8>, data: Seq<u8>, j: int)
    requires
        (old + data).len() > BUFFER_LIMIT,
    ensures
        ({
            let b = old + data;
            let r = appended_buffer(old, data);
            let k = b.len() - r.len();
            &&& r.len() <= BUFFER_KEEP
            &&& r == b.skip(k)
            &&& starts_char(b, k)
            &&& (0 <= j < k && starts_char(b, j) ==> b.len() - j > BUFFER_KEEP)
        }),
{
    let b = old + data;
    lemma_boundary_from(b, b.len() - BUFFER_KEEP, b.len() - BUFFER_KEEP);
    if 0 <= j < b.len() - BUFFER_KEEP {
    } else if b.len() - BUFFER_KEEP <= j <= b.len() {
        lemma_boundary_from(b, b.len() - BUFFER_KEEP, j);
    }
}

/// After a list arrives every listed tag is joined, and joining never records
/// a tag twice.
pub proof fn lemma_join_all(joined: Seq<Seq<char>>, tags: Seq<Seq<char>>)
    requires
        joined.no_duplicates(),
    ensures
        join_all(joined, tags).0.no_duplicates(),
        forall|i: int| 0 <= i < tags.len() ==> join_all(joined, tags).0.contains(#[trigger] tags[i]),
        forall|t: Seq<char>| joined.contains(t) ==> join_all(joined, tags).0.contains(t),
    decreases tags.len(),
{
    if tags.len() > 0 {
        lemma_join_all(joined, tags.drop_last());
        let (j, sent) = join_all(joined, tags.drop_last());
        let x = tags.last();
        if !j.contains(x) {
            let j2 = j.push(x);
            assert(j2[j.len() as int] == x);
            assert forall|a: int, b: int| 0 <= a < b < j2.len() implies j2[a] != j2[b] by {
                if b == j.len() {
                    assert(j2[a] == j[a]);
                }
            }
            assert forall|t: Seq<char>| j.contains(t) implies j2.contains(t) by {
                let w = choose|w: int| 0 <= w < j.len() && j[w] == t;
                assert(j2[w] == t);
            }
        }
        assert forall|i: int| 0 <= i < tags.len() implies join_all(joined, tags).0.contains(#[trigger] tags[i]) by {
            if i < tags.len() - 1 {
                assert(tags.drop_last()[i] == tags[i]);
            }
        }
    }
}

/// A folder name is never a path: it holds no slash.
pub proof fn lemma_folder_has_no_slash(cwd: Seq<char>)
    ensures
        !folder_of(cwd).contains('/'),
{
    reveal_strlit("root");
    if !(cwd.len() == 0 || cwd == "/"@) {
        lemma_after_last_no_slash(strip_trailing(cwd, '/'));
    }
}

proof fn lemma_after_last_no_slash(s: Seq<char>)
    ensures
        !after_last(s, '/').contains('/'),
    decreases s.len(),
{
    if s.len() > 0 && s.last() != '/' {
        lemma_after_last_no_slash(s.drop_last());
        let a = after_last(s.drop_last(), '/');
        assert forall|i: int| 0 <= i < a.push(s.last()).len() implies a.push(s.last())[i] != '/' by {
            if i < a.len() {
                assert(a.push(s.last())[i] == a[i]);
            }
        }
    }
}

/// After a session is removed, no listed session has its id.
pub proof fn lemma_removed_not_listed(ss: Seq<SessionSummaryView>, id: Seq<char>, i: int)
    requires
        0 <= i < ss.filter(|s: SessionSummaryView| s.id != id).len(),
    ensures
        ss.filter(|s: SessionSummaryView| s.id != id)[i].id != id,
{
    ss.lemma_filter_pred(|s: SessionSummaryView| s.id != id, i);
}

/// Whether `l` begins with the characters of `p`, one by one.
pub open spec fn begins_with(l: Seq<char>, p: Seq<char>) -> bool {
    p.len() <= l.len() && forall|k: int| 0 <= k < p.len() ==> #[trigger] l[k] == p[k]
}

/// The file and index lines of a diff (`diff --git`, `index `, `--- `, `+++ `) are
/// headers that keep the whole line; an added or a deleted line is a line that
/// starts with `+` or `-` and is no such header, shown without that sign; a header
/// is always the whole line.
pub proof fn lemma_diff_lines(l: Seq<char>)
    ensures
        begins_with(l, seq!['d', 'i', 'f', 'f', ' ', '-', '-', 'g', 'i', 't']) ==> classify_line(l) == DiffLineView::Header(l),
        begins_with(l, seq!['i', 'n', 'd', 'e', 'x', ' ']) ==> classify_line(l) == DiffLineView::Header(l),
        begins_with(l, seq!['-', '-', '-', ' ']) ==> classify_line(l) == DiffLineView::Header(l),
        begins_with(l, seq!['+', '+', '+', ' ']) ==> classify_line(l) == DiffLineView::Header(l),
        classify_line(l) matches DiffLineView::Header(h) ==> h == l,
        classify_line(l) matches DiffLineView::Addition(t) ==> l == seq!['+'] + t
            && !begins_with(l, seq!['+', '+', '+', ' ']),
        classify_line(l) matches DiffLineView::Deletion(t) ==> l == seq!['-'] + t
            && !begins_with(l, seq!['-', '-', '-', ' ']),
{
    reveal_strlit("diff --git");
    reveal_strlit("index ");
    reveal_strlit("--- ");
    reveal_strlit("+++ ");
    reveal_strlit("@@");
    assert forall|p: Seq<char>| #[trigger] has_prefix(l, p) <==> begins_with(l, p) by {
        if begins_with(l, p) {
            assert(l.take(p.len() as int) =~= p);
        }
        if has_prefix(l, p) {
            assert forall|k: int| 0 <= k < p.len() implies #[trigger] l[k] == p[k] by {
                assert(l.take(p.len() as int)[k] == l[k]);
            }
        }
    }
    assert(seq!['d', 'i', 'f', 'f', ' ', '-', '-', 'g', 'i', 't'] =~= "diff --git"@);
    assert(seq!['i', 'n', 'd', 'e', 'x', ' '] =~= "index "@);
    assert(seq!['-', '-', '-', ' '] =~= "--- "@);
    assert(seq!['+', '+', '+', ' '] =~= "+++ "@);
    if l.len() > 0 {
        assert(l =~= seq![l[0]] + l.skip(1));
    }
}

} // verus!

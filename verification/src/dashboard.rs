//! The global dashboard: session cards, their order and filter, bulk actions and
//! the reaction to server messages.

use vstd::prelude::*;
use crate::model::{opt_str_view, copy_opt_string};
use crate::json::{Json, JsonView, get_field, json_text, json_number, json_flag, json_list, json_read, json_views, text_field,
    number_field, flag_field, list_field, parse_json};
use crate::order::{SortKey, SortKeyView, stable_order, is_stable_order, goes_before, key_lt, text_lt, lemma_goes_before_key};
use crate::text::{str_eq, concat, owned, contains_text, to_lowercase, lowercase, has_infix, decimal, decimal_text};

verus! {

/// The state of a session as the dashboard shows it.
#[derive(Debug, Clone, Copy, PartialEq, Eq, Structural)]
pub enum SessionState {
    Initializing,
    Running,
    Idle,
    WaitingForConfirm,
    Error,
    Exited,
}

/// The state that a status text denotes; unknown texts read as `Initializing`.
pub open spec fn session_state_spec(s: Seq<char>) -> SessionState {
    if s == "running"@ {
        SessionState::Running
    } else if s == "idle"@ {
        SessionState::Idle
    } else if s == "waiting_for_confirm"@ {
        SessionState::WaitingForConfirm
    } else if s == "error"@ {
        SessionState::Error
    } else if s == "exited"@ || s == "terminated"@ {
        SessionState::Exited
    } else {
        SessionState::Initializing
    }
}

/// The label of a state on a card.
pub open spec fn state_label(s: SessionState) -> Seq<char> {
    match s {
        SessionState::Running => "Running"@,
        SessionState::Idle => "Idle"@,
        SessionState::WaitingForConfirm => "Needs Confirm"@,
        SessionState::Error => "Error"@,
        SessionState::Exited => "Exited"@,
        SessionState::Initializing => "Initializing"@,
    }
}

/// The style class of a state.
pub open spec fn state_class(s: SessionState) -> Seq<char> {
    match s {
        SessionState::Running => "running"@,
        SessionState::Idle => "idle"@,
        SessionState::WaitingForConfirm => "waiting"@,
        SessionState::Error => "error"@,
        SessionState::Exited => "exited"@,
        SessionState::Initializing => "initializing"@,
    }
}

/// The place of a state when sorting by status: errors first, exited last.
pub open spec fn state_rank(s: SessionState) -> u32 {
    match s {
        SessionState::Error => 0,
        SessionState::WaitingForConfirm => 1,
        SessionState::Running => 2,
        SessionState::Idle => 3,
        SessionState::Initializing => 4,
        SessionState::Exited => 5,
    }
}

/// Reads a status text.
pub fn parse_status(status: &str) -> (r: SessionState)
    ensures
        r == session_state_spec(status@),
{
    if str_eq(status, "running") {
        SessionState::Running
    } else if str_eq(status, "idle") {
        SessionState::Idle
    } else if str_eq(status, "waiting_for_confirm") {
        SessionState::WaitingForConfirm
    } else if str_eq(status, "error") {
        SessionState::Error
    } else if str_eq(status, "exited") || str_eq(status, "terminated") {
        SessionState::Exited
    } else {
        SessionState::Initializing
    }
}

/// The label of a state on a card.
pub fn format_status(s: SessionState) -> (r: String)
    ensures
        r@ == state_label(s),
{
    match s {
        SessionState::Running => owned("Running"),
        SessionState::Idle => owned("Idle"),
        SessionState::WaitingForConfirm => owned("Needs Confirm"),
        SessionState::Error => owned("Error"),
        SessionState::Exited => owned("Exited"),
        SessionState::Initializing => owned("Initializing"),
    }
}

/// The style class of a state.
pub fn status_class(s: SessionState) -> (r: &'static str)
    ensures
        r@ == state_class(s),
{
    match s {
        SessionState::Running => "running",
        SessionState::Idle => "idle",
        SessionState::WaitingForConfirm => "waiting",
        SessionState::Error => "error",
        SessionState::Exited => "exited",
        SessionState::Initializing => "initializing",
    }
}

fn status_rank(s: SessionState) -> (r: u32)
    ensures
        r == state_rank(s),
{
    match s {
        SessionState::Error => 0,
        SessionState::WaitingForConfirm => 1,
        SessionState::Running => 2,
        SessionState::Idle => 3,
        SessionState::Initializing => 4,
        SessionState::Exited => 5,
    }
}

/// A session as the dashboard shows it.
#[derive(Debug, Clone)]
pub struct SessionCard {
    pub id: String,
    pub tag: String,
    pub status: SessionState,
    pub progress: Option<u8>,
    pub operation: Option<String>,
    pub needs_confirmation: bool,
    pub confirmation_prompt: Option<String>,
    pub client_count: usize,
    pub last_activity: String,
    pub error_count: u64,
    pub bytes_in: u64,
    pub bytes_out: u64,
}

/// The mathematical value of a card.
pub struct SessionCardView {
    pub id: Seq<char>,
    pub tag: Seq<char>,
    pub status: SessionState,
    pub progress: Option<u8>,
    pub operation: Option<Seq<char>>,
    pub needs_confirmation: bool,
    pub confirmation_prompt: Option<Seq<char>>,
    pub client_count: usize,
    pub last_activity: Seq<char>,
    pub error_count: u64,
    pub bytes_in: u64,
    pub bytes_out: u64,
}

impl View for SessionCard {
    type V = SessionCardView;

    open spec fn view(&self) -> SessionCardView {
        SessionCardView {
            id: self.id@,
            tag: self.tag@,
            status: self.status,
            progress: self.progress,
            operation: opt_str_view(self.operation),
            needs_confirmation: self.needs_confirmation,
            confirmation_prompt: opt_str_view(self.confirmation_prompt),
            client_count: self.client_count,
            last_activity: self.last_activity@,
            error_count: self.error_count,
            bytes_in: self.bytes_in,
            bytes_out: self.bytes_out,
        }
    }
}

impl SessionCard {
    /// A copy of the card.
    pub fn copy(&self) -> (r: SessionCard)
        ensures
            r@ == self@,
    {
        SessionCard {
            id: self.id.clone(),
            tag: self.tag.clone(),
            status: self.status,
            progress: self.progress,
            operation: copy_opt_string(&self.operation),
            needs_confirmation: self.needs_confirmation,
            confirmation_prompt: copy_opt_string(&self.confirmation_prompt),
            client_count: self.client_count,
            last_activity: self.last_activity.clone(),
            error_count: self.error_count,
            bytes_in: self.bytes_in,
            bytes_out: self.bytes_out,
        }
    }
}

/// The views of a list of cards.
pub open spec fn card_views(v: Seq<SessionCard>) -> Seq<SessionCardView> {
    v.map_values(|c: SessionCard| c@)
}

/// The fields of a session object of a server message, each present only when
/// it has the expected type.
pub struct SessionCardFields {
    pub id: Option<String>,
    pub tag: Option<String>,
    pub status: Option<String>,
    pub progress: Option<u64>,
    pub operation: Option<String>,
    pub needs_confirmation: Option<bool>,
    pub confirmation_prompt: Option<String>,
    pub client_count: Option<u64>,
    pub last_activity: Option<String>,
    pub error_count: Option<u64>,
    pub bytes_in: Option<u64>,
    pub bytes_out: Option<u64>,
}

/// The card read from the fields of a session object: present when the id, tag
/// and status are; a progress keeps its low byte; missing counts read as zero and
/// a missing last activity as `Unknown`.
pub open spec fn card_of_fields(f: SessionCardFields) -> Option<SessionCardView> {
    if f.id is Some && f.tag is Some && f.status is Some {
        Some(SessionCardView {
            id: f.id->0@,
            tag: f.tag->0@,
            status: session_state_spec(f.status->0@),
            progress: match f.progress {
                Some(v) => Some(v as u8),
                None => None,
            },
            operation: opt_str_view(f.operation),
            needs_confirmation: match f.needs_confirmation {
                Some(b) => b,
                None => false,
            },
            confirmation_prompt: opt_str_view(f.confirmation_prompt),
            client_count: (match f.client_count {
                Some(c) => c,
                None => 0,
            }) as usize,
            last_activity: match f.last_activity {
                Some(s) => s@,
                None => "Unknown"@,
            },
            error_count: match f.error_count {
                Some(c) => c,
                None => 0,
            },
            bytes_in: match f.bytes_in {
                Some(c) => c,
                None => 0,
            },
            bytes_out: match f.bytes_out {
                Some(c) => c,
                None => 0,
            },
        })
    } else {
        None
    }
}

/// Reads a card from the fields of a session object.
pub fn parse_session_card(f: &SessionCardFields) -> (r: Option<SessionCard>)
    ensures
        match r {
            Some(c) => card_of_fields(*f) == Some(c@),
            None => card_of_fields(*f) is None,
        },
{
    match (&f.id, &f.tag, &f.status) {
        (Some(id), Some(tag), Some(status)) => {
            let progress: Option<u8> = match f.progress {
                Some(v) => Some(v as u8),
                None => None,
            };
            let count: u64 = match f.client_count {
                Some(c) => c,
                None => 0,
            };
            let last = match &f.last_activity {
                Some(s) => s.clone(),
                None => owned("Unknown"),
            };
            Some(SessionCard {
                id: id.clone(),
                tag: tag.clone(),
                status: parse_status(status.as_str()),
                progress,
                operation: copy_opt_string(&f.operation),
                needs_confirmation: match f.needs_confirmation {
                    Some(b) => b,
                    None => false,
                },
                confirmation_prompt: copy_opt_string(&f.confirmation_prompt),
                client_count: count as usize,
                last_activity: last,
                error_count: match f.error_count {
                    Some(c) => c,
                    None => 0,
                },
                bytes_in: match f.bytes_in {
                    Some(c) => c,
                    None => 0,
                },
                bytes_out: match f.bytes_out {
                    Some(c) => c,
                    None => 0,
                },
            })
        },
        _ => None,
    }
}

/// How the dashboard orders its cards.
#[derive(Debug, Clone, Copy, PartialEq, Eq, Structural)]
pub enum SortBy {
    LastActivity,
    Status,
    Tag,
    Progress,
}

/// The state of the dashboard's connection to the server.
#[derive(Debug, Clone, Copy, PartialEq, Eq, Structural)]
pub enum ConnectionStatus {
    Connecting,
    Connected,
    Disconnected,
    Error,
}

/// The key of a card when sorting: the status rank, the tag, or 255 less the
/// progress (no progress counting as zero).
pub open spec fn card_key(c: SessionCardView, by: SortBy) -> SortKeyView {
    match by {
        SortBy::Status => SortKeyView { rank: state_rank(c.status), text: Seq::empty() },
        SortBy::Tag => SortKeyView { rank: 0, text: c.tag },
        SortBy::Progress => SortKeyView {
            rank: (255 - match c.progress {
                Some(p) => p as int,
                None => 0,
            }) as u32,
            text: Seq::empty(),
        },
        SortBy::LastActivity => SortKeyView { rank: 0, text: Seq::empty() },
    }
}

/// The list that a sort orders: reversed for progress.
pub open spec fn sort_source(cards: Seq<SessionCardView>, by: SortBy) -> Seq<SessionCardView> {
    if by == SortBy::Progress { cards.reverse() } else { cards }
}

/// The sort keys of a list of cards.
pub open spec fn card_keys(cards: Seq<SessionCardView>, by: SortBy) -> Seq<SortKeyView> {
    cards.map_values(|c: SessionCardView| card_key(c, by))
}

/// `out` is `cards` in the dashboard's order: unchanged for last activity; a
/// stable sort by status rank or by tag; for progress, the largest first and
/// equal progress in the reverse of their input order.
pub open spec fn cards_sorted(cards: Seq<SessionCardView>, by: SortBy, out: Seq<SessionCardView>) -> bool {
    if by == SortBy::LastActivity {
        out == cards
    } else {
        let src = sort_source(cards, by);
        exists|order: Seq<int>|
            #[trigger] is_stable_order(card_keys(src, by), order)
                && out == order.map_values(|i: int| src[i])
    }
}

fn card_sort_key(c: &SessionCard, by: SortBy) -> (r: SortKey)
    ensures
        r@ == card_key(c@, by),
{
    match by {
        SortBy::Status => SortKey { rank: status_rank(c.status), text: String::new() },
        SortBy::Tag => SortKey { rank: 0, text: c.tag.clone() },
        SortBy::Progress => {
            let p: u32 = match c.progress {
                Some(p) => p as u32,
                None => 0,
            };
            SortKey { rank: 255 - p, text: String::new() }
        },
        SortBy::LastActivity => SortKey { rank: 0, text: String::new() },
    }
}

fn reversed_cards(cards: &Vec<SessionCard>) -> (r: Vec<SessionCard>)
    ensures
        card_views(r@) == card_views(cards@).reverse(),
{
    let mut r: Vec<SessionCard> = Vec::new();
    let mut i: usize = cards.len();
    while i > 0
        invariant
            i <= cards@.len(),
            card_views(r@) == card_views(cards@).subrange(i as int, cards@.len() as int).reverse(),
        decreases i,
    {
        i = i - 1;
        let c = cards[i].copy();
        let ghost prev = r@;
        r.push(c);
        assert(card_views(r@) =~= card_views(prev).push(c@));
        assert(card_views(cards@).subrange(i as int, cards@.len() as int).reverse() =~=
            card_views(cards@).subrange(i as int + 1, cards@.len() as int).reverse().push(cards@[i as int]@));
    }
    assert(card_views(cards@).subrange(0, cards@.len() as int) =~= card_views(cards@));
    r
}

/// The cards in the dashboard's order.
pub fn sort_cards(cards: Vec<SessionCard>, by: SortBy) -> (r: Vec<SessionCard>)
    ensures
        cards_sorted(card_views(cards@), by, card_views(r@)),
{
    if by == SortBy::LastActivity {
        return cards;
    }
    let src = if by == SortBy::Progress { reversed_cards(&cards) } else { cards };
    let ghost sv = card_views(src@);
    let mut keys: Vec<SortKey> = Vec::new();
    let mut i: usize = 0;
    while i < src.len()
        invariant
            i <= src@.len(),
            sv == card_views(src@),
            keys@.len() == i,
            forall|j: int| 0 <= j < i ==> #[trigger] keys@[j]@ == card_key(sv[j], by),
        decreases src@.len() - i,
    {
        keys.push(card_sort_key(&src[i], by));
        i = i + 1;
    }
    let ghost ks = card_keys(sv, by);
    assert(keys@.map_values(|k: SortKey| k@) =~= ks);
    let order = stable_order(&keys);
    let ghost os = order@.map_values(|i: usize| i as int);
    let mut out: Vec<SessionCard> = Vec::new();
    let mut k: usize = 0;
    while k < order.len()
        invariant
            k <= order@.len(),
            order@.len() == src@.len(),
            sv == card_views(src@),
            os == order@.map_values(|i: usize| i as int),
            is_stable_order(ks, os),
            card_views(out@) == os.take(k as int).map_values(|i: int| sv[i]),
        decreases order@.len() - k,
    {
        assert(0 <= os[k as int] < ks.len());
        let c = src[order[k]].copy();
        let ghost prev = out@;
        out.push(c);
        assert(card_views(out@) =~= card_views(prev).push(c@));
        assert(os.take(k as int + 1).map_values(|i: int| sv[i]) =~= os.take(k as int).map_values(|i: int| sv[i]).push(sv[os[k as int]]));
        k = k + 1;
    }
    assert(os.take(k as int) =~= os);
    proof {
        let cv = card_views(cards@);
        let s2 = sort_source(cv, by);
        assert(s2 == sv);
        assert(is_stable_order(card_keys(s2, by), os));
        assert(card_views(out@) =~= os.map_values(|i: int| s2[i]));
    }
    out
}

/// Whether a card passes the dashboard filter: it has not exited, and the
/// filter is empty or occurs, ignoring case, in its tag or id.
pub open spec fn card_shown(c: SessionCardView, filter: Seq<char>) -> bool {
    c.status != SessionState::Exited && (filter.len() == 0 || has_infix(lowercase(c.tag), lowercase(filter))
        || has_infix(lowercase(c.id), lowercase(filter)))
}

/// The index of the first card with this id.
pub open spec fn first_with_id(cards: Seq<SessionCardView>, id: Seq<char>, i: int) -> bool {
    &&& 0 <= i < cards.len()
    &&& cards[i].id == id
    &&& forall|j: int| 0 <= j < i ==> cards[j].id != id
}

/// Whether some card has this id.
pub open spec fn has_card(cards: Seq<SessionCardView>, id: Seq<char>) -> bool {
    exists|i: int| 0 <= i < cards.len() && #[trigger] cards[i].id == id
}

/// `cards` with the first card of the same id replaced by `card`, or with
/// `card` added at the end when there is none.
pub open spec fn upsert_card(cards: Seq<SessionCardView>, card: SessionCardView) -> Seq<SessionCardView> {
    if has_card(cards, card.id) {
        cards.update(choose|i: int| first_with_id(cards, card.id, i), card)
    } else {
        cards.push(card)
    }
}

/// The index of the first card with this id, if any.
fn position_of(cards: &Vec<SessionCard>, id: &str) -> (r: Option<usize>)
    ensures
        match r {
            Some(i) => first_with_id(card_views(cards@), id@, i as int),
            None => !has_card(card_views(cards@), id@),
        },
{
    let ghost cv = card_views(cards@);
    let mut i: usize = 0;
    while i < cards.len()
        invariant
            i <= cards@.len(),
            cv == card_views(cards@),
            forall|j: int| 0 <= j < i ==> cv[j].id != id@,
        decreases cards@.len() - i,
    {
        if str_eq(cards[i].id.as_str(), id) {
            return Some(i);
        }
        i = i + 1;
    }
    None
}

proof fn lemma_first_unique(cards: Seq<SessionCardView>, id: Seq<char>, i: int, j: int)
    requires
        first_with_id(cards, id, i),
        first_with_id(cards, id, j),
    ensures
        i == j,
{
}

/// Replaces the card with the same id, or adds the card at the end.
fn upsert(cards: &mut Vec<SessionCard>, card: SessionCard)
    ensures
        card_views(final(cards)@) == upsert_card(card_views(old(cards)@), card@),
{
    let ghost cv = card_views(cards@);
    let ghost c = card@;
    match position_of(cards, card.id.as_str()) {
        Some(i) => {
            proof {
                let k = choose|k: int| first_with_id(cv, c.id, k);
                lemma_first_unique(cv, c.id, i as int, k);
            }
            cards.set(i, card);
            assert(card_views(cards@) =~= cv.update(i as int, c));
        },
        None => {
            cards.push(card);
            assert(card_views(cards@) =~= cv.push(c));
        },
    }
}

/// The cards without those of this id.
pub open spec fn without_card(cards: Seq<SessionCardView>, id: Seq<char>) -> Seq<SessionCardView> {
    cards.filter(|c: SessionCardView| c.id != id)
}

fn remove_cards(cards: Vec<SessionCard>, id: &str) -> (r: Vec<SessionCard>)
    ensures
        card_views(r@) == without_card(card_views(cards@), id@),
{
    let ghost cv = card_views(cards@);
    let ghost pred = |c: SessionCardView| c.id != id@;
    let mut r: Vec<SessionCard> = Vec::new();
    let mut i: usize = 0;
    while i < cards.len()
        invariant
            i <= cards@.len(),
            cv == card_views(cards@),
            pred == (|c: SessionCardView| c.id != id@),
            card_views(r@) == cv.take(i as int).filter(pred),
        decreases cards@.len() - i,
    {
        proof {
            assert(cv.take(i as int + 1) =~= cv.take(i as int).push(cv[i as int]));
            cv.take(i as int).lemma_filter_push(cv[i as int], pred);
        }
        if !str_eq(cards[i].id.as_str(), id) {
            let c = cards[i].copy();
            let ghost prev = r@;
            r.push(c);
            assert(card_views(r@) =~= card_views(prev).push(c@));
        }
        i = i + 1;
    }
    assert(cv.take(i as int) =~= cv);
    r
}

/// A message of the server, as the dashboard reads it.
pub enum ServerNotice {
    /// `authenticated`.
    Authenticated,
    /// `sessions_list`, with its `sessions` when that is a list.
    SessionsList(Option<Vec<SessionCardFields>>),
    /// `session_update`; the fields are those of the message itself.
    SessionUpdate(SessionCardFields),
    /// `session_created` or `session_started`; the fields are those of the message itself.
    SessionCreated(SessionCardFields),
    /// `session_terminated` or `session_stopped`, with its `session_id` when that is a text.
    SessionRemoved(Option<String>),
    /// `pong`.
    Pong,
    /// `error`, with its `code` and `message` when they are texts.
    Error { code: Option<String>, message: Option<String> },
    /// A message of another type.
    Unknown(String),
    /// A message without a text `type`, or text that is not a message.
    Unreadable,
}

/// The fields that the dashboard reads from a session object: each present where
/// it has the expected type.
pub open spec fn card_fields_read(v: JsonView, f: SessionCardFields) -> bool {
    &&& opt_str_view(f.id) == json_text(get_field(v, "id"@))
    &&& opt_str_view(f.tag) == json_text(get_field(v, "tag"@))
    &&& opt_str_view(f.status) == json_text(get_field(v, "status"@))
    &&& f.progress == json_number(get_field(v, "progress"@))
    &&& opt_str_view(f.operation) == json_text(get_field(v, "operation"@))
    &&& f.needs_confirmation == json_flag(get_field(v, "needs_confirmation"@))
    &&& opt_str_view(f.confirmation_prompt) == json_text(get_field(v, "confirmation_prompt"@))
    &&& f.client_count == json_number(get_field(v, "client_count"@))
    &&& opt_str_view(f.last_activity) == json_text(get_field(v, "last_activity"@))
    &&& f.error_count == json_number(get_field(v, "error_count"@))
    &&& f.bytes_in == json_number(get_field(v, "bytes_in"@))
    &&& f.bytes_out == json_number(get_field(v, "bytes_out"@))
}

/// Reads the fields of a session object.
pub fn card_fields_of(v: &Json) -> (r: SessionCardFields)
    ensures
        card_fields_read(v@, r),
{
    SessionCardFields {
        id: text_field(v, "id"),
        tag: text_field(v, "tag"),
        status: text_field(v, "status"),
        progress: number_field(v, "progress"),
        operation: text_field(v, "operation"),
        needs_confirmation: flag_field(v, "needs_confirmation"),
        confirmation_prompt: text_field(v, "confirmation_prompt"),
        client_count: number_field(v, "client_count"),
        last_activity: text_field(v, "last_activity"),
        error_count: number_field(v, "error_count"),
        bytes_in: number_field(v, "bytes_in"),
        bytes_out: number_field(v, "bytes_out"),
    }
}

/// The dashboard's reading of a message of the server, by its `type`.
pub open spec fn notice_read(v: JsonView, r: ServerNotice) -> bool {
    match json_text(get_field(v, "type"@)) {
        None => r is Unreadable,
        Some(t) => if t == "authenticated"@ {
            r is Authenticated
        } else if t == "sessions_list"@ {
            r matches ServerNotice::SessionsList(o) && match json_list(get_field(v, "sessions"@)) {
                None => o is None,
                Some(items) => o matches Some(l) && l@.len() == items.len()
                    && forall|i: int| 0 <= i < items.len() ==> card_fields_read(items[i], #[trigger] l@[i]),
            }
        } else if t == "session_update"@ {
            r matches ServerNotice::SessionUpdate(f) && card_fields_read(v, f)
        } else if t == "session_created"@ || t == "session_started"@ {
            r matches ServerNotice::SessionCreated(f) && card_fields_read(v, f)
        } else if t == "session_terminated"@ || t == "session_stopped"@ {
            r matches ServerNotice::SessionRemoved(o) && opt_str_view(o) == json_text(get_field(v, "session_id"@))
        } else if t == "pong"@ {
            r is Pong
        } else if t == "error"@ {
            r matches ServerNotice::Error { code, message } && opt_str_view(code) == json_text(get_field(v, "code"@))
                && opt_str_view(message) == json_text(get_field(v, "message"@))
        } else {
            r matches ServerNotice::Unknown(s) && s@ == t
        },
    }
}

/// Reads the session objects of a list.
fn card_fields_list(items: &Vec<Json>) -> (r: Vec<SessionCardFields>)
    ensures
        r@.len() == items@.len(),
        forall|i: int| 0 <= i < items@.len() ==> card_fields_read(json_views(items@)[i], #[trigger] r@[i]),
{
    let mut r: Vec<SessionCardFields> = Vec::new();
    let mut i: usize = 0;
    while i < items.len()
        invariant
            i <= items@.len(),
            r@.len() == i,
            forall|k: int| 0 <= k < i ==> card_fields_read(json_views(items@)[k], #[trigger] r@[k]),
        decreases items@.len() - i,
    {
        r.push(card_fields_of(&items[i]));
        i = i + 1;
    }
    r
}

/// How the dashboard reads a parsed message of the server.
pub fn server_notice_of(v: &Json) -> (r: ServerNotice)
    ensures
        notice_read(v@, r),
{
    let t = match text_field(v, "type") {
        Some(t) => t,
        None => return ServerNotice::Unreadable,
    };
    let t = t.as_str();
    if str_eq(t, "authenticated") {
        ServerNotice::Authenticated
    } else if str_eq(t, "sessions_list") {
        match list_field(v, "sessions") {
            Some(items) => ServerNotice::SessionsList(Some(card_fields_list(items))),
            None => ServerNotice::SessionsList(None),
        }
    } else if str_eq(t, "session_update") {
        ServerNotice::SessionUpdate(card_fields_of(v))
    } else if str_eq(t, "session_created") || str_eq(t, "session_started") {
        ServerNotice::SessionCreated(card_fields_of(v))
    } else if str_eq(t, "session_terminated") || str_eq(t, "session_stopped") {
        ServerNotice::SessionRemoved(text_field(v, "session_id"))
    } else if str_eq(t, "pong") {
        ServerNotice::Pong
    } else if str_eq(t, "error") {
        ServerNotice::Error { code: text_field(v, "code"), message: text_field(v, "message") }
    } else {
        ServerNotice::Unknown(t.to_string())
    }
}

/// How the dashboard reads a text frame of the server: a text that is not JSON is
/// unreadable.
pub fn read_server_notice(text: &str) -> (r: ServerNotice)
    ensures
        match json_read(text@) {
            Ok(v) => notice_read(v, r),
            Err(_) => r is Unreadable,
        },
{
    match parse_json(text) {
        Ok(v) => server_notice_of(&v),
        Err(_) => ServerNotice::Unreadable,
    }
}

/// A request to the dashboard.
pub enum DashboardMsg {
    WsConnected,
    WsDisconnected,
    WsError(String),
    WsReconnect,
    WsMessage(ServerNotice),
    SendPing,
    SessionsUpdate(Vec<SessionCard>),
    SessionUpdate(SessionCard),
    ToggleSelection(String),
    SelectAll,
    DeselectAll,
    BulkKill,
    BulkConfirm(bool),
    FilterChanged(String),
    SortChanged(SortBy),
    Refresh,
}

/// What the page around the dashboard must do.
pub enum DashboardAction {
    /// Send this text to the server when the socket is open.
    Send(String),
    /// Send the `authenticate` message with this token when the socket is open.
    Authenticate(String),
    /// Start sending a ping every thirty seconds.
    StartHeartbeat,
    /// Stop the pings.
    StopHeartbeat,
    /// Forget the current socket.
    DropSocket,
    /// Open a new socket.
    Connect,
    /// Ask for a reconnection in three seconds.
    ScheduleReconnect,
    /// Forget the stored credentials and go to the login page.
    Logout,
}

/// The mathematical value of an action.
pub enum DashboardActionView {
    Send(Seq<char>),
    Authenticate(Seq<char>),
    StartHeartbeat,
    StopHeartbeat,
    DropSocket,
    Connect,
    ScheduleReconnect,
    Logout,
}

impl View for DashboardAction {
    type V = DashboardActionView;

    open spec fn view(&self) -> DashboardActionView {
        match self {
            DashboardAction::Send(s) => DashboardActionView::Send(s@),
            DashboardAction::Authenticate(t) => DashboardActionView::Authenticate(t@),
            DashboardAction::StartHeartbeat => DashboardActionView::StartHeartbeat,
            DashboardAction::StopHeartbeat => DashboardActionView::StopHeartbeat,
            DashboardAction::DropSocket => DashboardActionView::DropSocket,
            DashboardAction::Connect => DashboardActionView::Connect,
            DashboardAction::ScheduleReconnect => DashboardActionView::ScheduleReconnect,
            DashboardAction::Logout => DashboardActionView::Logout,
        }
    }
}

/// The views of a list of actions.
pub open spec fn dashboard_actions(v: Seq<DashboardAction>) -> Seq<DashboardActionView> {
    v.map_values(|a: DashboardAction| a@)
}

/// The request for the session list.
pub open spec fn list_sessions_text() -> Seq<char> {
    "{\"type\": \"list_sessions\"}"@
}

/// The heartbeat.
pub open spec fn ping_text() -> Seq<char> {
    "{\"type\": \"ping\"}"@
}

/// The request to stop a session.
pub open spec fn stop_text(id: Seq<char>) -> Seq<char> {
    "{\"type\": \"stop_session\", \"session_id\": \""@ + id + "\"}"@
}

/// The answer to a session's confirmation prompt.
pub open spec fn session_action_text(id: Seq<char>, confirm: bool) -> Seq<char> {
    "{\"type\": \"session_action\", \"session_id\": \""@ + id + "\", \"action\": \""@
        + (if confirm { "confirm"@ } else { "cancel"@ }) + "\"}"@
}

/// Whether an error code means that the login is no longer valid.
pub open spec fn is_auth_error(code: Seq<char>) -> bool {
    code == "auth_failed"@ || code == "not_authenticated"@
}

/// The first position of `id` in a list of ids.
pub open spec fn first_id_at(ids: Seq<Seq<char>>, id: Seq<char>, i: int) -> bool {
    &&& 0 <= i < ids.len()
    &&& ids[i] == id
    &&& forall|j: int| 0 <= j < i ==> ids[j] != id
}

/// The selection after toggling `id`: its first occurrence removed if it is
/// selected, else added at the end.
pub open spec fn toggled(ids: Seq<Seq<char>>, id: Seq<char>) -> Seq<Seq<char>> {
    if ids.contains(id) {
        ids.remove(choose|i: int| first_id_at(ids, id, i))
    } else {
        ids.push(id)
    }
}

/// The views of a list of texts.
pub open spec fn text_views(v: Seq<String>) -> Seq<Seq<char>> {
    v.map_values(|s: String| s@)
}

/// How the dashboard reacts to a message of the server: `before` and `after`
/// are its state around the reaction, `actions` what it asks of the page.
pub open spec fn notice_handled(before: Dashboard, after: Dashboard, notice: ServerNotice, actions: Seq<DashboardActionView>) -> bool {
    match notice {
        ServerNotice::Authenticated => {
            &&& actions == seq![DashboardActionView::Send(list_sessions_text())]
            &&& card_views(after.sessions@) == card_views(before.sessions@)
        },
        ServerNotice::SessionsList(Some(list)) => {
            &&& actions.len() == 0
            &&& cards_sorted(
                list@.map_values(|f: SessionCardFields| card_of_fields(f)).filter(|o: Option<SessionCardView>| o is Some)
                    .map_values(|o: Option<SessionCardView>| o->0),
                before.sort_by,
                card_views(after.sessions@),
            )
        },
        ServerNotice::SessionUpdate(f) => {
            &&& actions.len() == 0
            &&& match card_of_fields(f) {
                Some(c) => cards_sorted(upsert_card(card_views(before.sessions@), c), before.sort_by,
                    card_views(after.sessions@)),
                None => card_views(after.sessions@) == card_views(before.sessions@),
            }
        },
        ServerNotice::SessionCreated(f) => {
            &&& actions.len() == 0
            &&& match card_of_fields(f) {
                Some(c) => if has_card(card_views(before.sessions@), c.id) {
                    card_views(after.sessions@) == card_views(before.sessions@)
                } else {
                    cards_sorted(card_views(before.sessions@).push(c), before.sort_by,
                        card_views(after.sessions@))
                },
                None => card_views(after.sessions@) == card_views(before.sessions@),
            }
        },
        ServerNotice::SessionRemoved(Some(id)) => {
            &&& actions.len() == 0
            &&& card_views(after.sessions@) == without_card(card_views(before.sessions@), id@)
        },
        ServerNotice::Error { code: Some(code), message: _ } => {
            &&& actions == (if is_auth_error(code@) { seq![DashboardActionView::Logout] } else { Seq::empty() })
            &&& card_views(after.sessions@) == card_views(before.sessions@)
        },
        _ => {
            &&& actions.len() == 0
            &&& card_views(after.sessions@) == card_views(before.sessions@)
        },
    }
}

/// The dashboard's state.
pub struct Dashboard {
    pub sessions: Vec<SessionCard>,
    pub ws_status: ConnectionStatus,
    pub selected_sessions: Vec<String>,
    pub show_bulk_actions: bool,
    pub filter_text: String,
    pub sort_by: SortBy,
    pub auth_token: Option<String>,
    pub user_email: Option<String>,
}

impl Dashboard {
    /// A dashboard for the stored credentials; the second value says whether
    /// to connect, which happens when there is a token.
    pub fn create(auth_token: Option<String>, user_email: Option<String>) -> (r: (Dashboard, bool))
        ensures
            r.0.sessions@.len() == 0,
            r.0.selected_sessions@.len() == 0,
            !r.0.show_bulk_actions,
            r.0.filter_text@.len() == 0,
            r.0.sort_by == SortBy::LastActivity,
            opt_str_view(r.0.auth_token) == opt_str_view(auth_token),
            opt_str_view(r.0.user_email) == opt_str_view(user_email),
            r.1 == auth_token is Some,
            r.0.ws_status == (if auth_token is Some { ConnectionStatus::Connecting } else { ConnectionStatus::Disconnected }),
    {
        let connect = auth_token.is_some();
        let d = Dashboard {
            sessions: Vec::new(),
            ws_status: if connect { ConnectionStatus::Connecting } else { ConnectionStatus::Disconnected },
            selected_sessions: Vec::new(),
            show_bulk_actions: false,
            filter_text: String::new(),
            sort_by: SortBy::LastActivity,
            auth_token,
            user_email,
        };
        (d, connect)
    }

    /// The address of the server's WebSocket for a page loaded over `protocol` from
    /// `host`: `wss` for a page served over `https:`, else `ws`.
    pub fn websocket_url(protocol: &str, host: &str) -> (r: String)
        ensures
            r@ == (if protocol@ == "https:"@ { "wss"@ } else { "ws"@ }) + "://"@ + host@ + "/ws"@,
    {
        proof { reveal_strlit("https:"); reveal_strlit("wss"); reveal_strlit("ws"); }
        let scheme = if str_eq(protocol, "https:") { "wss" } else { "ws" };
        let a = concat(scheme, "://");
        let b = concat(a.as_str(), host);
        concat(b.as_str(), "/ws")
    }

    /// A socket could not be opened.
    pub fn connect_failed(&mut self)
        ensures
            opt_str_view(final(self).auth_token) == opt_str_view(old(self).auth_token),
            opt_str_view(final(self).user_email) == opt_str_view(old(self).user_email),
            final(self).ws_status == ConnectionStatus::Error,
            card_views(final(self).sessions@) == card_views(old(self).sessions@),
            text_views(final(self).selected_sessions@) == text_views(old(self).selected_sessions@),
    {
        self.ws_status = ConnectionStatus::Error;
    }

    /// The cards that pass the filter, in order.
    pub fn filtered_sessions(&self) -> (r: Vec<SessionCard>)
        ensures
            card_views(r@) == card_views(self.sessions@).filter(|c: SessionCardView| card_shown(c, self.filter_text@)),
    {
        let ghost cv = card_views(self.sessions@);
        let ghost pred = |c: SessionCardView| card_shown(c, self.filter_text@);
        let empty = self.filter_text.as_str().unicode_len() == 0;
        let needle = to_lowercase(self.filter_text.as_str());
        let mut r: Vec<SessionCard> = Vec::new();
        let mut i: usize = 0;
        while i < self.sessions.len()
            invariant
                i <= self.sessions@.len(),
                cv == card_views(self.sessions@),
                pred == (|c: SessionCardView| card_shown(c, self.filter_text@)),
                empty == (self.filter_text@.len() == 0),
                needle@ == lowercase(self.filter_text@),
                card_views(r@) == cv.take(i as int).filter(pred),
            decreases self.sessions@.len() - i,
        {
            let c = &self.sessions[i];
            proof {
                assert(cv.take(i as int + 1) =~= cv.take(i as int).push(c@));
                cv.take(i as int).lemma_filter_push(c@, pred);
            }
            let shown = c.status != SessionState::Exited && (empty
                || contains_text(to_lowercase(c.tag.as_str()).as_str(), needle.as_str())
                || contains_text(to_lowercase(c.id.as_str()).as_str(), needle.as_str()));
            if shown {
                let k = c.copy();
                let ghost prev = r@;
                r.push(k);
                assert(card_views(r@) =~= card_views(prev).push(k@));
            }
            i = i + 1;
        }
        assert(cv.take(i as int) =~= cv);
        r
    }

    /// Puts the cards in the chosen order.
    pub fn sort_sessions(&mut self)
        ensures
            opt_str_view(final(self).auth_token) == opt_str_view(old(self).auth_token),
            opt_str_view(final(self).user_email) == opt_str_view(old(self).user_email),
            cards_sorted(card_views(old(self).sessions@), old(self).sort_by, card_views(final(self).sessions@)),
            final(self).sort_by == old(self).sort_by,
            final(self).filter_text@ == old(self).filter_text@,
            text_views(final(self).selected_sessions@) == text_views(old(self).selected_sessions@),
            final(self).show_bulk_actions == old(self).show_bulk_actions,
            final(self).ws_status == old(self).ws_status,
    {
        let mut cards: Vec<SessionCard> = Vec::new();
        std::mem::swap(&mut cards, &mut self.sessions);
        self.sessions = sort_cards(cards, self.sort_by);
    }

    /// Reacts to a message of the server.
    pub fn handle_ws_message(&mut self, notice: ServerNotice) -> (r: Vec<DashboardAction>)
        ensures
            opt_str_view(final(self).auth_token) == opt_str_view(old(self).auth_token),
            opt_str_view(final(self).user_email) == opt_str_view(old(self).user_email),
            final(self).sort_by == old(self).sort_by,
            final(self).filter_text@ == old(self).filter_text@,
            text_views(final(self).selected_sessions@) == text_views(old(self).selected_sessions@),
            final(self).show_bulk_actions == old(self).show_bulk_actions,
            final(self).ws_status == old(self).ws_status,
            notice_handled(*old(self), *final(self), notice, dashboard_actions(r@)),
    {
        let mut actions: Vec<DashboardAction> = Vec::new();
        match notice {
            ServerNotice::Authenticated => {
                actions.push(DashboardAction::Send(owned("{\"type\": \"list_sessions\"}")));
                assert(dashboard_actions(actions@) =~= seq![DashboardActionView::Send(list_sessions_text())]);
            },
            ServerNotice::SessionsList(Some(list)) => {
                let ghost parsed = list@.map_values(|f: SessionCardFields| card_of_fields(f));
                let ghost keep = |o: Option<SessionCardView>| o is Some;
                let mut cards: Vec<SessionCard> = Vec::new();
                let mut i: usize = 0;
                while i < list.len()
                    invariant
                        i <= list@.len(),
                        parsed == list@.map_values(|f: SessionCardFields| card_of_fields(f)),
                        keep == (|o: Option<SessionCardView>| o is Some),
                        card_views(cards@) == parsed.take(i as int).filter(keep).map_values(|o: Option<SessionCardView>| o->0),
                    decreases list@.len() - i,
                {
                    proof {
                        assert(parsed.take(i as int + 1) =~= parsed.take(i as int).push(parsed[i as int]));
                        parsed.take(i as int).lemma_filter_push(parsed[i as int], keep);
                    }
                    match parse_session_card(&list[i]) {
                        Some(c) => {
                            let ghost prev = cards@;
                            let ghost cv = c@;
                            cards.push(c);
                            assert(card_views(cards@) =~= card_views(prev).push(cv));
                            assert(parsed.take(i as int + 1).filter(keep).map_values(|o: Option<SessionCardView>| o->0) =~=
                                parsed.take(i as int).filter(keep).map_values(|o: Option<SessionCardView>| o->0).push(cv));
                        },
                        None => {},
                    }
                    i = i + 1;
                }
                assert(parsed.take(i as int) =~= parsed);
                self.sessions = sort_cards(cards, self.sort_by);
            },
            ServerNotice::SessionUpdate(f) => {
                match parse_session_card(&f) {
                    Some(c) => {
                        let mut cards: Vec<SessionCard> = Vec::new();
                        std::mem::swap(&mut cards, &mut self.sessions);
                        upsert(&mut cards, c);
                        self.sessions = sort_cards(cards, self.sort_by);
                    },
                    None => {},
                }
            },
            ServerNotice::SessionCreated(f) => {
                match parse_session_card(&f) {
                    Some(c) => {
                        if position_of(&self.sessions, c.id.as_str()).is_none() {
                            let mut cards: Vec<SessionCard> = Vec::new();
                            std::mem::swap(&mut cards, &mut self.sessions);
                            let ghost before = card_views(cards@);
                            let ghost cv = c@;
                            cards.push(c);
                            assert(card_views(cards@) =~= before.push(cv));
                            self.sessions = sort_cards(cards, self.sort_by);
                        }
                    },
                    None => {},
                }
            },
            ServerNotice::SessionRemoved(Some(id)) => {
                let mut cards: Vec<SessionCard> = Vec::new();
                std::mem::swap(&mut cards, &mut self.sessions);
                self.sessions = remove_cards(cards, id.as_str());
            },
            ServerNotice::Error { code: Some(code), message: _ } => {
                if str_eq(code.as_str(), "auth_failed") || str_eq(code.as_str(), "not_authenticated") {
                    actions.push(DashboardAction::Logout);
                    assert(dashboard_actions(actions@) =~= seq![DashboardActionView::Logout]);
                } else {
                    assert(dashboard_actions(actions@) =~= Seq::<DashboardActionView>::empty());
                }
            },
            _ => {},
        }
        actions
    }

    /// Reacts to a request; returns whether to render again and what the page must do.
    pub fn update(&mut self, msg: DashboardMsg) -> (r: (bool, Vec<DashboardAction>))
        ensures
            opt_str_view(final(self).auth_token) == opt_str_view(old(self).auth_token),
            opt_str_view(final(self).user_email) == opt_str_view(old(self).user_email),
            r.0 == !(msg is SendPing),
            match msg {
                DashboardMsg::WsConnected => {
                    &&& final(self).ws_status == ConnectionStatus::Connected
                    &&& dashboard_actions(r.1@) == (match old(self).auth_token {
                        Some(t) => seq![DashboardActionView::Authenticate(t@), DashboardActionView::Send(list_sessions_text())],
                        None => Seq::empty(),
                    }).push(DashboardActionView::StartHeartbeat)
                    &&& unchanged_view(*old(self), *final(self))
                },
                DashboardMsg::WsDisconnected => {
                    &&& final(self).ws_status == ConnectionStatus::Disconnected
                    &&& dashboard_actions(r.1@) == seq![DashboardActionView::StopHeartbeat, DashboardActionView::ScheduleReconnect]
                    &&& unchanged_view(*old(self), *final(self))
                },
                DashboardMsg::WsError(_) => {
                    &&& final(self).ws_status == ConnectionStatus::Error
                    &&& dashboard_actions(r.1@) == seq![DashboardActionView::StopHeartbeat, DashboardActionView::DropSocket,
                        DashboardActionView::ScheduleReconnect]
                    &&& unchanged_view(*old(self), *final(self))
                },
                DashboardMsg::WsReconnect => {
                    &&& final(self).ws_status == old(self).ws_status
                    &&& dashboard_actions(r.1@) == seq![DashboardActionView::DropSocket, DashboardActionView::Connect]
                    &&& unchanged_view(*old(self), *final(self))
                },
                DashboardMsg::WsMessage(notice) => {
                    &&& notice_handled(*old(self), *final(self), notice, dashboard_actions(r.1@))
                    &&& final(self).ws_status == old(self).ws_status
                    &&& same_controls(*old(self), *final(self))
                },
                DashboardMsg::SendPing => {
                    &&& dashboard_actions(r.1@) == seq![DashboardActionView::Send(ping_text())]
                    &&& final(self).ws_status == old(self).ws_status
                    &&& unchanged_view(*old(self), *final(self))
                },
                DashboardMsg::SessionsUpdate(list) => {
                    &&& dashboard_actions(r.1@).len() == 0
                    &&& cards_sorted(card_views(list@), old(self).sort_by, card_views(final(self).sessions@))
                    &&& final(self).ws_status == old(self).ws_status
                    &&& same_controls(*old(self), *final(self))
                },
                DashboardMsg::SessionUpdate(card) => {
                    &&& dashboard_actions(r.1@).len() == 0
                    &&& cards_sorted(upsert_card(card_views(old(self).sessions@), card@), old(self).sort_by,
                        card_views(final(self).sessions@))
                    &&& final(self).ws_status == old(self).ws_status
                    &&& same_controls(*old(self), *final(self))
                },
                DashboardMsg::ToggleSelection(id) => {
                    &&& dashboard_actions(r.1@).len() == 0
                    &&& text_views(final(self).selected_sessions@) == toggled(text_views(old(self).selected_sessions@), id@)
                    &&& final(self).show_bulk_actions == (final(self).selected_sessions@.len() > 0)
                    &&& same_cards_and_filter(*old(self), *final(self))
                },
                DashboardMsg::SelectAll => {
                    &&& dashboard_actions(r.1@).len() == 0
                    &&& text_views(final(self).selected_sessions@) == card_views(old(self).sessions@)
                        .filter(|c: SessionCardView| card_shown(c, old(self).filter_text@)).map_values(|c: SessionCardView| c.id)
                    &&& final(self).show_bulk_actions == (final(self).selected_sessions@.len() > 0)
                    &&& same_cards_and_filter(*old(self), *final(self))
                },
                DashboardMsg::DeselectAll => {
                    &&& dashboard_actions(r.1@).len() == 0
                    &&& final(self).selected_sessions@.len() == 0
                    &&& !final(self).show_bulk_actions
                    &&& same_cards_and_filter(*old(self), *final(self))
                },
                DashboardMsg::BulkKill => {
                    &&& dashboard_actions(r.1@) == text_views(old(self).selected_sessions@)
                        .map_values(|id: Seq<char>| DashboardActionView::Send(stop_text(id)))
                    &&& final(self).selected_sessions@.len() == 0
                    &&& !final(self).show_bulk_actions
                    &&& same_cards_and_filter(*old(self), *final(self))
                },
                DashboardMsg::BulkConfirm(confirm) => {
                    &&& dashboard_actions(r.1@) == text_views(old(self).selected_sessions@)
                        .map_values(|id: Seq<char>| DashboardActionView::Send(session_action_text(id, confirm)))
                    &&& final(self).selected_sessions@.len() == 0
                    &&& !final(self).show_bulk_actions
                    &&& same_cards_and_filter(*old(self), *final(self))
                },
                DashboardMsg::FilterChanged(text) => {
                    &&& dashboard_actions(r.1@).len() == 0
                    &&& final(self).filter_text@ == text@
                    &&& card_views(final(self).sessions@) == card_views(old(self).sessions@)
                    &&& final(self).sort_by == old(self).sort_by
                    &&& final(self).ws_status == old(self).ws_status
                    &&& text_views(final(self).selected_sessions@) == text_views(old(self).selected_sessions@)
                    &&& final(self).show_bulk_actions == old(self).show_bulk_actions
                },
                DashboardMsg::SortChanged(by) => {
                    &&& dashboard_actions(r.1@).len() == 0
                    &&& final(self).sort_by == by
                    &&& cards_sorted(card_views(old(self).sessions@), by, card_views(final(self).sessions@))
                    &&& final(self).filter_text@ == old(self).filter_text@
                    &&& final(self).ws_status == old(self).ws_status
                    &&& text_views(final(self).selected_sessions@) == text_views(old(self).selected_sessions@)
                    &&& final(self).show_bulk_actions == old(self).show_bulk_actions
                },
                DashboardMsg::Refresh => {
                    &&& dashboard_actions(r.1@) == seq![DashboardActionView::Send(list_sessions_text())]
                    &&& final(self).ws_status == old(self).ws_status
                    &&& unchanged_view(*old(self), *final(self))
                },
            },
    {
        match msg {
            DashboardMsg::WsConnected => {
                self.ws_status = ConnectionStatus::Connected;
                let mut actions: Vec<DashboardAction> = Vec::new();
                match &self.auth_token {
                    Some(t) => {
                        actions.push(DashboardAction::Authenticate(t.clone()));
                        actions.push(DashboardAction::Send(owned("{\"type\": \"list_sessions\"}")));
                    },
                    None => {},
                }
                let ghost before = dashboard_actions(actions@);
                actions.push(DashboardAction::StartHeartbeat);
                assert(dashboard_actions(actions@) =~= before.push(DashboardActionView::StartHeartbeat));
                (true, actions)
            },
            DashboardMsg::WsDisconnected => {
                self.ws_status = ConnectionStatus::Disconnected;
                let actions = vec![DashboardAction::StopHeartbeat, DashboardAction::ScheduleReconnect];
                assert(dashboard_actions(actions@) =~= seq![DashboardActionView::StopHeartbeat, DashboardActionView::ScheduleReconnect]);
                (true, actions)
            },
            DashboardMsg::WsError(_) => {
                self.ws_status = ConnectionStatus::Error;
                let actions = vec![DashboardAction::StopHeartbeat, DashboardAction::DropSocket, DashboardAction::ScheduleReconnect];
                assert(dashboard_actions(actions@) =~= seq![DashboardActionView::StopHeartbeat, DashboardActionView::DropSocket,
                    DashboardActionView::ScheduleReconnect]);
                (true, actions)
            },
            DashboardMsg::WsReconnect => {
                let actions = vec![DashboardAction::DropSocket, DashboardAction::Connect];
                assert(dashboard_actions(actions@) =~= seq![DashboardActionView::DropSocket, DashboardActionView::Connect]);
                (true, actions)
            },
            DashboardMsg::WsMessage(notice) => {
                let actions = self.handle_ws_message(notice);
                (true, actions)
            },
            DashboardMsg::SendPing => {
                let actions = vec![DashboardAction::Send(owned("{\"type\": \"ping\"}"))];
                assert(dashboard_actions(actions@) =~= seq![DashboardActionView::Send(ping_text())]);
                (false, actions)
            },
            DashboardMsg::SessionsUpdate(list) => {
                self.sessions = sort_cards(list, self.sort_by);
                (true, Vec::new())
            },
            DashboardMsg::SessionUpdate(card) => {
                let mut cards: Vec<SessionCard> = Vec::new();
                std::mem::swap(&mut cards, &mut self.sessions);
                upsert(&mut cards, card);
                self.sessions = sort_cards(cards, self.sort_by);
                (true, Vec::new())
            },
            DashboardMsg::ToggleSelection(id) => {
                toggle_id(&mut self.selected_sessions, id);
                self.show_bulk_actions = self.selected_sessions.len() > 0;
                (true, Vec::new())
            },
            DashboardMsg::SelectAll => {
                let shown = self.filtered_sessions();
                let mut ids: Vec<String> = Vec::new();
                let mut i: usize = 0;
                while i < shown.len()
                    invariant
                        i <= shown@.len(),
                        text_views(ids@) == card_views(shown@).take(i as int).map_values(|c: SessionCardView| c.id),
                    decreases shown@.len() - i,
                {
                    let ghost prev = ids@;
                    let id = shown[i].id.clone();
                    ids.push(id);
                    assert(text_views(ids@) =~= text_views(prev).push(shown@[i as int].id@));
                    assert(card_views(shown@).take(i as int + 1).map_values(|c: SessionCardView| c.id) =~=
                        card_views(shown@).take(i as int).map_values(|c: SessionCardView| c.id).push(shown@[i as int].id@));
                    i = i + 1;
                }
                assert(card_views(shown@).take(i as int) =~= card_views(shown@));
                self.selected_sessions = ids;
                self.show_bulk_actions = self.selected_sessions.len() > 0;
                (true, Vec::new())
            },
            DashboardMsg::DeselectAll => {
                self.selected_sessions = Vec::new();
                self.show_bulk_actions = false;
                (true, Vec::new())
            },
            DashboardMsg::BulkKill => {
                let actions = bulk_messages(&self.selected_sessions, None);
                self.selected_sessions = Vec::new();
                self.show_bulk_actions = false;
                (true, actions)
            },
            DashboardMsg::BulkConfirm(confirm) => {
                let actions = bulk_messages(&self.selected_sessions, Some(confirm));
                self.selected_sessions = Vec::new();
                self.show_bulk_actions = false;
                (true, actions)
            },
            DashboardMsg::FilterChanged(text) => {
                self.filter_text = text;
                (true, Vec::new())
            },
            DashboardMsg::SortChanged(by) => {
                self.sort_by = by;
                self.sort_sessions();
                (true, Vec::new())
            },
            DashboardMsg::Refresh => {
                let actions = vec![DashboardAction::Send(owned("{\"type\": \"list_sessions\"}"))];
                assert(dashboard_actions(actions@) =~= seq![DashboardActionView::Send(list_sessions_text())]);
                (true, actions)
            },
        }
    }
}


/// Everything but the connection state is as before.
pub open spec fn unchanged_view(before: Dashboard, after: Dashboard) -> bool {
    &&& card_views(after.sessions@) == card_views(before.sessions@)
    &&& same_controls(before, after)
}

/// The selection, filter and order are as before.
pub open spec fn same_controls(before: Dashboard, after: Dashboard) -> bool {
    &&& text_views(after.selected_sessions@) == text_views(before.selected_sessions@)
    &&& after.show_bulk_actions == before.show_bulk_actions
    &&& after.filter_text@ == before.filter_text@
    &&& after.sort_by == before.sort_by
}

/// The cards, filter, order and connection state are as before.
pub open spec fn same_cards_and_filter(before: Dashboard, after: Dashboard) -> bool {
    &&& card_views(after.sessions@) == card_views(before.sessions@)
    &&& after.filter_text@ == before.filter_text@
    &&& after.sort_by == before.sort_by
    &&& after.ws_status == before.ws_status
}

/// Removes the first occurrence of `id`, or adds it at the end.
fn toggle_id(ids: &mut Vec<String>, id: String)
    ensures
        text_views(final(ids)@) == toggled(text_views(old(ids)@), id@),
{
    let ghost tv = text_views(ids@);
    let mut i: usize = 0;
    while i < ids.len()
        invariant
            i <= ids@.len(),
            ids@ == old(ids)@,
            tv == text_views(ids@),
            forall|j: int| 0 <= j < i ==> tv[j] != id@,
        decreases ids@.len() - i,
    {
        if str_eq(ids[i].as_str(), id.as_str()) {
            proof {
                assert(tv[i as int] == id@);
                assert(tv.contains(id@));
                assert(first_id_at(tv, id@, i as int));
                let k = choose|k: int| first_id_at(tv, id@, k);
                if k < i { assert(tv[k] != id@); }
                if i < k { assert(tv[i as int] != id@); }
                assert(k == i as int);
                assert(toggled(tv, id@) == tv.remove(i as int));
            }
            ids.remove(i);
            assert(text_views(ids@) =~= tv.remove(i as int));
            return;
        }
        i = i + 1;
    }
    proof {
        if tv.contains(id@) {
            let k = choose|k: int| 0 <= k < tv.len() && tv[k] == id@;
            assert(tv[k] != id@);
        }
    }
    ids.push(id);
    assert(text_views(ids@) =~= tv.push(id@));
}

fn stop_message(id: &str) -> (r: String)
    ensures
        r@ == stop_text(id@),
{
    let a = concat("{\"type\": \"stop_session\", \"session_id\": \"", id);
    concat(a.as_str(), "\"}")
}

fn session_action_message(id: &str, confirm: bool) -> (r: String)
    ensures
        r@ == session_action_text(id@, confirm),
{
    let a = concat("{\"type\": \"session_action\", \"session_id\": \"", id);
    let b = concat(a.as_str(), "\", \"action\": \"");
    let c = concat(b.as_str(), if confirm { "confirm" } else { "cancel" });
    concat(c.as_str(), "\"}")
}

/// One message per selected session: a stop request, or the answer `confirm`
/// gives to its prompt.
fn bulk_messages(ids: &Vec<String>, confirm: Option<bool>) -> (r: Vec<DashboardAction>)
    ensures
        dashboard_actions(r@) == match confirm {
            None => text_views(ids@).map_values(|id: Seq<char>| DashboardActionView::Send(stop_text(id))),
            Some(c) => text_views(ids@).map_values(|id: Seq<char>| DashboardActionView::Send(session_action_text(id, c))),
        },
{
    let ghost f = match confirm {
        None => |id: Seq<char>| DashboardActionView::Send(stop_text(id)),
        Some(c) => |id: Seq<char>| DashboardActionView::Send(session_action_text(id, c)),
    };
    let mut r: Vec<DashboardAction> = Vec::new();
    let mut i: usize = 0;
    while i < ids.len()
        invariant
            i <= ids@.len(),
            f == (match confirm {
                None => |id: Seq<char>| DashboardActionView::Send(stop_text(id)),
                Some(c) => |id: Seq<char>| DashboardActionView::Send(session_action_text(id, c)),
            }),
            dashboard_actions(r@) == text_views(ids@).take(i as int).map_values(f),
        decreases ids@.len() - i,
    {
        let text = match confirm {
            None => stop_message(ids[i].as_str()),
            Some(c) => session_action_message(ids[i].as_str(), c),
        };
        let ghost prev = r@;
        r.push(DashboardAction::Send(text));
        assert(dashboard_actions(r@) =~= dashboard_actions(prev).push(f(ids@[i as int]@)));
        assert(text_views(ids@).take(i as int + 1).map_values(f) =~= text_views(ids@).take(i as int).map_values(f).push(f(ids@[i as int]@)));
        i = i + 1;
    }
    assert(text_views(ids@).take(i as int) =~= text_views(ids@));
    r
}


/// The figures at the top of the dashboard, over the cards that pass the filter.
pub struct DashboardSummary {
    pub total: usize,
    pub running: usize,
    pub needs_confirm: usize,
    pub errors: usize,
    pub attention: usize,
}

/// A card needs attention when it waits for a confirmation or has failed.
pub open spec fn needs_attention(c: SessionCardView) -> bool {
    c.needs_confirmation || c.status == SessionState::Error
}

/// The number of cards that satisfy `p`.
pub open spec fn count_cards(cards: Seq<SessionCardView>, p: spec_fn(SessionCardView) -> bool) -> nat {
    cards.filter(p).len()
}

fn count_where(cards: &Vec<SessionCard>, what: u8) -> (r: usize)
    requires
        what < 4,
    ensures
        r == count_cards(card_views(cards@), card_test(what)),
{
    let ghost cv = card_views(cards@);
    let ghost p = card_test(what);
    let mut n: usize = 0;
    let mut i: usize = 0;
    while i < cards.len()
        invariant
            i <= cards@.len(),
            cv == card_views(cards@),
            p == card_test(what),
            what < 4,
            n == cv.take(i as int).filter(p).len(),
            n <= i,
        decreases cards@.len() - i,
    {
        let c = &cards[i];
        proof {
            assert(cv.take(i as int + 1) =~= cv.take(i as int).push(c@));
            cv.take(i as int).lemma_filter_push(c@, p);
        }
        let hit = if what == 0 {
            true
        } else if what == 1 {
            c.status == SessionState::Running
        } else if what == 2 {
            c.needs_confirmation
        } else {
            c.status == SessionState::Error
        };
        let attention = what == 3 && c.needs_confirmation;
        if hit || attention {
            n = n + 1;
        }
        i = i + 1;
    }
    assert(cv.take(i as int) =~= cv);
    n
}

/// The tests that the figures count by: every card, the running ones, those
/// waiting for a confirmation, and those needing attention.
pub open spec fn card_test(what: u8) -> spec_fn(SessionCardView) -> bool {
    if what == 0 {
        |c: SessionCardView| true
    } else if what == 1 {
        |c: SessionCardView| c.status == SessionState::Running
    } else if what == 2 {
        |c: SessionCardView| c.needs_confirmation
    } else {
        |c: SessionCardView| needs_attention(c)
    }
}

/// The message shown when cards need attention.
pub open spec fn attention_text(n: nat) -> Seq<char> {
    decimal_text(n) + " session(s) need your attention"@
}

/// Why the dashboard shows no card.
#[derive(Debug, Clone, Copy, PartialEq, Eq, Structural)]
pub enum EmptyState {
    NotLoggedIn,
    NoSessions,
    NoMatches,
}

/// Why an empty dashboard is empty: not logged in, else no session at all
/// when there is no filter, else no match for the filter.
pub open spec fn empty_state_of(logged_in: bool, filter_empty: bool) -> EmptyState {
    if !logged_in {
        EmptyState::NotLoggedIn
    } else if filter_empty {
        EmptyState::NoSessions
    } else {
        EmptyState::NoMatches
    }
}

/// The class and label of the connection state.
pub open spec fn connection_text(s: ConnectionStatus) -> (Seq<char>, Seq<char>) {
    match s {
        ConnectionStatus::Connected => ("status connected"@, "\u{25cf} Connected"@),
        ConnectionStatus::Connecting => ("status connecting"@, "\u{25cb} Connecting..."@),
        ConnectionStatus::Disconnected => ("status disconnected"@, "\u{25cb} Disconnected"@),
        ConnectionStatus::Error => ("status error"@, "\u{25cf} Error"@),
    }
}

/// What a card shows.
pub struct CardDisplay {
    pub status_class: String,
    pub selected: bool,
    pub label: String,
    /// The width style and the text of the progress bar.
    pub progress: Option<(String, String)>,
    pub operation: Option<String>,
    /// The prompt, when the session waits for a confirmation.
    pub prompt: Option<String>,
    pub clients: String,
    /// The last activity as shown: the formatted date where the text reads as one,
    /// else the text as it came.
    pub activity: String,
    pub connect_href: String,
}

impl Dashboard {
    /// The figures at the top of the dashboard.
    pub fn summary(&self) -> (r: DashboardSummary)
        ensures
            ({
                let shown = card_views(self.sessions@).filter(|c: SessionCardView| card_shown(c, self.filter_text@));
                &&& r.total == count_cards(shown, card_test(0))
                &&& r.running == count_cards(shown, card_test(1))
                &&& r.needs_confirm == count_cards(shown, card_test(2))
                &&& r.errors == shown.filter(|c: SessionCardView| c.status == SessionState::Error).len()
                &&& r.attention == count_cards(shown, card_test(3))
            }),
    {
        let shown = self.filtered_sessions();
        let ghost cv = card_views(shown@);
        let ghost perr = |c: SessionCardView| c.status == SessionState::Error;
        let mut errors: usize = 0;
        let mut i: usize = 0;
        while i < shown.len()
            invariant
                i <= shown@.len(),
                cv == card_views(shown@),
                perr == (|c: SessionCardView| c.status == SessionState::Error),
                errors == cv.take(i as int).filter(perr).len(),
                errors <= i,
            decreases shown@.len() - i,
        {
            proof {
                assert(cv.take(i as int + 1) =~= cv.take(i as int).push(cv[i as int]));
                cv.take(i as int).lemma_filter_push(cv[i as int], perr);
            }
            if shown[i].status == SessionState::Error {
                errors = errors + 1;
            }
            i = i + 1;
        }
        assert(cv.take(i as int) =~= cv);
        DashboardSummary {
            total: count_where(&shown, 0),
            running: count_where(&shown, 1),
            needs_confirm: count_where(&shown, 2),
            errors,
            attention: count_where(&shown, 3),
        }
    }

    /// Why an empty dashboard is empty.
    pub fn empty_state(&self) -> (r: EmptyState)
        ensures
            r == empty_state_of(self.user_email is Some, self.filter_text@.len() == 0),
    {
        if self.user_email.is_none() {
            EmptyState::NotLoggedIn
        } else if self.filter_text.as_str().unicode_len() == 0 {
            EmptyState::NoSessions
        } else {
            EmptyState::NoMatches
        }
    }

    /// The class and label of the connection state.
    pub fn view_connection_status(&self) -> (r: (&'static str, &'static str))
        ensures
            (r.0@, r.1@) == connection_text(self.ws_status),
    {
        match self.ws_status {
            ConnectionStatus::Connected => ("status connected", "\u{25cf} Connected"),
            ConnectionStatus::Connecting => ("status connecting", "\u{25cb} Connecting..."),
            ConnectionStatus::Disconnected => ("status disconnected", "\u{25cb} Disconnected"),
            ConnectionStatus::Error => ("status error", "\u{25cf} Error"),
        }
    }

    /// The text of the bulk action bar: how many cards are selected.
    pub fn selection_text(&self) -> (r: String)
        ensures
            r@ == decimal_text(self.selected_sessions@.len()) + " selected"@,
    {
        let n = decimal(self.selected_sessions.len() as u64);
        concat(n.as_str(), " selected")
    }

    /// What a card shows: its state, whether it is selected, its progress as a
    /// bar width and a percentage, its operation, its prompt when it waits for a
    /// confirmation (`Action required` without one), its client count, its last
    /// activity and the link that opens its terminal. `activity_display` is the last
    /// activity read as a date and formatted in the browser's local time, or `None`
    /// where the text does not read as a date; then the text is shown as it came.
    pub fn render_session_card(&self, card: &SessionCard, activity_display: Option<String>) -> (r: CardDisplay)
        ensures
            r.activity@ == match activity_display {
                Some(d) => d@,
                None => card.last_activity@,
            },
            r.status_class@ == state_class(card.status),
            r.selected == text_views(self.selected_sessions@).contains(card.id@),
            r.label@ == state_label(card.status),
            match card.progress {
                Some(p) => r.progress matches Some(bar) && bar.0@ == "width: "@ + decimal_text(p as nat) + "%"@
                    && bar.1@ == decimal_text(p as nat) + "%"@,
                None => r.progress is None,
            },
            opt_str_view(r.operation) == opt_str_view(card.operation),
            opt_str_view(r.prompt) == (if card.needs_confirmation {
                Some(match card.confirmation_prompt {
                    Some(p) => p@,
                    None => "Action required"@,
                })
            } else {
                None
            }),
            r.clients@ == "\u{1f465} "@ + decimal_text(card.client_count as nat),
            r.connect_href@ == "/#"@ + card.tag@,
    {
        let ghost tv = text_views(self.selected_sessions@);
        let mut selected = false;
        let mut i: usize = 0;
        while i < self.selected_sessions.len() && !selected
            invariant
                i <= self.selected_sessions@.len(),
                tv == text_views(self.selected_sessions@),
                selected ==> tv.contains(card.id@),
                !selected ==> forall|j: int| 0 <= j < i ==> tv[j] != card.id@,
            decreases self.selected_sessions@.len() - i,
        {
            if str_eq(self.selected_sessions[i].as_str(), card.id.as_str()) {
                assert(tv[i as int] == card.id@);
                selected = true;
            }
            i = i + 1;
        }
        let progress = match card.progress {
            Some(p) => {
                let d = decimal(p as u64);
                let a = concat("width: ", d.as_str());
                Some((concat(a.as_str(), "%"), concat(d.as_str(), "%")))
            },
            None => None,
        };
        let prompt = if card.needs_confirmation {
            match &card.confirmation_prompt {
                Some(p) => Some(p.clone()),
                None => Some(owned("Action required")),
            }
        } else {
            None
        };
        let count = decimal(card.client_count as u64);
        CardDisplay {
            status_class: owned(status_class(card.status)),
            selected,
            label: format_status(card.status),
            progress,
            operation: copy_opt_string(&card.operation),
            prompt,
            clients: concat("\u{1f465} ", count.as_str()),
            activity: match activity_display {
                Some(d) => d,
                None => card.last_activity.clone(),
            },
            connect_href: concat("/#", card.tag.as_str()),
        }
    }
}

/// The message shown when cards need attention.
pub fn attention_message(n: usize) -> (r: String)
    ensures
        r@ == attention_text(n as nat),
{
    let d = decimal(n as u64);
    concat(d.as_str(), " session(s) need your attention")
}


/// Toggling a session that is not selected twice leaves the selection as it was.
pub proof fn lemma_toggle_twice(ids: Seq<Seq<char>>, id: Seq<char>)
    requires
        !ids.contains(id),
    ensures
        toggled(toggled(ids, id), id) == ids,
{
    let t = ids.push(id);
    assert(t.contains(id)) by {
        assert(t[ids.len() as int] == id);
    }
    assert(first_id_at(t, id, ids.len() as int)) by {
        assert forall|j: int| 0 <= j < ids.len() implies t[j] != id by {
            assert(t[j] == ids[j]);
        }
    }
    let k = choose|k: int| first_id_at(t, id, k);
    if k < ids.len() {
        assert(ids[k] == id);
    }
    assert(t.remove(ids.len() as int) =~= ids);
}

/// The dashboard never shows an exited session.
pub proof fn lemma_filtered_never_exited(cards: Seq<SessionCardView>, filter: Seq<char>, i: int)
    requires
        0 <= i < cards.filter(|c: SessionCardView| card_shown(c, filter)).len(),
    ensures
        cards.filter(|c: SessionCardView| card_shown(c, filter))[i].status != SessionState::Exited,
{
    let p = |c: SessionCardView| card_shown(c, filter);
    cards.lemma_filter_pred(p, i);
}

/// No two cards share a session id.
pub open spec fn ids_distinct(cards: Seq<SessionCardView>) -> bool {
    forall|i: int, j: int| 0 <= i < j < cards.len() ==> cards[i].id != cards[j].id
}

/// The cards that a session list gives: those of its entries that read as cards.
pub open spec fn listed_cards(list: Seq<SessionCardFields>) -> Seq<SessionCardView> {
    list.map_values(|f: SessionCardFields| card_of_fields(f)).filter(|o: Option<SessionCardView>| o is Some)
        .map_values(|o: Option<SessionCardView>| o->0)
}

proof fn lemma_filter_keeps_ids_distinct(cards: Seq<SessionCardView>, p: spec_fn(SessionCardView) -> bool)
    requires
        ids_distinct(cards),
    ensures
        ids_distinct(cards.filter(p)),
        forall|i: int| 0 <= i < cards.filter(p).len() ==> cards.contains(#[trigger] cards.filter(p)[i]),
    decreases cards.len(),
{
    reveal(Seq::filter);
    if cards.len() > 0 {
        let d = cards.drop_last();
        lemma_filter_keeps_ids_distinct(d, p);
        let sub = d.filter(p);
        assert forall|i: int| 0 <= i < sub.len() implies cards.contains(#[trigger] sub[i]) by {
            let k = choose|k: int| 0 <= k < d.len() && d[k] == sub[i];
            assert(cards[k] == sub[i]);
        }
        if p(cards.last()) {
            let out = sub.push(cards.last());
            assert(cards.filter(p) == out);
            assert forall|i: int, j: int| 0 <= i < j < out.len() implies out[i].id != out[j].id by {
                if j == sub.len() {
                    let k = choose|k: int| 0 <= k < d.len() && d[k] == sub[i];
                    assert(cards[k] == out[i]);
                    assert(cards[cards.len() - 1] == out[j]);
                } else {
                    assert(out[i] == sub[i] && out[j] == sub[j]);
                }
            }
            assert forall|i: int| 0 <= i < out.len() implies cards.contains(#[trigger] out[i]) by {
                if i == sub.len() {
                    assert(cards[cards.len() - 1] == out[i]);
                } else {
                    assert(out[i] == sub[i]);
                }
            }
        }
    }
}

proof fn lemma_sorted_keeps_ids_distinct(cards: Seq<SessionCardView>, by: SortBy, out: Seq<SessionCardView>)
    requires
        ids_distinct(cards),
        cards_sorted(cards, by, out),
    ensures
        ids_distinct(out),
{
    if by != SortBy::LastActivity {
        let src = sort_source(cards, by);
        assert(ids_distinct(src)) by {
            if by == SortBy::Progress {
                assert forall|i: int, j: int| 0 <= i < j < src.len() implies src[i].id != src[j].id by {
                    assert(src[i] == cards[cards.len() - 1 - i]);
                    assert(src[j] == cards[cards.len() - 1 - j]);
                }
            }
        }
        let order = choose|order: Seq<int>|
            #[trigger] is_stable_order(card_keys(src, by), order) && out == order.map_values(|i: int| src[i]);
        assert forall|i: int, j: int| 0 <= i < j < out.len() implies out[i].id != out[j].id by {
            assert(out[i] == src[order[i]]);
            assert(out[j] == src[order[j]]);
            assert(order[i] != order[j]);
        }
    }
}

/// Every reaction to a server message keeps the dashboard's session ids distinct,
/// as long as a session list that replaces the cards lists each id once.
pub proof fn lemma_notice_keeps_ids_distinct(
    before: Dashboard,
    after: Dashboard,
    notice: ServerNotice,
    actions: Seq<DashboardActionView>,
)
    requires
        notice_handled(before, after, notice, actions),
        ids_distinct(card_views(before.sessions@)),
        notice matches ServerNotice::SessionsList(Some(list)) ==> ids_distinct(listed_cards(list@)),
    ensures
        ids_distinct(card_views(after.sessions@)),
{
    let cards = card_views(before.sessions@);
    match notice {
        ServerNotice::SessionsList(Some(list)) => {
            assert(listed_cards(list@) == list@.map_values(|f: SessionCardFields| card_of_fields(f))
                .filter(|o: Option<SessionCardView>| o is Some).map_values(|o: Option<SessionCardView>| o->0));
            lemma_sorted_keeps_ids_distinct(listed_cards(list@), before.sort_by, card_views(after.sessions@));
        },
        ServerNotice::SessionUpdate(f) => {
            if let Some(c) = card_of_fields(f) {
                let up = upsert_card(cards, c);
                assert(ids_distinct(up)) by {
                    if has_card(cards, c.id) {
                        let w = choose|i: int| 0 <= i < cards.len() && #[trigger] cards[i].id == c.id;
                        assert(first_with_id(cards, c.id, w));
                        let k = choose|i: int| first_with_id(cards, c.id, i);
                        assert forall|i: int, j: int| 0 <= i < j < up.len() implies up[i].id != up[j].id by {
                            if i != k && j != k {
                                assert(up[i] == cards[i] && up[j] == cards[j]);
                            } else if i == k {
                                assert(up[j] == cards[j]);
                            } else {
                                assert(up[i] == cards[i]);
                            }
                        }
                    } else {
                        assert forall|i: int, j: int| 0 <= i < j < up.len() implies up[i].id != up[j].id by {
                            if j == cards.len() {
                                assert(up[i] == cards[i]);
                            } else {
                                assert(up[i] == cards[i] && up[j] == cards[j]);
                            }
                        }
                    }
                }
                lemma_sorted_keeps_ids_distinct(up, before.sort_by, card_views(after.sessions@));
            }
        },
        ServerNotice::SessionCreated(f) => {
            if let Some(c) = card_of_fields(f) {
                if !has_card(cards, c.id) {
                    let up = cards.push(c);
                    assert forall|i: int, j: int| 0 <= i < j < up.len() implies up[i].id != up[j].id by {
                        if j == cards.len() {
                            assert(up[i] == cards[i]);
                        } else {
                            assert(up[i] == cards[i] && up[j] == cards[j]);
                        }
                    }
                    lemma_sorted_keeps_ids_distinct(up, before.sort_by, card_views(after.sessions@));
                }
            }
        },
        ServerNotice::SessionRemoved(Some(id)) => {
            lemma_filter_keeps_ids_distinct(cards, |c: SessionCardView| c.id != id@);
        },
        _ => {},
    }
}

/// The order of states when sorting by status: errors first, then sessions that
/// wait for a confirmation, running, idle and initializing ones, exited ones last.
pub open spec fn status_sequence() -> Seq<SessionState> {
    seq![
        SessionState::Error,
        SessionState::WaitingForConfirm,
        SessionState::Running,
        SessionState::Idle,
        SessionState::Initializing,
        SessionState::Exited,
    ]
}

proof fn lemma_status_keys_ordered(keys: Seq<SortKeyView>, order: Seq<int>, i: int, j: int)
    requires
        is_stable_order(keys, order),
        forall|k: int| 0 <= k < keys.len() ==> (#[trigger] keys[k]).text == Seq::<char>::empty(),
        0 <= i <= j < order.len(),
    ensures
        keys[order[i]].rank <= keys[order[j]].rank,
    decreases j - i,
{
    if i < j {
        lemma_status_keys_ordered(keys, order, i, j - 1);
        assert(goes_before(keys, order[j - 1], order[j - 1 + 1]));
        lemma_goes_before_key(keys, order[j - 1], order[j]);
        let e = Seq::<char>::empty();
        assert(!text_lt(e, e)) by {
            if text_lt(e, e) {
                let w = choose|w: int| 0 <= w <= e.len() && w <= e.len() && #[trigger] e.take(w) == e.take(w) && (
                    (w == e.len() && w < e.len()) || (w < e.len() && w < e.len() && (e[w] as u32) < (e[w] as u32)));
            }
        }
        assert(keys[order[j - 1]].text == e && keys[order[j]].text == e);
    }
}

/// Sorting by status puts every card no later in the status order than the cards
/// after it: errors, then waiting for a confirmation, running, idle, initializing,
/// exited.
pub proof fn lemma_status_sort_order(cards: Seq<SessionCardView>, out: Seq<SessionCardView>, i: int, j: int)
    requires
        cards_sorted(cards, SortBy::Status, out),
        0 <= i < j < out.len(),
    ensures
        exists|a: int, b: int| 0 <= a <= b < 6 && #[trigger] status_sequence()[a] == out[i].status
            && #[trigger] status_sequence()[b] == out[j].status,
{
    let src = sort_source(cards, SortBy::Status);
    let keys = card_keys(src, SortBy::Status);
    let order = choose|order: Seq<int>|
        #[trigger] is_stable_order(card_keys(src, SortBy::Status), order) && out == order.map_values(|k: int| src[k]);
    lemma_status_keys_ordered(keys, order, i, j);
    let ss = status_sequence();
    assert(ss[0] == SessionState::Error && ss[1] == SessionState::WaitingForConfirm && ss[2] == SessionState::Running
        && ss[3] == SessionState::Idle && ss[4] == SessionState::Initializing && ss[5] == SessionState::Exited);
    let a = state_rank(out[i].status) as int;
    let b = state_rank(out[j].status) as int;
    assert(out[i] == src[order[i]] && out[j] == src[order[j]]);
    assert(ss[a] == out[i].status);
    assert(ss[b] == out[j].status);
}

} // verus!

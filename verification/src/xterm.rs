//! The terminal widget: how the content given by the page reaches the terminal
//! on screen, when it scrolls, and its colours.

use vstd::prelude::*;

verus! {

/// An operation on the terminal on screen.
#[derive(Debug, Clone)]
pub enum TermOp {
    Clear,
    Write(Vec<u8>),
    ScrollToBottom,
    /// Hand the page a writer for direct output again.
    RegisterWriter,
    /// Forward typed text to the page.
    ListenInput,
    /// Hand the page its key sender, scroll-to-bottom callback and scroll watcher.
    RegisterCallbacks,
}

/// The mathematical value of an operation.
pub enum TermOpView {
    Clear,
    Write(Seq<u8>),
    ScrollToBottom,
    RegisterWriter,
    ListenInput,
    RegisterCallbacks,
}

impl View for TermOp {
    type V = TermOpView;

    open spec fn view(&self) -> TermOpView {
        match self {
            TermOp::Clear => TermOpView::Clear,
            TermOp::Write(b) => TermOpView::Write(b@),
            TermOp::ScrollToBottom => TermOpView::ScrollToBottom,
            TermOp::RegisterWriter => TermOpView::RegisterWriter,
            TermOp::ListenInput => TermOpView::ListenInput,
            TermOp::RegisterCallbacks => TermOpView::RegisterCallbacks,
        }
    }
}

/// The views of a list of operations.
pub open spec fn term_ops(v: Seq<TermOp>) -> Seq<TermOpView> {
    v.map_values(|o: TermOp| o@)
}

/// The state of the terminal widget.
pub struct XTermState {
    /// Whether the terminal on screen exists.
    pub ready: bool,
    /// How much of the content has been written.
    pub written_len: usize,
    /// Content that arrived before the terminal existed.
    pub pending_content: Vec<u8>,
    /// Whether the user scrolled away from the end, which stops automatic scrolling.
    pub user_scrolled_up: bool,
}

fn push_op(ops: &mut Vec<TermOp>, o: TermOp)
    ensures
        term_ops(final(ops)@) == term_ops(old(ops)@).push(o@),
{
    let ghost ov = o@;
    ops.push(o);
    assert(term_ops(ops@) =~= term_ops(old(ops)@).push(ov));
}

fn tail_bytes(b: &Vec<u8>, from: usize) -> (r: Vec<u8>)
    requires
        from <= b@.len(),
    ensures
        r@ == b@.skip(from as int),
{
    let mut r: Vec<u8> = Vec::new();
    let mut i: usize = from;
    while i < b.len()
        invariant
            from <= i <= b@.len(),
            r@ == b@.subrange(from as int, i as int),
        decreases b@.len() - i,
    {
        r.push(b[i]);
        assert(b@.subrange(from as int, i as int + 1) =~= b@.subrange(from as int, i as int).push(b@[i as int]));
        i = i + 1;
    }
    assert(b@.subrange(from as int, b@.len() as int) =~= b@.skip(from as int));
    r
}

/// The operations that show a session's content after a switch: clear, write
/// the content when there is some, scroll to the end, hand out the writer.
pub open spec fn switch_ops(content: Seq<u8>) -> Seq<TermOpView> {
    seq![TermOpView::Clear] + (if content.len() > 0 { seq![TermOpView::Write(content)] } else { Seq::empty() })
        + seq![TermOpView::ScrollToBottom, TermOpView::RegisterWriter]
}

/// The operations that follow a change of content for the same session: the
/// new part when it grew (all of it when it was empty), then a scroll unless the
/// user scrolled up; a rewrite when it shrank.
pub open spec fn growth_ops(old_content: Seq<u8>, new_content: Seq<u8>, scrolled_up: bool) -> Seq<TermOpView> {
    if new_content.len() > old_content.len() {
        let part = if old_content.len() == 0 { new_content } else { new_content.skip(old_content.len() as int) };
        (if part.len() > 0 { seq![TermOpView::Write(part)] } else { Seq::empty() })
            + (if !scrolled_up { seq![TermOpView::ScrollToBottom] } else { Seq::empty() })
    } else if new_content.len() < old_content.len() {
        seq![TermOpView::Clear] + (if new_content.len() > 0 { seq![TermOpView::Write(new_content)] } else { Seq::empty() })
            + seq![TermOpView::ScrollToBottom]
    } else {
        Seq::empty()
    }
}

impl XTermState {
    /// A widget whose terminal is not created yet.
    pub fn new() -> (r: XTermState)
        ensures
            !r.ready,
            r.written_len == 0,
            r.pending_content@.len() == 0,
            !r.user_scrolled_up,
    {
        XTermState { ready: false, written_len: 0, pending_content: Vec::new(), user_scrolled_up: false }
    }

    /// The page gave new properties: a new session id shows that session's
    /// content from scratch; new content for the same session is added or
    /// rewritten. Before the terminal exists the content waits.
    pub fn changed(&mut self, id_changed: bool, old_content: &Vec<u8>, new_content: &Vec<u8>) -> (r: Vec<TermOp>)
        ensures
            if !old(self).ready {
                &&& term_ops(r@).len() == 0
                &&& final(self).pending_content@ == (if id_changed || new_content@ != old_content@ {
                    new_content@
                } else {
                    old(self).pending_content@
                })
                &&& final(self).written_len == old(self).written_len
                &&& final(self).user_scrolled_up == old(self).user_scrolled_up
                &&& !final(self).ready
            } else if id_changed {
                &&& term_ops(r@) == switch_ops(new_content@)
                &&& final(self).written_len == (if new_content@.len() > 0 { new_content@.len() as usize } else { old(self).written_len })
                &&& !final(self).user_scrolled_up
                &&& final(self).ready
                &&& final(self).pending_content@ == old(self).pending_content@
            } else if new_content@ != old_content@ {
                let grew = new_content@.len() > old_content@.len();
                let part = if old_content@.len() == 0 { new_content@ } else { new_content@.skip(old_content@.len() as int) };
                &&& term_ops(r@) == growth_ops(old_content@, new_content@, old(self).user_scrolled_up)
                &&& final(self).written_len == (if (grew && part.len() > 0) || (new_content@.len() < old_content@.len()
                    && new_content@.len() > 0) {
                    new_content@.len() as usize
                } else {
                    old(self).written_len
                })
                &&& final(self).user_scrolled_up == (if new_content@.len() < old_content@.len() { false } else {
                    old(self).user_scrolled_up
                })
                &&& final(self).ready
                &&& final(self).pending_content@ == old(self).pending_content@
            } else {
                &&& term_ops(r@).len() == 0
                &&& final(self).written_len == old(self).written_len
                &&& final(self).user_scrolled_up == old(self).user_scrolled_up
                &&& final(self).ready
                &&& final(self).pending_content@ == old(self).pending_content@
            },
    {
        let mut ops: Vec<TermOp> = Vec::new();
        if id_changed {
            if self.ready {
                push_op(&mut ops, TermOp::Clear);
                if new_content.len() > 0 {
                    push_op(&mut ops, TermOp::Write(crate::text::copy_bytes(new_content.as_slice())));
                    self.written_len = new_content.len();
                }
                self.user_scrolled_up = false;
                push_op(&mut ops, TermOp::ScrollToBottom);
                push_op(&mut ops, TermOp::RegisterWriter);
                assert(term_ops(ops@) =~= switch_ops(new_content@));
            } else {
                self.pending_content = crate::text::copy_bytes(new_content.as_slice());
            }
            return ops;
        }
        if !crate::xterm::same_bytes(old_content, new_content) {
            if self.ready {
                if new_content.len() > old_content.len() {
                    let part = if old_content.len() == 0 {
                        crate::text::copy_bytes(new_content.as_slice())
                    } else {
                        tail_bytes(new_content, old_content.len())
                    };
                    if part.len() > 0 {
                        push_op(&mut ops, TermOp::Write(part));
                        self.written_len = new_content.len();
                    }
                    if !self.user_scrolled_up {
                        push_op(&mut ops, TermOp::ScrollToBottom);
                    }
                    assert(term_ops(ops@) =~= growth_ops(old_content@, new_content@, old(self).user_scrolled_up));
                } else if new_content.len() < old_content.len() {
                    push_op(&mut ops, TermOp::Clear);
                    if new_content.len() > 0 {
                        push_op(&mut ops, TermOp::Write(crate::text::copy_bytes(new_content.as_slice())));
                        self.written_len = new_content.len();
                    }
                    self.user_scrolled_up = false;
                    push_op(&mut ops, TermOp::ScrollToBottom);
                    assert(term_ops(ops@) =~= growth_ops(old_content@, new_content@, old(self).user_scrolled_up));
                } else {
                    assert(term_ops(ops@) =~= growth_ops(old_content@, new_content@, old(self).user_scrolled_up));
                }
            } else {
                self.pending_content = crate::text::copy_bytes(new_content.as_slice());
            }
        }
        ops
    }

    /// The terminal was created (`created`) for the widget: it listens for
    /// typing unless read-only, writes the initial content and what waited past
    /// it, and hands out its callbacks. Returns whether to render again.
    pub fn initialize(&mut self, created: bool, read_only: bool, content: &Vec<u8>) -> (r: (bool, Vec<TermOp>))
        ensures
            if !old(self).ready && created {
                let written = if content@.len() > 0 { content@.len() as usize } else { old(self).written_len };
                let pending = old(self).pending_content@;
                &&& r.0
                &&& final(self).ready
                &&& term_ops(r.1@) == (if !read_only { seq![TermOpView::ListenInput] } else { Seq::empty() })
                    + (if content@.len() > 0 { seq![TermOpView::Write(content@)] } else { Seq::empty() })
                    + (if pending.len() > 0 && pending.len() > written { seq![TermOpView::Write(pending.skip(written as int))] } else { Seq::empty() })
                    + seq![TermOpView::RegisterCallbacks, TermOpView::RegisterWriter]
                &&& final(self).written_len == (if pending.len() > 0 && pending.len() > written { pending.len() as usize } else { written })
                &&& final(self).user_scrolled_up == old(self).user_scrolled_up
            } else {
                &&& !r.0
                &&& term_ops(r.1@).len() == 0
                &&& final(self).ready == old(self).ready
                &&& final(self).written_len == old(self).written_len
                &&& final(self).user_scrolled_up == old(self).user_scrolled_up
            },
    {
        let mut ops: Vec<TermOp> = Vec::new();
        if self.ready || !created {
            return (false, ops);
        }
        if !read_only {
            push_op(&mut ops, TermOp::ListenInput);
        }
        if content.len() > 0 {
            push_op(&mut ops, TermOp::Write(crate::text::copy_bytes(content.as_slice())));
            self.written_len = content.len();
        }
        if self.pending_content.len() > 0 && self.pending_content.len() > self.written_len {
            let rest = tail_bytes(&self.pending_content, self.written_len);
            push_op(&mut ops, TermOp::Write(rest));
            self.written_len = self.pending_content.len();
        }
        push_op(&mut ops, TermOp::RegisterCallbacks);
        push_op(&mut ops, TermOp::RegisterWriter);
        self.ready = true;
        (true, ops)
    }

    /// Output written straight to the terminal: it follows the end unless the
    /// user scrolled up; before the terminal exists it is lost.
    pub fn write_bytes(&self, bytes: Vec<u8>) -> (r: Vec<TermOp>)
        ensures
            term_ops(r@) == (if self.ready {
                seq![TermOpView::Write(bytes@)] + (if !self.user_scrolled_up { seq![TermOpView::ScrollToBottom] } else { Seq::empty() })
            } else {
                Seq::empty()
            }),
    {
        let mut ops: Vec<TermOp> = Vec::new();
        if self.ready {
            let ghost b = bytes@;
            push_op(&mut ops, TermOp::Write(bytes));
            if !self.user_scrolled_up {
                push_op(&mut ops, TermOp::ScrollToBottom);
            }
            assert(term_ops(ops@) =~= seq![TermOpView::Write(b)] + (if !self.user_scrolled_up {
                seq![TermOpView::ScrollToBottom]
            } else {
                Seq::<TermOpView>::empty()
            }));
        } else {
            assert(term_ops(ops@) =~= Seq::<TermOpView>::empty());
        }
        ops
    }

    /// The user scrolled away from the end, or back to it.
    pub fn user_scrolled(&mut self, scrolled_up: bool)
        ensures
            final(self).user_scrolled_up == scrolled_up,
            final(self).ready == old(self).ready,
            final(self).written_len == old(self).written_len,
            final(self).pending_content@ == old(self).pending_content@,
    {
        self.user_scrolled_up = scrolled_up;
    }
}

/// Whether two byte lists are equal.
pub fn same_bytes(a: &Vec<u8>, b: &Vec<u8>) -> (r: bool)
    ensures
        r == (a@ == b@),
{
    if a.len() != b.len() {
        return false;
    }
    let mut i: usize = 0;
    while i < a.len()
        invariant
            a@.len() == b@.len(),
            i <= a@.len(),
            forall|j: int| 0 <= j < i ==> a@[j] == b@[j],
        decreases a@.len() - i,
    {
        if a[i] != b[i] {
            return false;
        }
        i = i + 1;
    }
    assert(a@ =~= b@);
    true
}

/// Whether the view is at the end of the scrollback: at most one line above the base.
pub fn is_at_bottom(viewport_y: i32, base_y: i32) -> (r: bool)
    ensures
        r == (viewport_y >= base_y - 1),
{
    (viewport_y as i64) >= (base_y as i64) - 1
}

/// The colours of the terminal, by name.
pub open spec fn theme_colors() -> Seq<(Seq<char>, Seq<char>)> {
    seq![
        ("background"@, "#0d1117"@),
        ("foreground"@, "#c9d1d9"@),
        ("cursor"@, "#58a6ff"@),
        ("cursorAccent"@, "#0d1117"@),
        ("selectionBackground"@, "#264f78"@),
        ("black"@, "#484f58"@),
        ("red"@, "#ff7b72"@),
        ("green"@, "#3fb950"@),
        ("yellow"@, "#d29922"@),
        ("blue"@, "#58a6ff"@),
        ("magenta"@, "#bc8cff"@),
        ("cyan"@, "#39c5cf"@),
        ("white"@, "#b1bac4"@),
        ("brightBlack"@, "#6e7681"@),
        ("brightRed"@, "#ffa198"@),
        ("brightGreen"@, "#56d364"@),
        ("brightYellow"@, "#e3b341"@),
        ("brightBlue"@, "#79c0ff"@),
        ("brightMagenta"@, "#d2a8ff"@),
        ("brightCyan"@, "#56d4dd"@),
        ("brightWhite"@, "#f0f6fc"@),
    ]
}

/// The colours of the terminal, by name.
pub fn get_theme() -> (r: Vec<(&'static str, &'static str)>)
    ensures
        r@.map_values(|p: (&'static str, &'static str)| (p.0@, p.1@)) == theme_colors(),
{
    let r = vec![
        ("background", "#0d1117"),
        ("foreground", "#c9d1d9"),
        ("cursor", "#58a6ff"),
        ("cursorAccent", "#0d1117"),
        ("selectionBackground", "#264f78"),
        ("black", "#484f58"),
        ("red", "#ff7b72"),
        ("green", "#3fb950"),
        ("yellow", "#d29922"),
        ("blue", "#58a6ff"),
        ("magenta", "#bc8cff"),
        ("cyan", "#39c5cf"),
        ("white", "#b1bac4"),
        ("brightBlack", "#6e7681"),
        ("brightRed", "#ffa198"),
        ("brightGreen", "#56d364"),
        ("brightYellow", "#e3b341"),
        ("brightBlue", "#79c0ff"),
        ("brightMagenta", "#d2a8ff"),
        ("brightCyan", "#56d4dd"),
        ("brightWhite", "#f0f6fc"),
    ];
    assert(r@.map_values(|p: (&'static str, &'static str)| (p.0@, p.1@)) =~= theme_colors());
    r
}

} // verus!

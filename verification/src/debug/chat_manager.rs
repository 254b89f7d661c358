use vstd::prelude::*;
use crate::util::text::owned;

verus! {

/// The chat keeps at most this many received lines.
pub const MAX_RECEIVED_LINES: usize = 100;

/// A received chat line: its text and its colour (none for plain text).
pub struct ChatLine {
    pub text: String,
    pub color: Option<String>,
}

/// A chat line as plain values.
pub open spec fn line_view(l: ChatLine) -> (Seq<char>, Option<Seq<char>>) {
    (l.text@, match l.color {
        Some(c) => Some(c@),
        None => None,
    })
}

/// The lines after receiving one: it goes last, and the oldest line is
/// dropped when there would be more than the limit.
pub open spec fn lines_after_add(h: Seq<(Seq<char>, Option<Seq<char>>)>, m: (Seq<char>, Option<Seq<char>>)) -> Seq<(Seq<char>, Option<Seq<char>>)> {
    if h.len() + 1 > MAX_RECEIVED_LINES {
        h.push(m).subrange(1, h.len() as int + 1)
    } else {
        h.push(m)
    }
}

/// The colour of error lines.
pub fn error_color() -> (s: String)
    ensures
        s@ == "#FF5555"@,
{
    owned("#FF5555")
}

/// The colour of success lines.
pub fn success_color() -> (s: String)
    ensures
        s@ == "#55FF55"@,
{
    owned("#55FF55")
}

/// The colour of information lines.
pub fn info_color() -> (s: String)
    ensures
        s@ == "#FFFF55"@,
{
    owned("#FFFF55")
}

/// The received chat lines, and whether they changed since the display last
/// took them.
pub struct ChatManager {
    messages: Vec<ChatLine>,
    dirty: bool,
}

impl ChatManager {
    /// The lines as plain values, oldest first.
    pub closed spec fn lines(&self) -> Seq<(Seq<char>, Option<Seq<char>>)> {
        self.messages@.map_values(|l: ChatLine| line_view(l))
    }

    /// Whether the lines changed since the last `mark_clean`.
    pub closed spec fn dirty_view(&self) -> bool {
        self.dirty
    }

    /// There are never more lines than the limit.
    pub closed spec fn wf(&self) -> bool {
        self.messages.len() <= MAX_RECEIVED_LINES
    }

    /// No line, nothing changed.
    pub fn new() -> (m: ChatManager)
        ensures
            m.wf(),
            m.lines() == Seq::<(Seq<char>, Option<Seq<char>>)>::empty(),
            !m.dirty_view(),
    {
        let m = ChatManager { messages: Vec::new(), dirty: false };
        assert(m.lines() =~= Seq::<(Seq<char>, Option<Seq<char>>)>::empty());
        m
    }

    /// Receives a line (see `lines_after_add`); the lines are now changed.
    pub fn add_message(&mut self, message: ChatLine)
        requires
            old(self).wf(),
        ensures
            final(self).wf(),
            final(self).lines() == lines_after_add(old(self).lines(), line_view(message)),
            final(self).dirty_view(),
    {
        let ghost h = self.lines();
        let ghost m = line_view(message);
        self.messages.push(message);
        assert(self.lines() =~= h.push(m));
        if self.messages.len() > MAX_RECEIVED_LINES {
            self.messages.remove(0);
            assert(self.lines() =~= h.push(m).subrange(1, h.len() as int + 1));
        }
        self.dirty = true;
    }

    /// Receives a plain line.
    pub fn add_text(&mut self, text: String)
        requires
            old(self).wf(),
        ensures
            final(self).wf(),
            final(self).lines() == lines_after_add(old(self).lines(), (text@, None)),
            final(self).dirty_view(),
    {
        self.add_message(ChatLine { text, color: None });
    }

    /// Receives an error line (red).
    pub fn add_error(&mut self, text: String)
        requires
            old(self).wf(),
        ensures
            final(self).wf(),
            final(self).lines() == lines_after_add(old(self).lines(), (text@, Some("#FF5555"@))),
            final(self).dirty_view(),
    {
        self.add_message(ChatLine { text, color: Some(error_color()) });
    }

    /// Receives a success line (green).
    pub fn add_success(&mut self, text: String)
        requires
            old(self).wf(),
        ensures
            final(self).wf(),
            final(self).lines() == lines_after_add(old(self).lines(), (text@, Some("#55FF55"@))),
            final(self).dirty_view(),
    {
        self.add_message(ChatLine { text, color: Some(success_color()) });
    }

    /// Receives an information line (yellow).
    pub fn add_info(&mut self, text: String)
        requires
            old(self).wf(),
        ensures
            final(self).wf(),
            final(self).lines() == lines_after_add(old(self).lines(), (text@, Some("#FFFF55"@))),
            final(self).dirty_view(),
    {
        self.add_message(ChatLine { text, color: Some(info_color()) });
    }

    /// Drops every line; the lines are now changed.
    pub fn clear(&mut self)
        ensures
            final(self).wf(),
            final(self).lines() == Seq::<(Seq<char>, Option<Seq<char>>)>::empty(),
            final(self).dirty_view(),
    {
        self.messages.clear();
        assert(self.lines() =~= Seq::<(Seq<char>, Option<Seq<char>>)>::empty());
        self.dirty = true;
    }

    /// The lines, oldest first.
    pub fn messages(&self) -> (r: &[ChatLine])
        ensures
            r@.map_values(|l: ChatLine| line_view(l)) == self.lines(),
    {
        self.messages.as_slice()
    }

    /// Whether the lines changed since the last `mark_clean`.
    pub fn is_dirty(&self) -> (b: bool)
        ensures
            b == self.dirty_view(),
    {
        self.dirty
    }

    /// The display took the lines.
    pub fn mark_clean(&mut self)
        ensures
            final(self).lines() == old(self).lines(),
            final(self).wf() == old(self).wf(),
            !final(self).dirty_view(),
    {
        self.dirty = false;
    }
}

impl Default for ChatManager {
    fn default() -> (m: ChatManager)
        ensures
            m.wf(),
            m.lines() == Seq::<(Seq<char>, Option<Seq<char>>)>::empty(),
            !m.dirty_view(),
    {
        ChatManager::new()
    }
}

/// Never more lines than the limit; the line received last is the newest;
/// below the limit nothing is lost, at the limit only the oldest line.
pub proof fn law_received_lines_bounded(h: Seq<(Seq<char>, Option<Seq<char>>)>, m: (Seq<char>, Option<Seq<char>>))
    requires
        h.len() <= MAX_RECEIVED_LINES,
    ensures
        lines_after_add(h, m).len() <= MAX_RECEIVED_LINES,
        lines_after_add(h, m).last() == m,
        h.len() < MAX_RECEIVED_LINES ==> lines_after_add(h, m).subrange(0, h.len() as int) == h,
        h.len() == MAX_RECEIVED_LINES ==> lines_after_add(h, m).subrange(0, h.len() - 1) == h.subrange(1, h.len() as int),
{
    if h.len() == MAX_RECEIVED_LINES {
        assert(lines_after_add(h, m).subrange(0, h.len() - 1) =~= h.subrange(1, h.len() as int));
    } else {
        assert(lines_after_add(h, m).subrange(0, h.len() as int) =~= h);
    }
}

} // verus!

use vstd::prelude::*;
use crate::util::text::{owned, join, starts_with, str_eq};

verus! {

#[verifier::external_type_specification]
#[verifier::external_body]
pub struct ExInstant(std::time::Instant);

/// `Instant::now`: the current time, of which nothing is stated.
#[verifier::external_body]
pub(crate) fn instant_now() -> std::time::Instant {
    std::time::Instant::now()
}

/// The chat keeps at most this many messages.
pub const MAX_CHAT_MESSAGES: usize = 100;

/// A line of the chat history.
pub struct ChatMessage {
    pub text: String,
    /// Whether the line echoes a command.
    pub is_command: bool,
    /// When the line was added.
    pub timestamp: std::time::Instant,
}

/// A chat line as plain values: text, whether it echoes a command.
pub open spec fn message_view(m: ChatMessage) -> (Seq<char>, bool) {
    (m.text@, m.is_command)
}

/// The history after adding a line: the line goes last, and the oldest
/// line is dropped when the history would exceed its limit.
pub open spec fn history_after_add(h: Seq<(Seq<char>, bool)>, m: (Seq<char>, bool)) -> Seq<(Seq<char>, bool)> {
    if h.len() + 1 > MAX_CHAT_MESSAGES {
        h.push(m).subrange(1, h.len() as int + 1)
    } else {
        h.push(m)
    }
}

/// The chat box: whether it is open, the text being typed, the history,
/// whether the input has the focus, and whether it should take it.
pub struct ChatState {
    open: bool,
    input: String,
    messages: Vec<ChatMessage>,
    focused: bool,
    focus_requested: bool,
}

impl ChatState {
    /// Whether the chat box is open.
    pub closed spec fn is_open(&self) -> bool {
        self.open
    }

    /// The text being typed.
    pub closed spec fn input_view(&self) -> Seq<char> {
        self.input@
    }

    /// The history as plain values, oldest first.
    pub closed spec fn history(&self) -> Seq<(Seq<char>, bool)> {
        self.messages@.map_values(|m: ChatMessage| message_view(m))
    }

    /// Whether the input has the focus.
    pub closed spec fn has_focus(&self) -> bool {
        self.focused
    }

    /// Whether the input should take the focus on the next frame.
    pub closed spec fn wants_focus(&self) -> bool {
        self.focus_requested
    }

    /// The history never exceeds its limit.
    pub closed spec fn wf(&self) -> bool {
        self.messages.len() <= MAX_CHAT_MESSAGES
    }

    /// A closed chat with no history.
    pub fn new() -> (c: ChatState)
        ensures
            c.wf(),
            !c.is_open(),
            c.input_view() == Seq::<char>::empty(),
            c.history() == Seq::<(Seq<char>, bool)>::empty(),
            !c.has_focus(),
            !c.wants_focus(),
    {
        let c = ChatState { open: false, input: String::new(), messages: Vec::new(), focused: false, focus_requested: false };
        assert(c.history() =~= Seq::<(Seq<char>, bool)>::empty());
        c
    }

    /// Whether the chat box is open.
    pub fn chat_open(&self) -> (b: bool)
        ensures
            b == self.is_open(),
    {
        self.open
    }

    /// Whether the input has the focus.
    pub fn chat_focused(&self) -> (b: bool)
        ensures
            b == self.has_focus(),
    {
        self.focused
    }

    /// Opens the chat with an empty input that asks for the focus.
    pub fn open_chat(&mut self)
        requires
            old(self).wf(),
        ensures
            final(self).wf(),
            final(self).is_open(),
            final(self).has_focus(),
            final(self).wants_focus(),
            final(self).input_view() == Seq::<char>::empty(),
            final(self).history() == old(self).history(),
    {
        self.open = true;
        self.focused = true;
        self.input = String::new();
        self.focus_requested = true;
    }

    /// Closes the chat and empties the input.
    pub fn close_chat(&mut self)
        requires
            old(self).wf(),
        ensures
            final(self).wf(),
            !final(self).is_open(),
            !final(self).has_focus(),
            !final(self).wants_focus(),
            final(self).input_view() == Seq::<char>::empty(),
            final(self).history() == old(self).history(),
    {
        self.open = false;
        self.focused = false;
        self.input = String::new();
        self.focus_requested = false;
    }

    /// Closes an open chat, opens a closed one.
    pub fn toggle_chat(&mut self)
        requires
            old(self).wf(),
        ensures
            final(self).wf(),
            final(self).is_open() == !old(self).is_open(),
            final(self).has_focus() == !old(self).is_open(),
            final(self).wants_focus() == !old(self).is_open(),
            final(self).input_view() == Seq::<char>::empty(),
            final(self).history() == old(self).history(),
    {
        if self.open {
            self.close_chat();
        } else {
            self.open_chat();
        }
    }

    /// Adds a line to the history (see `history_after_add`).
    pub fn add_chat_message(&mut self, text: String, is_command: bool)
        requires
            old(self).wf(),
        ensures
            final(self).wf(),
            final(self).history() == history_after_add(old(self).history(), (text@, is_command)),
            final(self).is_open() == old(self).is_open(),
            final(self).input_view() == old(self).input_view(),
            final(self).has_focus() == old(self).has_focus(),
            final(self).wants_focus() == old(self).wants_focus(),
    {
        let ghost h = self.history();
        let ghost m = (text@, is_command);
        let msg = ChatMessage { text, is_command, timestamp: instant_now() };
        self.messages.push(msg);
        assert(self.history() =~= h.push(m));
        if self.messages.len() > MAX_CHAT_MESSAGES {
            let ghost before = self.messages@;
            self.messages.remove(0);
            assert(self.history() =~= h.push(m).subrange(1, h.len() as int + 1));
        }
    }

    /// Empties the history.
    pub fn clear_chat(&mut self)
        requires
            old(self).wf(),
        ensures
            final(self).wf(),
            final(self).history() == Seq::<(Seq<char>, bool)>::empty(),
            final(self).is_open() == old(self).is_open(),
            final(self).input_view() == old(self).input_view(),
            final(self).has_focus() == old(self).has_focus(),
            final(self).wants_focus() == old(self).wants_focus(),
    {
        self.messages.clear();
        assert(self.history() =~= Seq::<(Seq<char>, bool)>::empty());
    }

    /// The history, oldest first.
    pub fn messages(&self) -> (r: &[ChatMessage])
        ensures
            r@.map_values(|m: ChatMessage| message_view(m)) == self.history(),
    {
        self.messages.as_slice()
    }

    /// The text being typed.
    pub fn input(&self) -> (r: &str)
        ensures
            r@ == self.input_view(),
    {
        self.input.as_str()
    }

    /// Records what the input box now holds and whether it has the focus.
    pub fn set_input(&mut self, input: String, focused: bool)
        requires
            old(self).wf(),
        ensures
            final(self).wf(),
            final(self).input_view() == input@,
            final(self).has_focus() == focused,
            final(self).is_open() == old(self).is_open(),
            final(self).history() == old(self).history(),
            final(self).wants_focus() == old(self).wants_focus(),
    {
        self.input = input;
        self.focused = focused;
    }

    /// Whether the input should take the focus now; the request is
    /// consumed.
    pub fn take_focus_request(&mut self) -> (b: bool)
        requires
            old(self).wf(),
        ensures
            final(self).wf(),
            b == old(self).wants_focus(),
            !final(self).wants_focus(),
            final(self).is_open() == old(self).is_open(),
            final(self).input_view() == old(self).input_view(),
            final(self).history() == old(self).history(),
            final(self).has_focus() == old(self).has_focus(),
    {
        let b = self.focus_requested;
        self.focus_requested = false;
        b
    }

    /// The input box lost the focus, by Enter (`submitted`) or by Escape.
    /// On Enter with a non-empty input, the input is echoed to the history:
    /// as a command (`> text`) when it begins with `/`, and then returned,
    /// else as the player's message (`<Player> text`). Either way the chat
    /// closes.
    pub fn finish_input(&mut self, submitted: bool) -> (r: Option<String>)
        requires
            old(self).wf(),
        ensures
            final(self).wf(),
            !final(self).is_open(),
            !final(self).has_focus(),
            !final(self).wants_focus(),
            final(self).input_view() == Seq::<char>::empty(),
            ({
                let text = old(self).input_view();
                if submitted && text.len() > 0 {
                    if text[0] == '/' {
                        &&& r matches Some(c) && c@ == text
                        &&& final(self).history() == history_after_add(old(self).history(), ("> "@ + text, true))
                    } else {
                        &&& r is None
                        &&& final(self).history() == history_after_add(old(self).history(), ("<Player> "@ + text, false))
                    }
                } else {
                    &&& r is None
                    &&& final(self).history() == old(self).history()
                }
            }),
    {
        let mut command: Option<String> = None;
        if submitted && self.input.as_str().unicode_len() > 0 {
            let text = self.input.clone();
            assert(text@ == old(self).input_view());
            if starts_with(text.as_str(), "/") {
                proof {
                    reveal_strlit("/");
                    assert(text@.subrange(0, 1)[0] == '/');
                }
                let echo = join("> ", text.as_str());
                self.add_chat_message(echo, true);
                command = Some(text);
            } else {
                proof {
                    reveal_strlit("/");
                    assert(text@.subrange(0, 1) != "/"@ ==> text@[0] != '/') by {
                        if text@[0] == '/' {
                            assert(text@.subrange(0, 1) =~= "/"@);
                        }
                    }
                }
                let echo = join("<Player> ", text.as_str());
                self.add_chat_message(echo, false);
            }
        }
        self.close_chat();
        command
    }
}

impl Default for ChatState {
    fn default() -> (c: ChatState)
        ensures
            c.wf(),
            !c.is_open(),
            c.history() == Seq::<(Seq<char>, bool)>::empty(),
    {
        ChatState::new()
    }
}

/// The history never holds more than its limit, and the line added last
/// is always its newest line.
pub proof fn law_history_bounded(h: Seq<(Seq<char>, bool)>, m: (Seq<char>, bool))
    requires
        h.len() <= MAX_CHAT_MESSAGES,
    ensures
        history_after_add(h, m).len() <= MAX_CHAT_MESSAGES,
        history_after_add(h, m).last() == m,
        h.len() < MAX_CHAT_MESSAGES ==> history_after_add(h, m).subrange(0, h.len() as int) == h,
        h.len() == MAX_CHAT_MESSAGES ==> history_after_add(h, m).subrange(0, h.len() - 1) == h.subrange(1, h.len() as int),
{
    if h.len() == MAX_CHAT_MESSAGES {
        assert(history_after_add(h, m).subrange(0, h.len() - 1) =~= h.subrange(1, h.len() as int));
    } else {
        assert(history_after_add(h, m).subrange(0, h.len() as int) =~= h);
    }
}

} // verus!

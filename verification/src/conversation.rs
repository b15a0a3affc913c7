//! Conversations and their messages.
//!
//! A conversation is one independent chat thread: an ordered message
//! history, an optional title derived from the first user message, an
//! optional system directive, a scroll position, and the status of its
//! current turn. Conversations are owned and mutated only by the
//! application state machine.

use vstd::prelude::*;

use crate::sys::{fresh_id, now_millis};

verus! {

/// Author of a message.
#[derive(Clone, Copy, Debug, PartialEq, Eq, Structural)]
pub enum Role {
    User,
    Assistant,
}

/// Status of a conversation's current turn: no turn in flight, a request
/// sent but nothing received yet, text arriving, or the turn over.
#[derive(Clone, Copy, Debug, PartialEq, Eq, Structural)]
pub enum SessionStatus {
    Idle,
    AwaitingFirstToken,
    Streaming,
    Terminated,
}

/// One chat message.
#[derive(Debug)]
pub struct Message {
    pub role: Role,
    pub content: String,
    /// Creation instant, milliseconds since the epoch.
    pub timestamp: i64,
}

/// Mathematical counterpart of `Message`.
pub struct MessageModel {
    pub role: Role,
    pub content: Seq<char>,
    pub timestamp: i64,
}

impl View for Message {
    type V = MessageModel;

    open spec fn view(&self) -> MessageModel {
        MessageModel { role: self.role, content: self.content@, timestamp: self.timestamp }
    }
}

impl Message {
    /// A message created now.
    pub fn new(role: Role, content: String) -> (m: Message)
        ensures
            m.role == role,
            m.content@ == content@,
    {
        Message { role, content, timestamp: now_millis() }
    }
}

/// One independent chat thread.
#[derive(Debug)]
pub struct Conversation {
    /// Opaque identifier, drawn at creation.
    pub id: u128,
    /// Derived from the first user message; never recomputed once set.
    pub title: Option<String>,
    /// Chat order; append-only but for the removal of an empty trailing
    /// assistant message when a turn ends.
    pub messages: Vec<Message>,
    /// Optional system directive sent with every turn.
    pub system_prompt: Option<String>,
    /// First message row currently shown.
    pub scroll_offset: usize,
    /// Status of the current turn.
    pub status: SessionStatus,
    /// A turn failure kept for display when this conversation becomes
    /// active (it was not active when the failure arrived).
    pub pending_error: Option<String>,
}

/// Mathematical counterpart of `Conversation`.
pub struct ConvModel {
    pub id: u128,
    pub title: Option<Seq<char>>,
    pub messages: Seq<MessageModel>,
    pub system_prompt: Option<Seq<char>>,
    pub scroll: int,
    pub status: SessionStatus,
    pub pending_error: Option<Seq<char>>,
}

impl View for Conversation {
    type V = ConvModel;

    open spec fn view(&self) -> ConvModel {
        ConvModel {
            id: self.id,
            title: match self.title {
                Some(t) => Some(t@),
                None => None,
            },
            messages: self.messages@.map_values(|m: Message| m@),
            system_prompt: match self.system_prompt {
                Some(s) => Some(s@),
                None => None,
            },
            scroll: self.scroll_offset as int,
            status: self.status,
            pending_error: match self.pending_error {
                Some(e) => Some(e@),
                None => None,
            },
        }
    }
}

/// Character budget of a derived title.
pub open spec fn title_budget() -> int {
    30
}

/// A title derived from `content`: the content itself, or its first 30
/// characters with an ellipsis marker when longer.
pub open spec fn sp_title_of(content: Seq<char>) -> Seq<char> {
    if content.len() > title_budget() {
        content.take(title_budget()) + "..."@
    } else {
        content
    }
}

/// Content of the first `User` message at or after `i`.
pub open spec fn sp_first_user_from(msgs: Seq<MessageModel>, i: int) -> Option<Seq<char>>
    decreases msgs.len() - i,
{
    if !(0 <= i && i < msgs.len()) {
        None
    } else if msgs[i].role == Role::User {
        Some(msgs[i].content)
    } else {
        sp_first_user_from(msgs, i + 1)
    }
}

/// The title a conversation carries after deriving: an existing title is
/// never recomputed; otherwise the first user message, if any, names it.
pub open spec fn sp_auto_title(c: ConvModel) -> Option<Seq<char>> {
    if c.title is Some {
        c.title
    } else {
        match sp_first_user_from(c.messages, 0) {
            None => None,
            Some(content) => Some(sp_title_of(content)),
        }
    }
}

/// The conversation has a turn in flight.
pub open spec fn sp_busy(status: SessionStatus) -> bool {
    status == SessionStatus::AwaitingFirstToken || status == SessionStatus::Streaming
}

impl Conversation {
    /// A fresh, empty, idle conversation with a new identifier.
    pub fn new() -> (c: Conversation)
        ensures
            c@.title is None,
            c@.messages == Seq::<MessageModel>::empty(),
            c@.system_prompt is None,
            c@.scroll == 0,
            c@.status == SessionStatus::Idle,
            c@.pending_error is None,
    {
        let c = Conversation {
            id: fresh_id(),
            title: None,
            messages: Vec::new(),
            system_prompt: None,
            scroll_offset: 0,
            status: SessionStatus::Idle,
            pending_error: None,
        };
        proof {
            assert(c@.messages =~= Seq::<MessageModel>::empty());
        }
        c
    }

    /// Appends a message and derives the title if none is set yet.
    pub fn add_message(&mut self, message: Message)
        ensures
            ({
                let grown = ConvModel {
                    messages: old(self)@.messages.push(message@),
                    ..old(self)@
                };
                final(self)@ == ConvModel { title: sp_auto_title(grown), ..grown }
            }),
    {
        self.messages.push(message);
        proof {
            assert(self@.messages =~= old(self)@.messages.push(message@));
        }
        self.generate_title();
    }

    /// Derives the title from the first user message, once.
    #[verifier::loop_isolation(false)]
    pub fn generate_title(&mut self)
        ensures
            (final(self)@ == ConvModel { title: sp_auto_title(old(self)@), ..old(self)@ }),
    {
        match &self.title {
            Some(_) => { return ; },
            None => {},
        }
        let n = self.messages.len();
        let mut q: usize = 0;
        while q < n
            invariant
                q <= n,
                n == self.messages@.len(),
                self == old(self),
                sp_first_user_from(self@.messages, 0) == sp_first_user_from(
                    self@.messages,
                    q as int,
                ),
            decreases n - q,
        {
            if matches!(self.messages[q].role, Role::User) {
                let content = &self.messages[q].content;
                proof {
                    assert(self@.messages[q as int] == self.messages@[q as int]@);
                    assert(sp_first_user_from(self@.messages, q as int) == Some(content@));
                }
                let len = content.as_str().unicode_len();
                let title = if len > 30 {
                    let mut t = content.as_str().substring_char(0, 30).to_owned();
                    t.append("...");
                    proof {
                        assert(content@.take(30) =~= content@.subrange(0, 30));
                    }
                    t
                } else {
                    content.clone()
                };
                proof {
                    assert(title@ == sp_title_of(content@));
                }
                self.title = Some(title);
                return ;
            }
            q += 1;
        }
    }

    /// The conversation's display name: its title, or the placeholder.
    pub fn display_title(&self) -> (r: &str)
        ensures
            r@ == match self@.title {
                Some(t) => t,
                None => "New Chat"@,
            },
    {
        match &self.title {
            Some(t) => t.as_str(),
            None => "New Chat",
        }
    }

    /// Scrolls one row up, stopping at the top.
    pub fn scroll_up(&mut self)
        ensures
            (final(self)@ == ConvModel {
                scroll: if old(self)@.scroll > 0 {
                    old(self)@.scroll - 1
                } else {
                    0
                },
                ..old(self)@
            }),
    {
        if self.scroll_offset > 0 {
            self.scroll_offset -= 1;
        }
    }

    /// Scrolls one row down, stopping where the last `max_visible`
    /// messages fill the view.
    pub fn scroll_down(&mut self, max_visible: usize)
        ensures
            ({
                let max_scroll = if old(self)@.messages.len() > max_visible {
                    old(self)@.messages.len() - max_visible
                } else {
                    0int
                };
                final(self)@ == ConvModel {
                    scroll: if old(self)@.scroll < max_scroll {
                        old(self)@.scroll + 1
                    } else {
                        old(self)@.scroll
                    },
                    ..old(self)@
                }
            }),
    {
        let len = self.messages.len();
        let max_scroll = if len > max_visible {
            len - max_visible
        } else {
            0
        };
        if self.scroll_offset < max_scroll {
            self.scroll_offset += 1;
        }
    }

    /// Scrolls to the top.
    pub fn scroll_to_top(&mut self)
        ensures
            (final(self)@ == ConvModel { scroll: 0, ..old(self)@ }),
    {
        self.scroll_offset = 0;
    }

    /// Scrolls to where the last `max_visible` messages fill the view.
    pub fn scroll_to_bottom(&mut self, max_visible: usize)
        ensures
            (final(self)@ == ConvModel {
                scroll: if old(self)@.messages.len() > max_visible {
                    old(self)@.messages.len() - max_visible
                } else {
                    0int
                },
                ..old(self)@
            }),
    {
        let len = self.messages.len();
        self.scroll_offset = if len > max_visible {
            len - max_visible
        } else {
            0
        };
    }

    /// Number of leading messages that form the history to send for the
    /// turn under way: everything before the empty trailing assistant
    /// message that `submit` appends.
    pub fn turn_history_len(&self) -> (n: usize)
        ensures
            n as int == if self@.messages.len() > 0 && self@.messages.last().role
                == Role::Assistant && self@.messages.last().content.len() == 0 {
                self@.messages.len() - 1
            } else {
                self@.messages.len() as int
            },
    {
        let len = self.messages.len();
        if len > 0 {
            let last = &self.messages[len - 1];
            if matches!(last.role, Role::Assistant) && last.content.as_str().unicode_len() == 0 {
                return len - 1;
            }
        }
        len
    }
}

impl Default for Conversation {
    /// The default conversation is a fresh, empty, idle one.
    fn default() -> (c: Conversation)
        ensures
            c@.title is None,
            c@.messages == Seq::<MessageModel>::empty(),
            c@.system_prompt is None,
            c@.scroll == 0,
            c@.status == SessionStatus::Idle,
            c@.pending_error is None,
    {
        Conversation::new()
    }
}

} // verus!

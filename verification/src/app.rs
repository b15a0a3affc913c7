//! The application state machine: the single writer of all conversation
//! state.
//!
//! Every mutation of the conversation set happens through a method here,
//! on one control thread: user actions (typing, submitting, tab changes)
//! and the increments that in-flight sessions forward (as `AppEvent`s).
//! Sessions never touch this state; the program's event loop hands their
//! increments to `apply_event`, which discards anything tagged with a
//! conversation that no longer exists.

use vstd::prelude::*;

use crate::conversation::{
    sp_auto_title, sp_busy, ConvModel, Conversation, Message, MessageModel, Role, SessionStatus,
};
use crate::input::{InputField, InputModel};
use crate::request::ApiClient;

verus! {

/// What the interface is doing with keystrokes.
#[derive(Clone, Copy, Debug, PartialEq, Eq, Structural)]
pub enum Mode {
    Normal,
    Insert,
    Help,
}

/// One item a session forwards to the state machine, tagged with the
/// conversation it belongs to.
#[derive(Debug)]
pub enum AppEvent {
    StreamStart(u128),
    StreamDelta(u128, String),
    StreamEnd(u128),
    StreamError(u128, String),
}

/// Mathematical counterpart of `AppEvent`.
pub enum AppEventModel {
    Start(u128),
    Delta(u128, Seq<char>),
    End(u128),
    Fail(u128, Seq<char>),
}

impl View for AppEvent {
    type V = AppEventModel;

    open spec fn view(&self) -> AppEventModel {
        match self {
            AppEvent::StreamStart(id) => AppEventModel::Start(*id),
            AppEvent::StreamDelta(id, s) => AppEventModel::Delta(*id, s@),
            AppEvent::StreamEnd(id) => AppEventModel::End(*id),
            AppEvent::StreamError(id, s) => AppEventModel::Fail(*id, s@),
        }
    }
}

/// The conversation an event is tagged with.
pub open spec fn sp_event_tab(e: AppEventModel) -> u128 {
    match e {
        AppEventModel::Start(id) => id,
        AppEventModel::Delta(id, _) => id,
        AppEventModel::End(id) => id,
        AppEventModel::Fail(id, _) => id,
    }
}

/// Abstract state of the application.
pub struct AppModel {
    pub input: InputModel,
    pub mode: Mode,
    pub should_quit: bool,
    pub convs: Seq<ConvModel>,
    pub active: int,
    pub has_key: bool,
    pub error_message: Option<Seq<char>>,
    pub status_message: Option<Seq<char>>,
    pub current_model: Option<Seq<char>>,
    pub pending_model_change: Option<Seq<char>>,
}

/// The whole interactive application state.
#[derive(Debug)]
pub struct App {
    pub input: InputField,
    pub mode: Mode,
    pub should_quit: bool,
    pub conversations: Vec<Conversation>,
    pub active_tab: usize,
    pub api_client: Option<ApiClient>,
    pub error_message: Option<String>,
    pub status_message: Option<String>,
    pub current_model: Option<String>,
    pub pending_model_change: Option<String>,
}

impl View for App {
    type V = AppModel;

    open spec fn view(&self) -> AppModel {
        AppModel {
            input: self.input@,
            mode: self.mode,
            should_quit: self.should_quit,
            convs: self.conversations@.map_values(|c: Conversation| c@),
            active: self.active_tab as int,
            has_key: self.api_client is Some,
            error_message: match self.error_message {
                Some(e) => Some(e@),
                None => None,
            },
            status_message: match self.status_message {
                Some(s) => Some(s@),
                None => None,
            },
            current_model: match self.current_model {
                Some(m) => Some(m@),
                None => None,
            },
            pending_model_change: match self.pending_model_change {
                Some(m) => Some(m@),
                None => None,
            },
        }
    }
}

/// Index of the first conversation with the given id at or after `i`.
pub open spec fn sp_find_conv(convs: Seq<ConvModel>, id: u128, i: int) -> Option<int>
    decreases convs.len() - i,
{
    if !(0 <= i && i < convs.len()) {
        None
    } else if convs[i].id == id {
        Some(i)
    } else {
        sp_find_conv(convs, id, i + 1)
    }
}

/// The conversation with `text` appended to its trailing assistant
/// message; without a trailing assistant message it is left alone.
pub open spec fn sp_append_text(c: ConvModel, text: Seq<char>) -> ConvModel {
    if c.messages.len() > 0 && c.messages.last().role == Role::Assistant {
        ConvModel {
            messages: c.messages.update(
                c.messages.len() - 1,
                MessageModel { content: c.messages.last().content + text, ..c.messages.last() },
            ),
            ..c
        }
    } else {
        c
    }
}

/// The conversation with an empty trailing assistant message removed:
/// a turn that ends without content leaves no empty row behind.
pub open spec fn sp_drop_empty_trailing(c: ConvModel) -> ConvModel {
    if c.messages.len() > 0 && c.messages.last().role == Role::Assistant && c.messages.last(
    ).content.len() == 0 {
        ConvModel { messages: c.messages.drop_last(), ..c }
    } else {
        ConvModel { ..c }
    }
}

/// How one forwarded increment changes the application state.
///
/// An increment whose tag names no live conversation is discarded — the
/// normal outcome of closing a tab with a session in flight. A `Delta`
/// reaching a waiting conversation starts its streaming; its text lands
/// in the trailing assistant message. The terminal increments end the
/// turn; a failure's message is surfaced in the status slot when its
/// conversation is the active tab and kept on the conversation
/// otherwise. Increments reaching a conversation that is not in a turn
/// (a stale session's) are discarded.
pub open spec fn sp_apply(m: AppModel, e: AppEventModel) -> AppModel {
    match e {
        AppEventModel::Start(_) => m,
        AppEventModel::Delta(id, text) => match sp_find_conv(m.convs, id, 0) {
            None => m,
            Some(k) => {
                let c = m.convs[k];
                if sp_busy(c.status) {
                    AppModel {
                        convs: m.convs.update(
                            k,
                            ConvModel {
                                status: SessionStatus::Streaming,
                                ..sp_append_text(c, text)
                            },
                        ),
                        ..m
                    }
                } else {
                    m
                }
            },
        },
        AppEventModel::End(id) => match sp_find_conv(m.convs, id, 0) {
            None => m,
            Some(k) => {
                let c = m.convs[k];
                if sp_busy(c.status) {
                    AppModel {
                        convs: m.convs.update(
                            k,
                            ConvModel {
                                status: SessionStatus::Terminated,
                                ..sp_drop_empty_trailing(c)
                            },
                        ),
                        ..m
                    }
                } else {
                    m
                }
            },
        },
        AppEventModel::Fail(id, msg) => match sp_find_conv(m.convs, id, 0) {
            None => m,
            Some(k) => {
                let c = m.convs[k];
                if sp_busy(c.status) {
                    if k == m.active {
                        AppModel {
                            convs: m.convs.update(
                                k,
                                ConvModel {
                                    status: SessionStatus::Terminated,
                                    ..sp_drop_empty_trailing(c)
                                },
                            ),
                            error_message: Some(msg),
                            ..m
                        }
                    } else {
                        AppModel {
                            convs: m.convs.update(
                                k,
                                ConvModel {
                                    status: SessionStatus::Terminated,
                                    pending_error: Some(msg),
                                    ..sp_drop_empty_trailing(c)
                                },
                            ),
                            ..m
                        }
                    }
                } else {
                    m
                }
            },
        },
    }
}

/// The conversation with `text` appended to its last message, whatever
/// its role; without any message it is left alone.
pub open spec fn sp_append_last(c: ConvModel, text: Seq<char>) -> ConvModel {
    if c.messages.len() > 0 {
        ConvModel {
            messages: c.messages.update(
                c.messages.len() - 1,
                MessageModel { content: c.messages.last().content + text, ..c.messages.last() },
            ),
            ..c
        }
    } else {
        ConvModel { ..c }
    }
}

/// The conversation with its turn ended, if one was in flight.
pub open spec fn sp_end_turn(c: ConvModel) -> ConvModel {
    if sp_busy(c.status) {
        ConvModel { status: SessionStatus::Terminated, ..c }
    } else {
        ConvModel { ..c }
    }
}

/// The note shown after emptying a conversation.
pub open spec fn sp_cleared_message() -> Seq<char> {
    "Conversation cleared"@
}

/// The rejection shown when submitting during a turn.
pub open spec fn sp_busy_message() -> Seq<char> {
    "A response is already streaming. Wait for it to finish."@
}

/// The rejection shown when no credential is configured.
pub open spec fn sp_no_key_message() -> Seq<char> {
    "ANTHROPIC_API_KEY not set. Export it and restart."@
}

/// The state with the input line taken.
pub open spec fn sp_clear_input(m: AppModel) -> AppModel {
    AppModel { input: InputModel { text: Seq::empty(), cursor: 0 }, ..m }
}

/// Index of the first space at or after `i`.
pub open spec fn sp_find_sp(s: Seq<char>, i: int) -> Option<int>
    decreases s.len() - i,
{
    if !(0 <= i && i < s.len()) {
        None
    } else if s[i] == ' ' {
        Some(i)
    } else {
        sp_find_sp(s, i + 1)
    }
}

/// The directive word: everything before the first space, or the whole
/// line.
pub open spec fn sp_cmd_head(s: Seq<char>) -> Seq<char> {
    match sp_find_sp(s, 0) {
        None => s,
        Some(j) => s.take(j),
    }
}

/// The directive's argument: everything after the first space, when one
/// exists.
pub open spec fn sp_cmd_arg(s: Seq<char>) -> Option<Seq<char>> {
    match sp_find_sp(s, 0) {
        None => None,
        Some(j) => Some(s.skip(j + 1)),
    }
}

/// The character counts as surrounding blank space of an argument.
pub open spec fn is_blank(c: char) -> bool {
    c == ' ' || c == '\t'
}

/// Index of the first non-blank character at or after `i`.
pub open spec fn sp_lead(s: Seq<char>, i: int) -> int
    decreases s.len() - i,
{
    if 0 <= i && i < s.len() && is_blank(s[i]) {
        sp_lead(s, i + 1)
    } else {
        i
    }
}

/// Index just past the last non-blank character before `j`.
pub open spec fn sp_trail(s: Seq<char>, j: int) -> int
    decreases j,
{
    if 0 < j && j <= s.len() && is_blank(s[j - 1]) {
        sp_trail(s, j - 1)
    } else {
        j
    }
}

/// The argument with its surrounding blanks removed.
pub open spec fn sp_trim(s: Seq<char>) -> Seq<char> {
    let a = sp_lead(s, 0);
    let b = sp_trail(s, s.len() as int);
    if a <= b {
        s.subrange(a, b)
    } else {
        Seq::empty()
    }
}

/// How one control directive changes the application state: `/model`
/// with an argument stages a model override for the next session and
/// notes it; `/model` alone shows the current model; `/help` opens the
/// help display; anything else is an error and never reaches the
/// conversation or the remote service.
pub open spec fn sp_handle_command(m: AppModel, s: Seq<char>) -> AppModel {
    let head = sp_cmd_head(s);
    if head == "/model"@ {
        match sp_cmd_arg(s) {
            Some(raw) => {
                let arg = sp_trim(raw);
                AppModel {
                    pending_model_change: Some(arg),
                    status_message: Some("Model set to: "@ + arg),
                    ..m
                }
            },
            None => AppModel {
                status_message: Some(
                    "Current model: "@ + (match m.current_model {
                        Some(x) => x,
                        None => "unknown"@,
                    }),
                ),
                ..m
            },
        }
    } else if head == "/help"@ {
        AppModel { mode: Mode::Help, ..m }
    } else {
        AppModel { error_message: Some("Unknown command: "@ + head), ..m }
    }
}

/// Compares two strings character by character.
fn str_eq(a: &str, b: &str) -> (r: bool)
    ensures
        r == (a@ == b@),
{
    let n = a.unicode_len();
    if n != b.unicode_len() {
        return false;
    }
    let mut q: usize = 0;
    while q < n
        invariant
            q <= n,
            n == a@.len(),
            n == b@.len(),
            forall|t: int| 0 <= t < q ==> a@[t] == b@[t],
        decreases n - q,
    {
        if a.get_char(q) != b.get_char(q) {
            return false;
        }
        q += 1;
    }
    proof {
        assert(a@ =~= b@);
    }
    true
}

/// Index of the first space at or after `i` (see `sp_find_sp`).
fn find_space(s: &str, i: usize) -> (r: Option<usize>)
    requires
        i <= s@.len(),
    ensures
        match r {
            Some(j) => sp_find_sp(s@, i as int) == Some(j as int) && i <= j < s@.len(),
            None => sp_find_sp(s@, i as int) is None,
        },
    decreases s@.len() - i,
{
    if i >= s.unicode_len() {
        None
    } else if s.get_char(i) == ' ' {
        Some(i)
    } else {
        find_space(s, i + 1)
    }
}

/// Index of the first non-blank character at or after `i` (see
/// `sp_lead`).
fn lead_end(s: &str, i: usize) -> (r: usize)
    requires
        i <= s@.len(),
    ensures
        r == sp_lead(s@, i as int),
        i <= r <= s@.len(),
    decreases s@.len() - i,
{
    if i < s.unicode_len() {
        let c = s.get_char(i);
        if c == ' ' || c == '\t' {
            return lead_end(s, i + 1);
        }
    }
    i
}

/// Index just past the last non-blank character before `j` (see
/// `sp_trail`).
fn trail_end(s: &str, j: usize) -> (r: usize)
    requires
        j <= s@.len(),
    ensures
        r == sp_trail(s@, j as int),
        r <= j,
    decreases j,
{
    if j > 0 {
        let c = s.get_char(j - 1);
        if c == ' ' || c == '\t' {
            return trail_end(s, j - 1);
        }
    }
    j
}

/// The argument with surrounding blanks removed (see `sp_trim`).
fn trim_of(s: &str) -> (r: String)
    ensures
        r@ == sp_trim(s@),
{
    let a = lead_end(s, 0);
    let b = trail_end(s, s.unicode_len());
    if a <= b {
        s.substring_char(a, b).to_owned()
    } else {
        String::new()
    }
}

impl App {
    /// There is always at least one conversation and the active index
    /// names one; the input field is well formed.
    pub open spec fn wf(&self) -> bool {
        self@.convs.len() >= 1 && 0 <= self@.active < self@.convs.len() && self.input.wf()
    }

    /// A fresh application around the given configuration: one empty
    /// conversation, normal mode, nothing in flight.
    pub fn new(api_client: Option<ApiClient>) -> (a: App)
        ensures
            a.wf(),
            a@.convs.len() == 1,
            a@.convs[0].messages.len() == 0,
            a@.convs[0].status == SessionStatus::Idle,
            a@.convs[0].title is None,
            a@.active == 0,
            a@.mode == Mode::Normal,
            !a@.should_quit,
            a@.input.text.len() == 0,
            a@.has_key == (api_client is Some),
            a@.error_message is None,
            a@.status_message is None,
            a@.current_model == (match api_client {
                Some(c) => Some(c.model@),
                None => None::<Seq<char>>,
            }),
            a@.pending_model_change is None,
    {
        let current_model = match &api_client {
            Some(c) => Some(c.model.clone()),
            None => None,
        };
        let mut conversations: Vec<Conversation> = Vec::new();
        conversations.push(Conversation::new());
        let a = App {
            input: InputField::new(),
            mode: Mode::Normal,
            should_quit: false,
            conversations,
            active_tab: 0,
            api_client,
            error_message: None,
            status_message: None,
            current_model,
            pending_model_change: None,
        };
        a
    }

    /// The active conversation.
    pub fn current_conversation(&self) -> (r: &Conversation)
        requires
            self.wf(),
        ensures
            r@ == self@.convs[self@.active],
    {
        &self.conversations[self.active_tab]
    }

    /// The active conversation, for mutation in place; everything else is
    /// left alone.
    pub fn current_conversation_mut(&mut self) -> (r: &mut Conversation)
        requires
            old(self).wf(),
        ensures
            *r == old(self).conversations@[old(self)@.active],
            final(self).conversations@ == old(self).conversations@.update(
                old(self)@.active,
                *final(r),
            ),
            final(self).input == old(self).input,
            final(self).mode == old(self).mode,
            final(self).should_quit == old(self).should_quit,
            final(self).active_tab == old(self).active_tab,
            final(self).api_client == old(self).api_client,
            final(self).error_message == old(self).error_message,
            final(self).status_message == old(self).status_message,
            final(self).current_model == old(self).current_model,
            final(self).pending_model_change == old(self).pending_model_change,
    {
        let i = self.active_tab;
        &mut self.conversations[i]
    }

    /// Opens a fresh conversation and makes it active.
    pub fn new_conversation(&mut self)
        requires
            old(self).wf(),
        ensures
            final(self).wf(),
            final(self)@.convs.len() == old(self)@.convs.len() + 1,
            final(self)@.convs.take(old(self)@.convs.len() as int) == old(self)@.convs,
            final(self)@.convs.last().messages.len() == 0,
            final(self)@.convs.last().status == SessionStatus::Idle,
            final(self)@.convs.last().title is None,
            final(self)@.convs.last().system_prompt is None,
            final(self)@.convs.last().scroll == 0,
            final(self)@.convs.last().pending_error is None,
            final(self)@.active == old(self)@.convs.len(),
            (final(self)@ == AppModel {
                convs: final(self)@.convs,
                active: final(self)@.active,
                ..old(self)@
            }),
    {
        self.conversations.push(Conversation::new());
        self.active_tab = self.conversations.len() - 1;
        proof {
            assert(self@.convs.take(old(self)@.convs.len() as int) =~= old(self)@.convs);
        }
    }

    /// Opens a fresh tab (the same operation under its other name).
    pub fn new_tab(&mut self)
        requires
            old(self).wf(),
        ensures
            final(self).wf(),
            final(self)@.convs.len() == old(self)@.convs.len() + 1,
            final(self)@.convs.take(old(self)@.convs.len() as int) == old(self)@.convs,
            final(self)@.convs.last().messages.len() == 0,
            final(self)@.convs.last().status == SessionStatus::Idle,
            final(self)@.convs.last().title is None,
            final(self)@.convs.last().system_prompt is None,
            final(self)@.convs.last().scroll == 0,
            final(self)@.convs.last().pending_error is None,
            final(self)@.active == old(self)@.convs.len(),
            (final(self)@ == AppModel {
                convs: final(self)@.convs,
                active: final(self)@.active,
                ..old(self)@
            }),
    {
        self.new_conversation();
    }

    /// Closes the active conversation. Closing the sole remaining
    /// conversation is a no-op; otherwise the count drops by exactly one
    /// and the active index stays in range, moving to the previous tab
    /// when the last one was closed.
    pub fn close_current_conversation(&mut self)
        requires
            old(self).wf(),
        ensures
            final(self).wf(),
            old(self)@.convs.len() == 1 ==> final(self)@ == old(self)@,
            old(self)@.convs.len() > 1 ==> (final(self)@ == AppModel {
                convs: old(self)@.convs.remove(old(self)@.active),
                active: if old(self)@.active >= old(self)@.convs.len() - 1 {
                    old(self)@.convs.len() - 2
                } else {
                    old(self)@.active
                },
                ..old(self)@
            }),
    {
        if self.conversations.len() > 1 {
            self.conversations.remove(self.active_tab);
            proof {
                assert(self@.convs =~= old(self)@.convs.remove(old(self)@.active));
            }
            if self.active_tab >= self.conversations.len() {
                self.active_tab = self.conversations.len() - 1;
            }
        }
    }

    /// Closes the active tab (the same operation under its other name).
    pub fn close_tab(&mut self)
        requires
            old(self).wf(),
        ensures
            final(self).wf(),
            old(self)@.convs.len() == 1 ==> final(self)@ == old(self)@,
            old(self)@.convs.len() > 1 ==> (final(self)@ == AppModel {
                convs: old(self)@.convs.remove(old(self)@.active),
                active: if old(self)@.active >= old(self)@.convs.len() - 1 {
                    old(self)@.convs.len() - 2
                } else {
                    old(self)@.active
                },
                ..old(self)@
            }),
    {
        self.close_current_conversation();
    }

    /// Moves to the next tab, stopping at the last.
    pub fn next_tab(&mut self)
        requires
            old(self).wf(),
        ensures
            final(self).wf(),
            (final(self)@ == AppModel {
                active: if old(self)@.active < old(self)@.convs.len() - 1 {
                    old(self)@.active + 1
                } else {
                    old(self)@.active
                },
                ..old(self)@
            }),
    {
        if self.active_tab < self.conversations.len() - 1 {
            self.active_tab += 1;
        }
    }

    /// Moves to the previous tab, stopping at the first.
    pub fn prev_tab(&mut self)
        requires
            old(self).wf(),
        ensures
            final(self).wf(),
            (final(self)@ == AppModel {
                active: if old(self)@.active > 0 {
                    old(self)@.active - 1
                } else {
                    0
                },
                ..old(self)@
            }),
    {
        if self.active_tab > 0 {
            self.active_tab -= 1;
        }
    }

    /// Switches to the tab at `idx`; out of range is a no-op.
    pub fn switch_tab(&mut self, idx: usize)
        requires
            old(self).wf(),
        ensures
            final(self).wf(),
            (final(self)@ == AppModel {
                active: if idx < old(self)@.convs.len() {
                    idx as int
                } else {
                    old(self)@.active
                },
                ..old(self)@
            }),
    {
        if idx < self.conversations.len() {
            self.active_tab = idx;
        }
    }

    /// Shows the help overlay, or leaves it.
    pub fn toggle_help(&mut self)
        ensures
            (final(self)@ == AppModel {
                mode: if old(self).mode == Mode::Help {
                    Mode::Normal
                } else {
                    Mode::Help
                },
                ..old(self)@
            }),
    {
        self.mode = if self.mode == Mode::Help {
            Mode::Normal
        } else {
            Mode::Help
        };
    }

    /// Moves the input cursor one character left.
    pub fn move_cursor_left(&mut self)
        requires
            old(self).wf(),
        ensures
            final(self).wf(),
            (final(self)@ == AppModel {
                input: InputModel {
                    text: old(self)@.input.text,
                    cursor: if old(self)@.input.cursor > 0 {
                        old(self)@.input.cursor - 1
                    } else {
                        0
                    },
                },
                ..old(self)@
            }),
    {
        self.input.move_left();
    }

    /// Moves the input cursor one character right.
    pub fn move_cursor_right(&mut self)
        requires
            old(self).wf(),
        ensures
            final(self).wf(),
            (final(self)@ == AppModel {
                input: InputModel {
                    text: old(self)@.input.text,
                    cursor: if old(self)@.input.cursor < old(self)@.input.text.len() {
                        old(self)@.input.cursor + 1
                    } else {
                        old(self)@.input.cursor
                    },
                },
                ..old(self)@
            }),
    {
        self.input.move_right();
    }

    /// Inserts a character at the input cursor.
    pub fn insert_char(&mut self, c: char)
        requires
            old(self).wf(),
        ensures
            final(self).wf(),
            (final(self)@ == AppModel {
                input: InputModel {
                    text: old(self)@.input.text.insert(old(self)@.input.cursor, c),
                    cursor: old(self)@.input.cursor + 1,
                },
                ..old(self)@
            }),
    {
        self.input.insert(c);
    }

    /// Removes the character before the input cursor.
    pub fn delete_char(&mut self)
        requires
            old(self).wf(),
        ensures
            final(self).wf(),
            old(self)@.input.cursor > 0 ==> (final(self)@ == AppModel {
                input: InputModel {
                    text: old(self)@.input.text.remove(old(self)@.input.cursor - 1),
                    cursor: old(self)@.input.cursor - 1,
                },
                ..old(self)@
            }),
            old(self)@.input.cursor == 0 ==> final(self)@ == old(self)@,
    {
        self.input.backspace();
    }

    /// Takes the staged model override for the session about to start:
    /// it applies to that one start, so it stops being pending, and the
    /// shown current model follows it.
    pub fn take_model_override(&mut self) -> (r: Option<String>)
        requires
            old(self).wf(),
        ensures
            final(self).wf(),
            match old(self)@.pending_model_change {
                Some(m) => (match r {
                    Some(t) => t@ == m,
                    None => false,
                }) && (final(self)@ == AppModel {
                    pending_model_change: None,
                    current_model: Some(m),
                    ..old(self)@
                }),
                None => r is None && final(self)@ == old(self)@,
            },
    {
        match self.pending_model_change.take() {
            Some(m) => {
                self.current_model = Some(m.clone());
                Some(m)
            },
            None => None,
        }
    }

    /// Whether a credential is configured.
    pub fn has_api_key(&self) -> (b: bool)
        ensures
            b == self@.has_key,
    {
        self.api_client.is_some()
    }

    /// Appends an empty assistant message to the active conversation:
    /// the row the arriving reply will fill.
    pub fn start_assistant_message(&mut self)
        requires
            old(self).wf(),
        ensures
            final(self).wf(),
            ({
                let c = old(self)@.convs[old(self)@.active];
                let fc = final(self)@.convs[old(self)@.active];
                &&& fc.messages.len() == c.messages.len() + 1
                &&& fc.messages.take(c.messages.len() as int) == c.messages
                &&& fc.messages.last().role == Role::Assistant
                &&& fc.messages.last().content == Seq::<char>::empty()
                &&& fc.title == sp_auto_title(ConvModel { messages: fc.messages, ..c })
                &&& (fc == ConvModel { messages: fc.messages, title: fc.title, ..c })
                &&& (final(self)@ == AppModel {
                    convs: old(self)@.convs.update(old(self)@.active, fc),
                    ..old(self)@
                })
            }),
    {
        let mut c = self.conversations.remove(self.active_tab);
        c.add_message(Message::new(Role::Assistant, String::new()));
        self.conversations.insert(self.active_tab, c);
        proof {
            assert(self@.convs =~= old(self)@.convs.update(
                old(self)@.active,
                self@.convs[old(self)@.active],
            ));
        }
    }

    /// Appends text to the last message of the active conversation; with
    /// no message yet, nothing happens.
    pub fn append_to_last_message(&mut self, text: &str)
        requires
            old(self).wf(),
        ensures
            final(self).wf(),
            (final(self)@ == AppModel {
                convs: old(self)@.convs.update(
                    old(self)@.active,
                    sp_append_last(old(self)@.convs[old(self)@.active], text@),
                ),
                ..old(self)@
            }),
    {
        let mut c = self.conversations.remove(self.active_tab);
        let n = c.messages.len();
        if n > 0 {
            let mut msg = c.messages.remove(n - 1);
            msg.content.append(text);
            c.messages.push(msg);
            proof {
                assert(c@.messages =~= sp_append_last(
                    old(self)@.convs[old(self)@.active],
                    text@,
                ).messages);
            }
        }
        self.conversations.insert(self.active_tab, c);
        proof {
            assert(self@.convs =~= old(self)@.convs.update(
                old(self)@.active,
                sp_append_last(old(self)@.convs[old(self)@.active], text@),
            ));
        }
    }

    /// Ends the active conversation's turn, clearing its loading state.
    pub fn finish_streaming(&mut self)
        requires
            old(self).wf(),
        ensures
            final(self).wf(),
            (final(self)@ == AppModel {
                convs: old(self)@.convs.update(
                    old(self)@.active,
                    sp_end_turn(old(self)@.convs[old(self)@.active]),
                ),
                ..old(self)@
            }),
    {
        let mut c = self.conversations.remove(self.active_tab);
        if matches!(c.status, SessionStatus::AwaitingFirstToken) || matches!(
            c.status,
            SessionStatus::Streaming,
        ) {
            c.status = SessionStatus::Terminated;
        }
        self.conversations.insert(self.active_tab, c);
        proof {
            assert(self@.convs =~= old(self)@.convs.update(
                old(self)@.active,
                sp_end_turn(old(self)@.convs[old(self)@.active]),
            ));
        }
    }

    /// Records an error for display and clears the active conversation's
    /// loading state.
    pub fn set_error(&mut self, error: String)
        requires
            old(self).wf(),
        ensures
            final(self).wf(),
            (final(self)@ == AppModel {
                error_message: Some(error@),
                convs: old(self)@.convs.update(
                    old(self)@.active,
                    sp_end_turn(old(self)@.convs[old(self)@.active]),
                ),
                ..old(self)@
            }),
    {
        self.error_message = Some(error);
        let mut c = self.conversations.remove(self.active_tab);
        if matches!(c.status, SessionStatus::AwaitingFirstToken) || matches!(
            c.status,
            SessionStatus::Streaming,
        ) {
            c.status = SessionStatus::Terminated;
        }
        self.conversations.insert(self.active_tab, c);
        proof {
            assert(self@.convs =~= old(self)@.convs.update(
                old(self)@.active,
                sp_end_turn(old(self)@.convs[old(self)@.active]),
            ));
        }
    }

    /// Empties the active conversation and notes it in the status slot.
    pub fn clear_current_conversation(&mut self)
        requires
            old(self).wf(),
        ensures
            final(self).wf(),
            (final(self)@ == AppModel {
                convs: old(self)@.convs.update(
                    old(self)@.active,
                    ConvModel {
                        messages: Seq::empty(),
                        scroll: 0,
                        ..old(self)@.convs[old(self)@.active]
                    },
                ),
                status_message: Some(sp_cleared_message()),
                ..old(self)@
            }),
    {
        let mut c = self.conversations.remove(self.active_tab);
        c.messages.clear();
        c.scroll_offset = 0;
        proof {
            assert(c@.messages =~= Seq::<MessageModel>::empty());
        }
        self.conversations.insert(self.active_tab, c);
        self.status_message = Some("Conversation cleared".to_owned());
        proof {
            assert(self@.convs =~= old(self)@.convs.update(
                old(self)@.active,
                ConvModel {
                    messages: Seq::empty(),
                    scroll: 0,
                    ..old(self)@.convs[old(self)@.active]
                },
            ));
        }
    }

    /// Index of the live conversation carrying `id`.
    #[verifier::loop_isolation(false)]
    fn find_conv(&self, id: u128) -> (r: Option<usize>)
        ensures
            match r {
                Some(k) => sp_find_conv(self@.convs, id, 0) == Some(k as int) && k
                    < self@.convs.len(),
                None => sp_find_conv(self@.convs, id, 0) is None,
            },
    {
        let n = self.conversations.len();
        let mut q: usize = 0;
        while q < n
            invariant
                q <= n,
                n == self.conversations@.len(),
                sp_find_conv(self@.convs, id, 0) == sp_find_conv(self@.convs, id, q as int),
            decreases n - q,
        {
            proof {
                assert(self@.convs[q as int] == self.conversations@[q as int]@);
            }
            if self.conversations[q].id == id {
                return Some(q);
            }
            q += 1;
        }
        None
    }

    /// Applies one forwarded increment (see `sp_apply`).
    pub fn apply_event(&mut self, ev: AppEvent)
        requires
            old(self).wf(),
        ensures
            final(self).wf(),
            (final(self)@ == sp_apply(old(self)@, ev@)),
    {
        match ev {
            AppEvent::StreamStart(_) => {},
            AppEvent::StreamDelta(id, text) => {
                let k = match self.find_conv(id) {
                    Some(k) => k,
                    None => { return ; },
                };
                let ghost c0 = self@.convs[k as int];
                let mut c = self.conversations.remove(k);
                if matches!(c.status, SessionStatus::AwaitingFirstToken) || matches!(
                    c.status,
                    SessionStatus::Streaming,
                ) {
                    let n = c.messages.len();
                    if n > 0 && matches!(c.messages[n - 1].role, Role::Assistant) {
                        let mut msg = c.messages.remove(n - 1);
                        msg.content.append(text.as_str());
                        c.messages.push(msg);
                        proof {
                            assert(c@.messages =~= sp_append_text(c0, text@).messages);
                        }
                    }
                    c.status = SessionStatus::Streaming;
                }
                self.conversations.insert(k, c);
                proof {
                    if sp_busy(c0.status) {
                        assert(self@.convs =~= old(self)@.convs.update(
                            k as int,
                            ConvModel { status: SessionStatus::Streaming, ..sp_append_text(c0, text@) },
                        ));
                    } else {
                        assert(self@.convs =~= old(self)@.convs);
                    }
                }
            },
            AppEvent::StreamEnd(id) => {
                let k = match self.find_conv(id) {
                    Some(k) => k,
                    None => { return ; },
                };
                let ghost c0 = self@.convs[k as int];
                let mut c = self.conversations.remove(k);
                if matches!(c.status, SessionStatus::AwaitingFirstToken) || matches!(
                    c.status,
                    SessionStatus::Streaming,
                ) {
                    let n = c.messages.len();
                    if n > 0 && matches!(c.messages[n - 1].role, Role::Assistant)
                        && c.messages[n - 1].content.as_str().unicode_len() == 0 {
                        c.messages.remove(n - 1);
                        proof {
                            assert(c@.messages =~= sp_drop_empty_trailing(c0).messages);
                        }
                    }
                    c.status = SessionStatus::Terminated;
                }
                self.conversations.insert(k, c);
                proof {
                    if sp_busy(c0.status) {
                        assert(self@.convs =~= old(self)@.convs.update(
                            k as int,
                            ConvModel {
                                status: SessionStatus::Terminated,
                                ..sp_drop_empty_trailing(c0)
                            },
                        ));
                    } else {
                        assert(self@.convs =~= old(self)@.convs);
                    }
                }
            },
            AppEvent::StreamError(id, msg) => {
                let k = match self.find_conv(id) {
                    Some(k) => k,
                    None => { return ; },
                };
                let ghost c0 = self@.convs[k as int];
                let mut c = self.conversations.remove(k);
                let was_busy = matches!(c.status, SessionStatus::AwaitingFirstToken) || matches!(
                    c.status,
                    SessionStatus::Streaming,
                );
                if was_busy {
                    let n = c.messages.len();
                    if n > 0 && matches!(c.messages[n - 1].role, Role::Assistant)
                        && c.messages[n - 1].content.as_str().unicode_len() == 0 {
                        c.messages.remove(n - 1);
                        proof {
                            assert(c@.messages =~= sp_drop_empty_trailing(c0).messages);
                        }
                    }
                    c.status = SessionStatus::Terminated;
                    if k == self.active_tab {
                        self.error_message = Some(msg);
                    } else {
                        c.pending_error = Some(msg);
                    }
                }
                self.conversations.insert(k, c);
                proof {
                    if sp_busy(c0.status) {
                        if k as int == old(self)@.active {
                            assert(self@.convs =~= old(self)@.convs.update(
                                k as int,
                                ConvModel {
                                    status: SessionStatus::Terminated,
                                    ..sp_drop_empty_trailing(c0)
                                },
                            ));
                        } else {
                            assert(self@.convs =~= old(self)@.convs.update(
                                k as int,
                                ConvModel {
                                    status: SessionStatus::Terminated,
                                    pending_error: Some(msg@),
                                    ..sp_drop_empty_trailing(c0)
                                },
                            ));
                        }
                    } else {
                        assert(self@.convs =~= old(self)@.convs);
                    }
                }
            },
        }
    }

    /// Interprets one control directive (see `sp_handle_command`).
    pub fn handle_command(&mut self, input: &str)
        requires
            old(self).wf(),
        ensures
            final(self).wf(),
            (final(self)@ == sp_handle_command(old(self)@, input@)),
    {
        let head_end = match find_space(input, 0) {
            Some(j) => j,
            None => input.unicode_len(),
        };
        let head = input.substring_char(0, head_end);
        proof {
            match sp_find_sp(input@, 0) {
                Some(j) => {
                    assert(head@ =~= sp_cmd_head(input@));
                },
                None => {
                    assert(input@.subrange(0, input@.len() as int) =~= input@);
                },
            }
        }
        if str_eq(head, "/model") {
            match find_space(input, 0) {
                Some(j) => {
                    let n = input.unicode_len();
                    let raw = input.substring_char(j + 1, n);
                    proof {
                        assert(raw@ =~= input@.skip(j as int + 1));
                    }
                    let arg = trim_of(raw);
                    let mut sm = String::new();
                    sm.append("Model set to: ");
                    sm.append(arg.as_str());
                    self.pending_model_change = Some(arg);
                    self.status_message = Some(sm);
                },
                None => {
                    let mut sm = String::new();
                    sm.append("Current model: ");
                    match &self.current_model {
                        Some(m) => sm.append(m.as_str()),
                        None => sm.append("unknown"),
                    }
                    self.status_message = Some(sm);
                },
            }
        } else if str_eq(head, "/help") {
            self.mode = Mode::Help;
        } else {
            let mut em = String::new();
            em.append("Unknown command: ");
            em.append(head);
            self.error_message = Some(em);
        }
    }

    /// Submits the composed line.
    ///
    /// An empty line does nothing. A line opening with `/` is a control
    /// directive and never reaches the conversation. Otherwise the line
    /// is rejected — with an error, and with the composed line and the
    /// conversation left untouched — while a turn is already in flight
    /// or when no credential is configured; else it is taken, appended
    /// as the user's message, an empty assistant message is appended
    /// after it, the conversation enters `AwaitingFirstToken`, and the
    /// line is returned so that the caller starts a session from the
    /// history before the empty trailing message.
    pub fn submit(&mut self) -> (r: Option<String>)
        requires
            old(self).wf(),
        ensures
            final(self).wf(),
            old(self)@.input.text.len() == 0 ==> r is None && final(self)@ == old(self)@,
            ({
                let text = old(self)@.input.text;
                (text.len() > 0 && text[0] == '/') ==> r is None && (final(self)@
                    == sp_handle_command(sp_clear_input(old(self)@), text))
            }),
            ({
                let m = old(self)@;
                let text = m.input.text;
                (text.len() > 0 && text[0] != '/' && sp_busy(m.convs[m.active].status)) ==> r
                    is None && (final(self)@ == AppModel {
                    error_message: Some(sp_busy_message()),
                    ..m
                })
            }),
            ({
                let m = old(self)@;
                let text = m.input.text;
                (text.len() > 0 && text[0] != '/' && !sp_busy(m.convs[m.active].status)
                    && !m.has_key) ==> r is None && (final(self)@ == AppModel {
                    error_message: Some(sp_no_key_message()),
                    ..m
                })
            }),
            ({
                let m = old(self)@;
                let text = m.input.text;
                (text.len() > 0 && text[0] != '/' && !sp_busy(m.convs[m.active].status)
                    && m.has_key) ==> ({
                    let c = m.convs[m.active];
                    let fc = final(self)@.convs[m.active];
                    &&& match r {
                        Some(t) => t@ == text,
                        None => false,
                    }
                    &&& fc.messages.len() == c.messages.len() + 2
                    &&& fc.messages.take(c.messages.len() as int) == c.messages
                    &&& fc.messages[c.messages.len() as int].role == Role::User
                    &&& fc.messages[c.messages.len() as int].content == text
                    &&& fc.messages.last().role == Role::Assistant
                    &&& fc.messages.last().content == Seq::<char>::empty()
                    &&& fc.status == SessionStatus::AwaitingFirstToken
                    &&& fc.title == sp_auto_title(
                        ConvModel { messages: fc.messages.drop_last(), ..c },
                    )
                    &&& fc.id == c.id
                    &&& fc.system_prompt == c.system_prompt
                    &&& fc.scroll == c.scroll
                    &&& fc.pending_error == c.pending_error
                    &&& (final(self)@ == AppModel {
                        convs: m.convs.update(m.active, fc),
                        error_message: None,
                        ..sp_clear_input(m)
                    })
                })
            }),
    {
        if self.input.is_empty() {
            return None;
        }
        let is_directive = {
            let cs = self.input.chars();
            cs[0] == '/'
        };
        if is_directive {
            let text = self.input.clear();
            self.handle_command(text.as_str());
            return None;
        }
        let busy = {
            let c = &self.conversations[self.active_tab];
            matches!(c.status, SessionStatus::AwaitingFirstToken) || matches!(
                c.status,
                SessionStatus::Streaming,
            )
        };
        proof {
            assert(self@.convs[self@.active] == self.conversations@[self.active_tab as int]@);
        }
        if busy {
            self.error_message = Some(
                "A response is already streaming. Wait for it to finish.".to_owned(),
            );
            return None;
        }
        if self.api_client.is_none() {
            self.error_message = Some("ANTHROPIC_API_KEY not set. Export it and restart.".to_owned());
            return None;
        }
        let text = self.input.clear();
        let ghost c0 = self@.convs[self@.active];
        let mut c = self.conversations.remove(self.active_tab);
        c.add_message(Message::new(Role::User, text.clone()));
        let ghost after_user = c@.messages;
        c.messages.push(Message::new(Role::Assistant, String::new()));
        proof {
            assert(c@.messages =~= after_user.push(c.messages@.last()@));
        }
        c.status = SessionStatus::AwaitingFirstToken;
        self.conversations.insert(self.active_tab, c);
        self.error_message = None;
        proof {
            let fc = self@.convs[self@.active as int];
            assert(self@.convs =~= old(self)@.convs.update(old(self)@.active, fc));
            assert(fc.messages.take(c0.messages.len() as int) =~= c0.messages);
            assert(fc.messages.drop_last() =~= after_user);
        }
        Some(text)
    }

    /// Clears the transient error and status messages.
    pub fn clear_error(&mut self)
        ensures
            (final(self)@ == AppModel {
                error_message: None,
                status_message: None,
                ..old(self)@
            }),
    {
        self.error_message = None;
        self.status_message = None;
    }
}

/// A found conversation carries the id it was found by.
proof fn lemma_find_conv_id(convs: Seq<ConvModel>, id: u128, i: int)
    requires
        0 <= i,
        sp_find_conv(convs, id, i) is Some,
    ensures
        i <= sp_find_conv(convs, id, i)->0 < convs.len(),
        convs[sp_find_conv(convs, id, i)->0].id == id,
    decreases convs.len() - i,
{
    if i < convs.len() && convs[i].id != id {
        lemma_find_conv_id(convs, id, i + 1);
    }
}

/// One forwarded increment leaves every conversation it is not tagged
/// with exactly as it was.
pub proof fn lemma_apply_frame(m: AppModel, e: AppEventModel, i: int)
    requires
        0 <= i < m.convs.len(),
        m.convs[i].id != sp_event_tab(e),
    ensures
        sp_apply(m, e).convs.len() == m.convs.len(),
        sp_apply(m, e).convs[i] == m.convs[i],
{
    match e {
        AppEventModel::Start(_) => {},
        AppEventModel::Delta(id, _) => {
            if sp_find_conv(m.convs, id, 0) is Some {
                lemma_find_conv_id(m.convs, id, 0);
            }
        },
        AppEventModel::End(id) => {
            if sp_find_conv(m.convs, id, 0) is Some {
                lemma_find_conv_id(m.convs, id, 0);
            }
        },
        AppEventModel::Fail(id, _) => {
            if sp_find_conv(m.convs, id, 0) is Some {
                lemma_find_conv_id(m.convs, id, 0);
            }
        },
    }
}

/// A conversation's history is append-only under forwarded increments:
/// one increment leaves it unchanged, extends the trailing assistant
/// message in place, or — only when a turn ends on an empty trailing
/// assistant message — removes that one empty row. Nothing is ever
/// reordered or rewritten.
pub proof fn lemma_history_append_only(m: AppModel, e: AppEventModel, k: int)
    requires
        0 <= k < m.convs.len(),
    ensures
        ({
            let before = m.convs[k].messages;
            let after = sp_apply(m, e).convs[k].messages;
            ||| after == before
            ||| (before.len() > 0 && after.len() == before.len() && after.drop_last()
                == before.drop_last() && after.last().role == before.last().role && before.last(
            ).content.is_prefix_of(after.last().content))
            ||| (before.len() > 0 && before.last().role == Role::Assistant && before.last(
            ).content.len() == 0 && after == before.drop_last())
        }),
{
    let before = m.convs[k].messages;
    match e {
        AppEventModel::Start(_) => {},
        AppEventModel::Delta(id, text) => {
            if sp_find_conv(m.convs, id, 0) is Some {
                lemma_find_conv_id(m.convs, id, 0);
                let k2 = sp_find_conv(m.convs, id, 0)->0;
                if k2 == k && sp_busy(m.convs[k].status) && before.len() > 0 && before.last().role
                    == Role::Assistant {
                    let after = sp_apply(m, e).convs[k].messages;
                    assert(after.drop_last() =~= before.drop_last());
                    assert((before.last().content + text).subrange(
                        0,
                        before.last().content.len() as int,
                    ) =~= before.last().content);
                }
            }
        },
        AppEventModel::End(id) => {
            if sp_find_conv(m.convs, id, 0) is Some {
                lemma_find_conv_id(m.convs, id, 0);
            }
        },
        AppEventModel::Fail(id, _) => {
            if sp_find_conv(m.convs, id, 0) is Some {
                lemma_find_conv_id(m.convs, id, 0);
            }
        },
    }
}

/// A turn that fails before any text — the rate-limited scenario: the
/// one failure increment ends the turn, removes the empty trailing
/// assistant row, and surfaces its message in the status slot exactly
/// when the conversation is the active tab, keeping it on the
/// conversation otherwise; every other conversation keeps its state.
pub proof fn lemma_failed_turn(m: AppModel, id: u128, msg: Seq<char>)
    requires
        sp_find_conv(m.convs, id, 0) is Some,
        ({
            let k = sp_find_conv(m.convs, id, 0)->0;
            let c = m.convs[k];
            sp_busy(c.status) && c.messages.len() > 0 && c.messages.last().role == Role::Assistant
                && c.messages.last().content.len() == 0
        }),
    ensures
        ({
            let k = sp_find_conv(m.convs, id, 0)->0;
            let c = m.convs[k];
            let m2 = sp_apply(m, AppEventModel::Fail(id, msg));
            &&& m2.convs.len() == m.convs.len()
            &&& m2.convs[k].status == SessionStatus::Terminated
            &&& m2.convs[k].messages == c.messages.drop_last()
            &&& (k == m.active ==> m2.error_message == Some(msg) && m2.convs[k].pending_error
                == c.pending_error)
            &&& (k != m.active ==> m2.error_message == m.error_message && m2.convs[k].pending_error
                == Some(msg))
            &&& forall|i: int|
                0 <= i < m.convs.len() && i != k ==> #[trigger] m2.convs[i] == m.convs[i]
        }),
{
    lemma_find_conv_id(m.convs, id, 0);
}

/// The state after applying each event in turn.
pub open spec fn sp_apply_all(m: AppModel, evs: Seq<AppEventModel>) -> AppModel
    decreases evs.len(),
{
    if evs.len() == 0 {
        m
    } else {
        sp_apply_all(sp_apply(m, evs[0]), evs.skip(1))
    }
}

/// No cross-talk: however the increments of any set of sessions
/// interleave, a conversation that none of them is tagged with — another
/// tab's — keeps exactly its messages and all the rest of its state.
pub proof fn lemma_no_cross_talk(m: AppModel, evs: Seq<AppEventModel>, i: int)
    requires
        0 <= i < m.convs.len(),
        forall|j: int| 0 <= j < evs.len() ==> sp_event_tab(#[trigger] evs[j]) != m.convs[i].id,
    ensures
        sp_apply_all(m, evs).convs.len() == m.convs.len(),
        sp_apply_all(m, evs).convs[i] == m.convs[i],
    decreases evs.len(),
{
    if evs.len() > 0 {
        lemma_apply_frame(m, evs[0], i);
        let m2 = sp_apply(m, evs[0]);
        assert forall|j: int| 0 <= j < evs.skip(1).len() implies sp_event_tab(
            #[trigger] evs.skip(1)[j],
        ) != m2.convs[i].id by {
            assert(evs.skip(1)[j] == evs[j + 1]);
        }
        lemma_no_cross_talk(m2, evs.skip(1), i);
    }
}

} // verus!

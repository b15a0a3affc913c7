//! Per-turn session bookkeeping.
//!
//! A `Session` stands for one outbound exchange for one conversation turn.
//! The program performs the transport work — sending the request, reading
//! the status, pulling byte fragments off the body — and reports each
//! outcome here; the session turns those reports into `StreamChunk`s with
//! the engine's guarantees: a non-success status or a transport failure
//! yields exactly one `Error` chunk and no text, a success response is fed
//! through the incremental parser, and over a whole run exactly one
//! terminal chunk comes out.

use vstd::prelude::*;

use crate::parser::{
    chunk_seq, sp_step_out, sp_step_state, ChunkModel, ParserModel, StreamChunk, StreamParser,
};
use crate::text::push_char;

verus! {

/// The decimal digit character for `d`.
pub open spec fn sp_digit(d: u8) -> char {
    ((48 + d) as u8) as char
}

/// The decimal notation of `n`.
pub open spec fn sp_u16_dec(n: u16) -> Seq<char>
    decreases n,
{
    if n < 10 {
        seq![sp_digit(n as u8)]
    } else {
        sp_u16_dec(n / 10) + seq![sp_digit((n % 10) as u8)]
    }
}

/// The user-facing message for a non-success response status: a credential
/// problem, rate limiting, a server-side failure, or the catch-all that
/// cites the status and the response body.
pub open spec fn sp_status_message(status: u16, body: Seq<char>) -> Seq<char> {
    if status == 401 {
        "Invalid API key. Check your ANTHROPIC_API_KEY."@
    } else if status == 429 {
        "Rate limited. Please wait and try again."@
    } else if 500 <= status && status <= 599 {
        "API server error. Please try again later."@
    } else {
        "API error ("@ + sp_u16_dec(status) + "): "@ + body
    }
}

/// The user-facing message for a transport failure; a timeout takes
/// precedence over a connect failure, a failed read of the response body
/// (`read`) names itself, and anything else cites the detail.
pub open spec fn sp_transport_message(
    timeout: bool,
    connect: bool,
    read: bool,
    detail: Seq<char>,
) -> Seq<char> {
    if timeout {
        "Request timed out. Please try again."@
    } else if connect {
        "Connection failed. Check your internet connection."@
    } else if read {
        "Read error: "@ + detail
    } else {
        "Request failed: "@ + detail
    }
}

/// Appends the decimal notation of `n`.
fn u16_dec_into(n: u16, out: &mut String)
    ensures
        final(out)@ == old(out)@ + sp_u16_dec(n),
    decreases n,
{
    if n < 10 {
        let c = (48 + n as u8) as char;
        push_char(out, c);
        proof {
            assert(old(out)@.push(c) =~= old(out)@ + seq![sp_digit(n as u8)]);
        }
    } else {
        u16_dec_into(n / 10, out);
        let ghost mid = out@;
        let c = (48 + (n % 10) as u8) as char;
        push_char(out, c);
        proof {
            assert(mid.push(c) =~= old(out)@ + (sp_u16_dec(n / 10) + seq![
                sp_digit((n % 10) as u8),
            ]));
        }
    }
}

/// The user-facing message for a non-success status (see
/// `sp_status_message`).
pub fn status_message(status: u16, body: &str) -> (r: String)
    ensures
        r@ == sp_status_message(status, body@),
{
    if status == 401 {
        "Invalid API key. Check your ANTHROPIC_API_KEY.".to_owned()
    } else if status == 429 {
        "Rate limited. Please wait and try again.".to_owned()
    } else if 500 <= status && status <= 599 {
        "API server error. Please try again later.".to_owned()
    } else {
        let mut r = String::new();
        r.append("API error (");
        u16_dec_into(status, &mut r);
        r.append("): ");
        r.append(body);
        r
    }
}

/// The user-facing message for a transport failure (see
/// `sp_transport_message`).
pub fn transport_message(timeout: bool, connect: bool, read: bool, detail: &str) -> (r: String)
    ensures
        r@ == sp_transport_message(timeout, connect, read, detail@),
{
    if timeout {
        "Request timed out. Please try again.".to_owned()
    } else if connect {
        "Connection failed. Check your internet connection.".to_owned()
    } else if read {
        let mut r = String::new();
        r.append("Read error: ");
        r.append(detail);
        r
    } else {
        let mut r = String::new();
        r.append("Request failed: ");
        r.append(detail);
        r
    }
}

/// Abstract state of a `Session`.
pub struct SessionModel {
    /// State of the body parser.
    pub parser: ParserModel,
    /// A terminal chunk has been handed out: nothing more will be.
    pub finished: bool,
}

/// One in-flight exchange for one conversation turn (see the module
/// comment).
pub struct Session {
    parser: StreamParser,
    finished: bool,
}

impl View for Session {
    type V = SessionModel;

    closed spec fn view(&self) -> SessionModel {
        SessionModel { parser: self.parser@, finished: self.finished }
    }
}

impl Session {
    /// Once the parser has emitted its terminal chunk the session is
    /// finished; every method keeps this.
    pub open spec fn wf(&self) -> bool {
        self@.parser.term ==> self@.finished
    }

    /// A fresh session: nothing parsed, nothing emitted.
    pub fn new() -> (s: Session)
        ensures
            s.wf(),
            !s@.finished,
            s@.parser.pending == Seq::<u8>::empty(),
            !s@.parser.term,
    {
        Session { parser: StreamParser::new(), finished: false }
    }

    /// Reports the response status and, when it is not a success, the
    /// error body. On a success (2xx) nothing is emitted and the session
    /// goes on; otherwise the one terminal `Error` chunk is returned, its
    /// message classified by status class, and the session is finished —
    /// no `Text` chunk ever precedes it.
    pub fn on_status(&mut self, status: u16, body: &str) -> (r: Option<StreamChunk>)
        requires
            old(self).wf(),
            !old(self)@.finished,
        ensures
            final(self).wf(),
            if 200 <= status && status < 300 {
                r is None && final(self)@ == old(self)@
            } else {
                final(self)@.finished && match r {
                    Some(c) => c@ == ChunkModel::Error(sp_status_message(status, body@)),
                    None => false,
                }
            },
    {
        if 200 <= status && status < 300 {
            None
        } else {
            self.finished = true;
            Some(StreamChunk::Error(status_message(status, body)))
        }
    }

    /// Feeds one fragment of a success response's body; returns the
    /// chunks it completes, ending the session after a terminal one.
    pub fn on_bytes(&mut self, chunk: &[u8]) -> (out: Vec<StreamChunk>)
        requires
            old(self).wf(),
            !old(self)@.finished,
        ensures
            final(self).wf(),
            chunk_seq(out@) == sp_step_out(old(self)@.parser, chunk@),
            final(self)@.parser == sp_step_state(old(self)@.parser, chunk@),
            final(self)@.finished == final(self)@.parser.term,
    {
        let out = self.parser.feed(chunk);
        if self.parser.is_terminated() {
            self.finished = true;
        }
        out
    }

    /// Reports a transport failure (connect failure, timeout, mid-stream
    /// read error): the one terminal `Error` chunk is returned and the
    /// session is finished.
    pub fn on_transport_error(&mut self, timeout: bool, connect: bool, read: bool, detail: &str) -> (r:
        StreamChunk)
        requires
            old(self).wf(),
            !old(self)@.finished,
        ensures
            final(self).wf(),
            final(self)@.finished,
            r@ == ChunkModel::Error(sp_transport_message(timeout, connect, read, detail@)),
    {
        self.finished = true;
        StreamChunk::Error(transport_message(timeout, connect, read, detail))
    }

    /// Reports the end of the response body: when no terminal chunk has
    /// been emitted yet, the one `Done` is synthesized, so that every run
    /// ends in exactly one terminal chunk.
    pub fn on_end(&mut self) -> (r: Option<StreamChunk>)
        requires
            old(self).wf(),
        ensures
            final(self).wf(),
            final(self)@.finished,
            match r {
                Some(c) => !old(self)@.finished && c@ == ChunkModel::Done,
                None => old(self)@.finished,
            },
    {
        if self.finished {
            None
        } else {
            let r = self.parser.finish();
            self.finished = true;
            match r {
                Some(c) => Some(c),
                None => Some(StreamChunk::Done),
            }
        }
    }

    /// Whether a terminal chunk has been handed out.
    pub fn is_finished(&self) -> (b: bool)
        ensures
            b == self@.finished,
    {
        self.finished
    }
}

} // verus!

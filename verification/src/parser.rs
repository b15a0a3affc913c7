//! Incremental parser for the streaming response body.
//!
//! The response arrives as raw byte fragments cut at arbitrary points, with
//! no relation to the frame boundaries. The parser accumulates the bytes,
//! carves off one complete line at a time (a frame is one line, ended by a
//! line feed) and classifies it; a partial trailing line is kept back and
//! never decoded, so a character split across two reads is never corrupted.
//! Recognized frames yield `StreamChunk`s; unrecognized and malformed lines
//! are skipped. After the first terminal chunk (`Done` or `Error`) nothing
//! further is emitted, and when the source ends without a terminal,
//! `finish` synthesizes the one `Done`.

use vstd::prelude::*;

use crate::json::{classify_event, sp_event, Event, EventModel};

verus! {

/// One increment of an in-progress reply: a text fragment, the normal end
/// of the reply, or a terminal failure.
#[derive(Debug, PartialEq)]
pub enum StreamChunk {
    Text(String),
    Done,
    Error(String),
}

/// Mathematical counterpart of `StreamChunk`.
pub enum ChunkModel {
    Text(Seq<char>),
    Done,
    Error(Seq<char>),
}

impl View for StreamChunk {
    type V = ChunkModel;

    open spec fn view(&self) -> ChunkModel {
        match self {
            StreamChunk::Text(s) => ChunkModel::Text(s@),
            StreamChunk::Done => ChunkModel::Done,
            StreamChunk::Error(s) => ChunkModel::Error(s@),
        }
    }
}

/// The chunk ends a session's output.
pub open spec fn is_terminal(c: ChunkModel) -> bool {
    match c {
        ChunkModel::Text(_) => false,
        ChunkModel::Done => true,
        ChunkModel::Error(_) => true,
    }
}

/// Views of a sequence of chunks.
pub open spec fn chunk_seq(cs: Seq<StreamChunk>) -> Seq<ChunkModel> {
    cs.map_values(|c: StreamChunk| c@)
}

/// Index of the first line feed at or after `i`.
pub open spec fn sp_nl(s: Seq<u8>, i: int) -> Option<int>
    decreases s.len() - i,
{
    if !(0 <= i && i < s.len()) {
        None
    } else if s[i] == 10 {
        Some(i)
    } else {
        sp_nl(s, i + 1)
    }
}

/// The complete lines of `s`, without their line feeds.
pub open spec fn sp_lines(s: Seq<u8>) -> Seq<Seq<u8>>
    decreases s.len(),
{
    match sp_nl(s, 0) {
        None => Seq::empty(),
        Some(i) => if 0 <= i && i < s.len() {
            seq![s.take(i)] + sp_lines(s.skip(i + 1))
        } else {
            Seq::empty()
        },
    }
}

/// What remains of `s` after its last complete line: the partial line the
/// parser holds back.
pub open spec fn sp_tail(s: Seq<u8>) -> Seq<u8>
    decreases s.len(),
{
    match sp_nl(s, 0) {
        None => s,
        Some(i) => if 0 <= i && i < s.len() {
            sp_tail(s.skip(i + 1))
        } else {
            s
        },
    }
}

/// The line carries a data frame: it opens with the prefix `data: `.
pub open spec fn sp_is_data(line: Seq<u8>) -> bool {
    line.len() >= 6 && line[0] == 100 && line[1] == 97 && line[2] == 116 && line[3] == 97 && line[4]
        == 58 && line[5] == 32
}

/// The event one line denotes: data frames are classified by their
/// payload, every other line (keep-alive, blank, other frame kinds) is
/// skipped.
pub open spec fn sp_line_event(line: Seq<u8>) -> EventModel {
    if sp_is_data(line) {
        sp_event(line.skip(6))
    } else {
        EventModel::Skip
    }
}

/// The chunks the given lines yield, in order: text deltas until the first
/// terminal event, which emits the one terminal chunk and ends the output.
/// A parser already terminated (`term`) emits nothing.
pub open spec fn sp_emit(lines: Seq<Seq<u8>>, term: bool) -> Seq<ChunkModel>
    decreases lines.len(),
{
    if term || lines.len() == 0 {
        Seq::empty()
    } else {
        match sp_line_event(lines[0]) {
            EventModel::Delta(t) => seq![ChunkModel::Text(t)] + sp_emit(lines.skip(1), false),
            EventModel::Stop => seq![ChunkModel::Done],
            EventModel::Fail(m) => seq![ChunkModel::Error(m)],
            EventModel::Skip => sp_emit(lines.skip(1), false),
        }
    }
}

/// Whether, after the given lines, a terminal chunk has been emitted.
pub open spec fn sp_term_after(lines: Seq<Seq<u8>>, term: bool) -> bool
    decreases lines.len(),
{
    if term {
        true
    } else if lines.len() == 0 {
        false
    } else {
        match sp_line_event(lines[0]) {
            EventModel::Stop => true,
            EventModel::Fail(_) => true,
            _ => sp_term_after(lines.skip(1), false),
        }
    }
}

/// Abstract state of a `StreamParser`: the held-back partial line and
/// whether a terminal chunk was emitted.
pub struct ParserModel {
    pub pending: Seq<u8>,
    pub term: bool,
}

/// State after feeding `bytes`.
pub open spec fn sp_step_state(m: ParserModel, bytes: Seq<u8>) -> ParserModel {
    ParserModel {
        pending: sp_tail(m.pending + bytes),
        term: sp_term_after(sp_lines(m.pending + bytes), m.term),
    }
}

/// Chunks emitted on feeding `bytes`.
pub open spec fn sp_step_out(m: ParserModel, bytes: Seq<u8>) -> Seq<ChunkModel> {
    sp_emit(sp_lines(m.pending + bytes), m.term)
}

/// Incremental frame parser (see the module comment).
pub struct StreamParser {
    buf: Vec<u8>,
    done: bool,
}

impl View for StreamParser {
    type V = ParserModel;

    closed spec fn view(&self) -> ParserModel {
        ParserModel { pending: self.buf@, term: self.done }
    }
}

/// Index of the first line feed at or after `i` (see `sp_nl`).
fn nl_scan(s: &[u8], i: usize) -> (r: Option<usize>)
    requires
        i <= s@.len(),
    ensures
        match r {
            Some(j) => sp_nl(s@, i as int) == Some(j as int) && i <= j < s@.len(),
            None => sp_nl(s@, i as int) is None,
        },
    decreases s@.len() - i,
{
    if i >= s.len() {
        None
    } else if s[i] == 10 {
        Some(i)
    } else {
        nl_scan(s, i + 1)
    }
}

/// Copy of `s[a..b)`.
fn copy_range(s: &[u8], a: usize, b: usize) -> (v: Vec<u8>)
    requires
        a <= b <= s@.len(),
    ensures
        v@ == s@.subrange(a as int, b as int),
{
    let mut v: Vec<u8> = Vec::new();
    let mut q: usize = a;
    while q < b
        invariant
            a <= q <= b <= s@.len(),
            v@ == s@.subrange(a as int, q as int),
        decreases b - q,
    {
        v.push(s[q]);
        proof {
            assert(s@.subrange(a as int, q as int + 1) =~= s@.subrange(a as int, q as int).push(
                s@[q as int],
            ));
        }
        q += 1;
    }
    v
}

/// Appends all of `s` to `v`.
fn append_bytes(v: &mut Vec<u8>, s: &[u8])
    ensures
        final(v)@ == old(v)@ + s@,
{
    proof {
        assert(old(v)@ + s@.subrange(0, 0) =~= old(v)@);
    }
    let mut q: usize = 0;
    while q < s.len()
        invariant
            q <= s@.len(),
            v@ == old(v)@ + s@.subrange(0, q as int),
        decreases s@.len() - q,
    {
        v.push(s[q]);
        proof {
            assert(old(v)@ + s@.subrange(0, q as int + 1) =~= (old(v)@ + s@.subrange(
                0,
                q as int,
            )).push(s@[q as int]));
        }
        q += 1;
    }
    proof {
        assert(s@.subrange(0, s@.len() as int) =~= s@);
    }
}

/// The line opens with `data: ` (see `sp_is_data`).
fn is_data_line(line: &[u8]) -> (r: bool)
    ensures
        r == sp_is_data(line@),
{
    line.len() >= 6 && line[0] == 100 && line[1] == 97 && line[2] == 116 && line[3] == 97
        && line[4] == 58 && line[5] == 32
}

impl StreamParser {
    /// A parser with nothing pending and nothing emitted.
    pub fn new() -> (p: StreamParser)
        ensures
            p@.pending == Seq::<u8>::empty(),
            !p@.term,
    {
        StreamParser { buf: Vec::new(), done: false }
    }

    /// Feeds one fragment of the response body; returns the chunks the
    /// newly completed lines yield, in order.
    #[verifier::rlimit(60)]
    pub fn feed(&mut self, chunk: &[u8]) -> (out: Vec<StreamChunk>)
        ensures
            chunk_seq(out@) == sp_step_out(old(self)@, chunk@),
            final(self)@ == sp_step_state(old(self)@, chunk@),
    {
        let ghost total: Seq<u8> = old(self)@.pending + chunk@;
        let ghost term0: bool = old(self)@.term;
        append_bytes(&mut self.buf, chunk);
        let mut out: Vec<StreamChunk> = Vec::new();
        proof {
            assert(chunk_seq(out@) =~= Seq::<ChunkModel>::empty());
            assert(Seq::<ChunkModel>::empty() + sp_emit(sp_lines(self.buf@), self.done)
                =~= sp_emit(sp_lines(self.buf@), self.done));
        }
        loop
            invariant
                chunk_seq(out@) + sp_emit(sp_lines(self.buf@), self.done) == sp_emit(
                    sp_lines(total),
                    term0,
                ),
                sp_tail(self.buf@) == sp_tail(total),
                sp_term_after(sp_lines(self.buf@), self.done) == sp_term_after(
                    sp_lines(total),
                    term0,
                ),
            ensures
                sp_nl(self.buf@, 0) is None,
                chunk_seq(out@) + sp_emit(sp_lines(self.buf@), self.done) == sp_emit(
                    sp_lines(total),
                    term0,
                ),
                sp_tail(self.buf@) == sp_tail(total),
                sp_term_after(sp_lines(self.buf@), self.done) == sp_term_after(
                    sp_lines(total),
                    term0,
                ),
            decreases self.buf@.len(),
        {
            let blen = self.buf.len();
            let i = match nl_scan(self.buf.as_slice(), 0) {
                Some(i) => i,
                None => { break ; },
            };
            let ghost buf0: Seq<u8> = self.buf@;
            let line = copy_range(self.buf.as_slice(), 0, i);
            let rest = copy_range(self.buf.as_slice(), i + 1, blen);
            proof {
                assert(buf0.take(i as int) =~= line@);
                assert(buf0.skip(i as int + 1) =~= rest@);
                assert(sp_lines(buf0) == seq![line@] + sp_lines(rest@));
                assert(sp_tail(buf0) == sp_tail(rest@));
                assert((seq![line@] + sp_lines(rest@)).skip(1) =~= sp_lines(rest@));
            }
            self.buf = rest;
            if !self.done {
                let ev = if is_data_line(line.as_slice()) {
                    proof {
                        assert(line@.subrange(6, line@.len() as int) =~= line@.skip(6));
                    }
                    classify_event(&line.as_slice()[6..line.len()])
                } else {
                    Event::Skip
                };
                proof {
                    assert(ev@ == sp_line_event(line@));
                }
                let ghost out0: Seq<StreamChunk> = out@;
                match ev {
                    Event::Delta(s) => {
                        out.push(StreamChunk::Text(s));
                    },
                    Event::Stop => {
                        out.push(StreamChunk::Done);
                        self.done = true;
                    },
                    Event::Fail(m) => {
                        out.push(StreamChunk::Error(m));
                        self.done = true;
                    },
                    Event::Skip => {},
                }
                proof {
                    match sp_line_event(line@) {
                        EventModel::Delta(t) => {
                            assert(chunk_seq(out@) =~= chunk_seq(out0).push(ChunkModel::Text(t)));
                            assert(chunk_seq(out@) + sp_emit(sp_lines(self.buf@), self.done)
                                =~= chunk_seq(out0) + (seq![ChunkModel::Text(t)] + sp_emit(
                                sp_lines(rest@),
                                false,
                            )));
                        },
                        EventModel::Stop => {
                            assert(chunk_seq(out@) =~= chunk_seq(out0).push(ChunkModel::Done));
                            assert(sp_emit(sp_lines(self.buf@), true) =~= Seq::<
                                ChunkModel,
                            >::empty());
                            assert(chunk_seq(out@) + sp_emit(sp_lines(self.buf@), self.done)
                                =~= chunk_seq(out0) + seq![ChunkModel::Done]);
                        },
                        EventModel::Fail(m) => {
                            assert(chunk_seq(out@) =~= chunk_seq(out0).push(ChunkModel::Error(m)));
                            assert(sp_emit(sp_lines(self.buf@), true) =~= Seq::<
                                ChunkModel,
                            >::empty());
                            assert(chunk_seq(out@) + sp_emit(sp_lines(self.buf@), self.done)
                                =~= chunk_seq(out0) + seq![ChunkModel::Error(m)]);
                        },
                        EventModel::Skip => {},
                    }
                }
            }
        }
        proof {
            assert(sp_emit(sp_lines(self.buf@), self.done) =~= Seq::<ChunkModel>::empty());
            assert(chunk_seq(out@) + Seq::<ChunkModel>::empty() =~= chunk_seq(out@));
        }
        out
    }

    /// Whether a terminal chunk has been emitted.
    pub fn is_terminated(&self) -> (b: bool)
        ensures
            b == self@.term,
    {
        self.done
    }

    /// Ends the stream: if no terminal chunk was emitted, synthesizes the
    /// one `Done`.
    pub fn finish(&mut self) -> (out: Option<StreamChunk>)
        ensures
            final(self)@.term,
            final(self)@.pending == old(self)@.pending,
            match out {
                Some(c) => !old(self)@.term && c@ == ChunkModel::Done,
                None => old(self)@.term,
            },
    {
        if self.done {
            None
        } else {
            self.done = true;
            Some(StreamChunk::Done)
        }
    }
}

/// A found line feed lies within bounds and is the first one.
proof fn lemma_nl_some(s: Seq<u8>, i: int)
    requires
        0 <= i,
        sp_nl(s, i) is Some,
    ensures
        i <= sp_nl(s, i)->0 < s.len(),
        s[sp_nl(s, i)->0] == 10,
    decreases s.len() - i,
{
    if i < s.len() && s[i] != 10 {
        lemma_nl_some(s, i + 1);
    }
}

/// The first line feed of a prefix is the first line feed of the whole.
proof fn lemma_nl_prefix(a: Seq<u8>, b: Seq<u8>, i: int)
    requires
        0 <= i,
        sp_nl(a, i) is Some,
    ensures
        sp_nl(a + b, i) == sp_nl(a, i),
    decreases a.len() - i,
{
    lemma_nl_some(a, i);
    assert((a + b)[i] == a[i]) by {
        assert(i < a.len());
    }
    if a[i] != 10 {
        lemma_nl_prefix(a, b, i + 1);
    }
}

/// Lines split at a fragment boundary compose: the complete lines of
/// `a + b` are those of `a` followed by those of `a`'s held-back tail
/// joined with `b`, and the tails agree.
pub proof fn lemma_lines_concat(a: Seq<u8>, b: Seq<u8>)
    ensures
        sp_lines(a + b) == sp_lines(a) + sp_lines(sp_tail(a) + b),
        sp_tail(a + b) == sp_tail(sp_tail(a) + b),
    decreases a.len(),
{
    match sp_nl(a, 0) {
        None => {
            assert(sp_tail(a) == a);
            assert(sp_tail(a) + b =~= a + b);
            assert(sp_lines(a) + sp_lines(a + b) =~= sp_lines(a + b));
        },
        Some(i) => {
            lemma_nl_some(a, 0);
            lemma_nl_prefix(a, b, 0);
            assert((a + b).take(i) =~= a.take(i));
            assert((a + b).skip(i + 1) =~= a.skip(i + 1) + b);
            lemma_lines_concat(a.skip(i + 1), b);
            assert(sp_lines(a + b) == seq![a.take(i)] + sp_lines(a.skip(i + 1) + b));
            assert(sp_lines(a) == seq![a.take(i)] + sp_lines(a.skip(i + 1)));
            assert(sp_tail(a) == sp_tail(a.skip(i + 1)));
            assert(seq![a.take(i)] + (sp_lines(a.skip(i + 1)) + sp_lines(sp_tail(a) + b)) =~= (
            seq![a.take(i)] + sp_lines(a.skip(i + 1))) + sp_lines(sp_tail(a) + b));
        },
    }
}

/// Emission over concatenated line runs composes, threading the terminal
/// flag through.
pub proof fn lemma_emit_concat(l1: Seq<Seq<u8>>, l2: Seq<Seq<u8>>, term: bool)
    ensures
        sp_emit(l1 + l2, term) == sp_emit(l1, term) + sp_emit(l2, sp_term_after(l1, term)),
        sp_term_after(l1 + l2, term) == sp_term_after(l2, sp_term_after(l1, term)),
    decreases l1.len(),
{
    if term {
        assert(sp_emit(l1 + l2, true) =~= Seq::<ChunkModel>::empty());
        assert(sp_emit(l1, true) + sp_emit(l2, true) =~= Seq::<ChunkModel>::empty());
    } else if l1.len() == 0 {
        assert(l1 + l2 =~= l2);
        assert(sp_emit(l1, false) + sp_emit(l2, false) =~= sp_emit(l2, false));
    } else {
        assert((l1 + l2)[0] == l1[0]);
        assert((l1 + l2).skip(1) =~= l1.skip(1) + l2);
        lemma_emit_concat(l1.skip(1), l2, false);
        match sp_line_event(l1[0]) {
            EventModel::Delta(t) => {
                assert(seq![ChunkModel::Text(t)] + (sp_emit(l1.skip(1), false) + sp_emit(
                    l2,
                    sp_term_after(l1.skip(1), false),
                )) =~= (seq![ChunkModel::Text(t)] + sp_emit(l1.skip(1), false)) + sp_emit(
                    l2,
                    sp_term_after(l1.skip(1), false),
                ));
            },
            EventModel::Stop => {
                assert(sp_emit(l2, true) =~= Seq::<ChunkModel>::empty());
                assert(seq![ChunkModel::Done] + Seq::<ChunkModel>::empty() =~= seq![
                    ChunkModel::Done,
                ]);
            },
            EventModel::Fail(m) => {
                assert(sp_emit(l2, true) =~= Seq::<ChunkModel>::empty());
                assert(seq![ChunkModel::Error(m)] + Seq::<ChunkModel>::empty() =~= seq![
                    ChunkModel::Error(m),
                ]);
            },
            EventModel::Skip => {},
        }
    }
}

/// How the byte stream is split into fragments cannot be observed:
/// feeding `a` then `b` yields exactly the increments and state that
/// feeding `a + b` at once yields.
pub proof fn lemma_feed_split(m: ParserModel, a: Seq<u8>, b: Seq<u8>)
    ensures
        sp_step_out(m, a + b) == sp_step_out(m, a) + sp_step_out(sp_step_state(m, a), b),
        sp_step_state(m, a + b) == sp_step_state(sp_step_state(m, a), b),
{
    assert(m.pending + (a + b) =~= (m.pending + a) + b);
    lemma_lines_concat(m.pending + a, b);
    lemma_emit_concat(
        sp_lines(m.pending + a),
        sp_lines(sp_tail(m.pending + a) + b),
        m.term,
    );
}

/// Number of terminal chunks in a sequence.
pub open spec fn terminal_count(cs: Seq<ChunkModel>) -> int
    decreases cs.len(),
{
    if cs.len() == 0 {
        0
    } else {
        terminal_count(cs.skip(1)) + if is_terminal(cs[0]) {
            1int
        } else {
            0int
        }
    }
}

/// Emission never yields more than one terminal chunk, and yields exactly
/// one precisely when it reports termination.
pub proof fn lemma_single_terminal(lines: Seq<Seq<u8>>, term: bool)
    ensures
        terminal_count(sp_emit(lines, term)) <= 1,
        !term ==> (terminal_count(sp_emit(lines, term)) == 1 <==> sp_term_after(lines, term)),
    decreases lines.len(),
{
    if term || lines.len() == 0 {
    } else {
        lemma_single_terminal(lines.skip(1), false);
        match sp_line_event(lines[0]) {
            EventModel::Delta(t) => {
                let rest = sp_emit(lines.skip(1), false);
                assert((seq![ChunkModel::Text(t)] + rest).skip(1) =~= rest);
            },
            EventModel::Stop => {
                assert(terminal_count(seq![ChunkModel::Done]) == 1) by {
                    assert(terminal_count(Seq::<ChunkModel>::empty()) == 0);
                    assert(seq![ChunkModel::Done].skip(1) =~= Seq::<ChunkModel>::empty());
                }
            },
            EventModel::Fail(m) => {
                assert(terminal_count(seq![ChunkModel::Error(m)]) == 1) by {
                    assert(terminal_count(Seq::<ChunkModel>::empty()) == 0);
                    assert(seq![ChunkModel::Error(m)].skip(1) =~= Seq::<ChunkModel>::empty());
                }
            },
            EventModel::Skip => {},
        }
    }
}

/// Whatever the stream — well formed or cut off — one whole run of the
/// parser observes exactly one terminal chunk: the chunks emitted for the
/// stream's lines, followed by the `Done` that `finish` synthesizes when
/// none was emitted, contain one terminal and no more.
pub proof fn lemma_exactly_one_terminal(bytes: Seq<u8>)
    ensures
        ({
            let lines = sp_lines(bytes);
            let outs = sp_emit(lines, false);
            let closing: Seq<ChunkModel> = if sp_term_after(lines, false) {
                Seq::empty()
            } else {
                seq![ChunkModel::Done]
            };
            terminal_count(outs + closing) == 1
        }),
{
    let lines = sp_lines(bytes);
    let outs = sp_emit(lines, false);
    lemma_single_terminal(lines, false);
    lemma_terminal_count_nonneg(outs);
    if sp_term_after(lines, false) {
        assert(outs + Seq::<ChunkModel>::empty() =~= outs);
    } else {
        lemma_terminal_count_concat(outs, seq![ChunkModel::Done]);
        assert(terminal_count(seq![ChunkModel::Done]) == 1) by {
            assert(terminal_count(Seq::<ChunkModel>::empty()) == 0);
            assert(seq![ChunkModel::Done].skip(1) =~= Seq::<ChunkModel>::empty());
        }
    }
}

/// Terminal counts are never negative.
proof fn lemma_terminal_count_nonneg(cs: Seq<ChunkModel>)
    ensures
        terminal_count(cs) >= 0,
    decreases cs.len(),
{
    if cs.len() > 0 {
        lemma_terminal_count_nonneg(cs.skip(1));
    }
}

/// Terminal counts add over concatenation.
proof fn lemma_terminal_count_concat(x: Seq<ChunkModel>, y: Seq<ChunkModel>)
    ensures
        terminal_count(x + y) == terminal_count(x) + terminal_count(y),
    decreases x.len(),
{
    if x.len() == 0 {
        assert(x + y =~= y);
    } else {
        assert((x + y)[0] == x[0]);
        assert((x + y).skip(1) =~= x.skip(1) + y);
        lemma_terminal_count_concat(x.skip(1), y);
    }
}

/// One line that classifies as nothing of interest — a corrupt frame, a
/// keep-alive, an unknown event — changes nothing: the stream with it
/// yields exactly the increments of the stream without it.
pub proof fn lemma_skip_line(l1: Seq<Seq<u8>>, bad: Seq<u8>, l2: Seq<Seq<u8>>, term: bool)
    requires
        sp_line_event(bad) == EventModel::Skip,
    ensures
        sp_emit(l1 + seq![bad] + l2, term) == sp_emit(l1 + l2, term),
        sp_term_after(l1 + seq![bad] + l2, term) == sp_term_after(l1 + l2, term),
{
    lemma_emit_concat(l1, seq![bad] + l2, term);
    lemma_emit_concat(l1, l2, term);
    assert(l1 + seq![bad] + l2 =~= l1 + (seq![bad] + l2));
    let t1 = sp_term_after(l1, term);
    assert((seq![bad] + l2).skip(1) =~= l2);
    assert(sp_emit(seq![bad] + l2, t1) == sp_emit(l2, t1));
    assert(sp_term_after(seq![bad] + l2, t1) == sp_term_after(l2, t1));
}

} // verus!

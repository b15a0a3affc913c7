//! Scanner for the wire format's frame payloads.
//!
//! A frame is one line of the streaming response body. A recognized frame
//! carries a structured event written as a JSON object; this module defines
//! that grammar as specification functions over byte sequences and provides
//! executable scanners proved equal to them. The scanners work purely on
//! byte indices: a value is *skipped* by computing the index just past it,
//! and only the few string fields the engine reads are ever decoded.
//!
//! The grammar is deliberately self-contained: objects, arrays, strings
//! (with the standard escapes, including `\uXXXX` and surrogate pairs),
//! numbers, `true`, `false` and `null`. Keys are compared on their raw
//! bytes; the events' keys are plain ASCII, so no key is ever written with
//! escapes by the service.

use vstd::prelude::*;
use vstd::utf8::{decode_utf8, valid_utf8};

use crate::text::string_from_utf8;

verus! {

/// One structured event read from a frame payload, as the engine models it:
/// a piece of generated text, the end of the reply, a service-reported
/// failure, or nothing of interest (unrecognized, or malformed).
pub enum EventModel {
    Delta(Seq<char>),
    Stop,
    Fail(Seq<char>),
    Skip,
}

/// Executable counterpart of `EventModel`.
pub enum Event {
    Delta(String),
    Stop,
    Fail(String),
    Skip,
}

impl View for Event {
    type V = EventModel;

    open spec fn view(&self) -> EventModel {
        match self {
            Event::Delta(s) => EventModel::Delta(s@),
            Event::Stop => EventModel::Stop,
            Event::Fail(s) => EventModel::Fail(s@),
            Event::Skip => EventModel::Skip,
        }
    }
}

/// The member name `type`.
pub open spec fn key_type() -> Seq<u8> {
    seq![116u8, 121, 112, 101]
}

/// The member name `delta`.
pub open spec fn key_delta() -> Seq<u8> {
    seq![100u8, 101, 108, 116, 97]
}

/// The member name `text`.
pub open spec fn key_text() -> Seq<u8> {
    seq![116u8, 101, 120, 116]
}

/// The member name (and discriminant) `error`.
pub open spec fn key_error() -> Seq<u8> {
    seq![101u8, 114, 114, 111, 114]
}

/// The member name `message`.
pub open spec fn key_message() -> Seq<u8> {
    seq![109u8, 101, 115, 115, 97, 103, 101]
}

/// The discriminant `content_block_delta`.
pub open spec fn val_content_block_delta() -> Seq<u8> {
    seq![99u8, 111, 110, 116, 101, 110, 116, 95, 98, 108, 111, 99, 107, 95, 100, 101, 108, 116, 97]
}

/// The discriminant `message_stop`.
pub open spec fn val_message_stop() -> Seq<u8> {
    seq![109u8, 101, 115, 115, 97, 103, 101, 95, 115, 116, 111, 112]
}

/// The discriminant `text_delta` expected on a delta's own `type`.
pub open spec fn val_text_delta() -> Seq<u8> {
    seq![116u8, 101, 120, 116, 95, 100, 101, 108, 116, 97]
}

/// The member name `content`.
pub open spec fn key_content() -> Seq<u8> {
    seq![99u8, 111, 110, 116, 101, 110, 116]
}

/// Byte is JSON insignificant whitespace (space, tab, CR, LF).
pub open spec fn is_ws(b: u8) -> bool {
    b == 32 || b == 9 || b == 13 || b == 10
}

/// Byte may occur in a number token (digits, sign, dot, exponent letter).
pub open spec fn is_num_byte(b: u8) -> bool {
    (48 <= b && b <= 57) || b == 45 || b == 43 || b == 46 || b == 101 || b == 69
}

/// Index of the first non-whitespace byte at or after `i` (or the length).
pub open spec fn sp_ws(s: Seq<u8>, i: int) -> int
    decreases s.len() - i,
{
    if 0 <= i && i < s.len() && is_ws(s[i]) {
        sp_ws(s, i + 1)
    } else {
        i
    }
}

/// Index just past the closing quote of a string whose content starts at
/// `i` (the opening quote sits at `i - 1`). A backslash always consumes the
/// byte after it; an unterminated string yields `None`.
pub open spec fn sp_str_end(s: Seq<u8>, i: int) -> Option<int>
    decreases s.len() - i,
{
    if !(0 <= i && i < s.len()) {
        None
    } else if s[i] == 34 {
        Some(i + 1)
    } else if s[i] == 92 {
        if i + 2 <= s.len() {
            sp_str_end(s, i + 2)
        } else {
            None
        }
    } else {
        sp_str_end(s, i + 1)
    }
}

/// Index just past a maximal run of number bytes starting at `i`.
pub open spec fn sp_num_end(s: Seq<u8>, i: int) -> int
    decreases s.len() - i,
{
    if 0 <= i && i < s.len() && is_num_byte(s[i]) {
        sp_num_end(s, i + 1)
    } else {
        i
    }
}

/// Index just past the JSON value that starts (after optional whitespace)
/// at `i`, or `None` if no well-formed value starts there.
///
/// The bounds guards (`i <= j` and the like) only restate facts that hold
/// of the scanning functions anyway; they make termination evident.
pub open spec fn sp_val_end(s: Seq<u8>, i: int) -> Option<int>
    decreases s.len() - i, 1int,
{
    let j = sp_ws(s, i);
    if !(i <= j && j < s.len()) {
        None
    } else {
        let b = s[j];
        if b == 123 {  // '{'
            sp_obj_rest(s, j + 1, true)
        } else if b == 91 {  // '['
            sp_arr_rest(s, j + 1, true)
        } else if b == 34 {  // '"'
            sp_str_end(s, j + 1)
        } else if b == 116 {  // "true"
            if j + 3 < s.len() && s[j + 1] == 114 && s[j + 2] == 117 && s[j + 3] == 101 {
                Some(j + 4)
            } else {
                None
            }
        } else if b == 102 {  // "false"
            if j + 4 < s.len() && s[j + 1] == 97 && s[j + 2] == 108 && s[j + 3] == 115 && s[j + 4]
                == 101 {
                Some(j + 5)
            } else {
                None
            }
        } else if b == 110 {  // "null"
            if j + 3 < s.len() && s[j + 1] == 117 && s[j + 2] == 108 && s[j + 3] == 108 {
                Some(j + 4)
            } else {
                None
            }
        } else if is_num_byte(b) {
            Some(sp_num_end(s, j))
        } else {
            None
        }
    }
}

/// Index just past the remainder of an object whose members start at `i`
/// (just after `{` when `first` is set, just after a `,` otherwise).
pub open spec fn sp_obj_rest(s: Seq<u8>, i: int, first: bool) -> Option<int>
    decreases s.len() - i, 2int,
{
    if !(0 <= i && i <= s.len()) {
        None
    } else {
        let j = sp_ws(s, i);
        if !(i <= j && j < s.len()) {
            None
        } else if first && s[j] == 125 {  // '}'
            Some(j + 1)
        } else if s[j] != 34 {
            None
        } else {
            match sp_str_end(s, j + 1) {
                None => None,
                Some(k) => if !(j + 1 < k && k <= s.len()) {
                    None
                } else {
                    let c = sp_ws(s, k);
                    if !(k <= c && c < s.len() && s[c] == 58) {  // ':'
                        None
                    } else {
                        match sp_val_end(s, c + 1) {
                            None => None,
                            Some(m) => if !(c + 1 < m && m <= s.len()) {
                                None
                            } else {
                                let e = sp_ws(s, m);
                                if !(m <= e && e < s.len()) {
                                    None
                                } else if s[e] == 125 {  // '}'
                                    Some(e + 1)
                                } else if s[e] == 44 {  // ','
                                    sp_obj_rest(s, e + 1, false)
                                } else {
                                    None
                                }
                            },
                        }
                    }
                },
            }
        }
    }
}

/// Index just past the remainder of an array whose elements start at `i`
/// (just after `[` when `first` is set, just after a `,` otherwise).
pub open spec fn sp_arr_rest(s: Seq<u8>, i: int, first: bool) -> Option<int>
    decreases s.len() - i, 2int,
{
    if !(0 <= i && i <= s.len()) {
        None
    } else {
        let j = sp_ws(s, i);
        if !(i <= j && j < s.len()) {
            None
        } else if first && s[j] == 93 {  // ']'
            Some(j + 1)
        } else {
            match sp_val_end(s, j) {
                None => None,
                Some(m) => if !(j < m && m <= s.len()) {
                    None
                } else {
                    let e = sp_ws(s, m);
                    if !(m <= e && e < s.len()) {
                        None
                    } else if s[e] == 93 {  // ']'
                        Some(e + 1)
                    } else if s[e] == 44 {  // ','
                        sp_arr_rest(s, e + 1, false)
                    } else {
                        None
                    }
                },
            }
        }
    }
}

/// Index (just after the colon) of the value of the first member named
/// `key` in the object whose members start at `i`, or `None` when no such
/// member exists or the members are not well formed. Keys are compared on
/// their raw bytes.
pub open spec fn sp_field(s: Seq<u8>, i: int, first: bool, key: Seq<u8>) -> Option<int>
    decreases s.len() - i,
{
    let j = sp_ws(s, i);
    if !(i <= j && j < s.len()) {
        None
    } else if first && s[j] == 125 {  // '}'
        None
    } else if s[j] != 34 {
        None
    } else {
        match sp_str_end(s, j + 1) {
            None => None,
            Some(k) => if !(j + 1 < k && k <= s.len()) {
                None
            } else {
                let c = sp_ws(s, k);
                if !(k <= c && c < s.len() && s[c] == 58) {  // ':'
                    None
                } else if s.subrange(j + 1, k - 1) == key {
                    Some(c + 1)
                } else {
                    match sp_val_end(s, c + 1) {
                        None => None,
                        Some(m) => if !(c + 1 < m && m <= s.len()) {
                            None
                        } else {
                            let e = sp_ws(s, m);
                            if !(m <= e && e < s.len()) {
                                None
                            } else if s[e] == 44 {  // ','
                                sp_field(s, e + 1, false, key)
                            } else {
                                None
                            }
                        },
                    }
                }
            },
        }
    }
}

/// Value of one hexadecimal digit byte.
pub open spec fn sp_hex_digit(b: u8) -> Option<u32> {
    if 48 <= b && b <= 57 {
        Some((b - 48) as u32)
    } else if 97 <= b && b <= 102 {
        Some((b - 87) as u32)
    } else if 65 <= b && b <= 70 {
        Some((b - 55) as u32)
    } else {
        None
    }
}

/// Value of the four hexadecimal digits at `i`.
pub open spec fn sp_hex4(s: Seq<u8>, i: int) -> Option<u32> {
    if !(0 <= i && i + 4 <= s.len()) {
        None
    } else {
        match (sp_hex_digit(s[i]), sp_hex_digit(s[i + 1]), sp_hex_digit(s[i + 2]), sp_hex_digit(
            s[i + 3],
        )) {
            (Some(a), Some(b), Some(c), Some(d)) => Some(
                (a * 4096 + b * 256 + c * 16 + d) as u32,
            ),
            _ => None,
        }
    }
}

/// UTF-8 encoding of the scalar value `cp` (callers keep `cp` a scalar).
pub open spec fn sp_enc(cp: u32) -> Seq<u8> {
    if cp < 0x80 {
        seq![cp as u8]
    } else if cp < 0x800 {
        seq![(0xC0 + cp / 64) as u8, (0x80 + cp % 64) as u8]
    } else if cp < 0x10000 {
        seq![
            (0xE0 + cp / 4096) as u8,
            (0x80 + (cp / 64) % 64) as u8,
            (0x80 + cp % 64) as u8,
        ]
    } else {
        seq![
            (0xF0 + cp / 262144) as u8,
            (0x80 + (cp / 4096) % 64) as u8,
            (0x80 + (cp / 64) % 64) as u8,
            (0x80 + cp % 64) as u8,
        ]
    }
}

/// Bytes denoted by the raw string content `s[i..end)`, with the standard
/// escapes decoded; `\uXXXX` escapes yield the UTF-8 bytes of the scalar,
/// surrogate halves must come as a well-formed pair. `None` when an escape
/// is malformed.
pub open spec fn sp_unesc(s: Seq<u8>, i: int, end: int) -> Option<Seq<u8>>
    decreases end - i,
{
    if !(0 <= i && end <= s.len()) {
        None
    } else if i >= end {
        Some(Seq::empty())
    } else if s[i] != 92 {  // not a backslash
        match sp_unesc(s, i + 1, end) {
            None => None,
            Some(t) => Some(seq![s[i]] + t),
        }
    } else if i + 1 >= end {
        None
    } else {
        let e = s[i + 1];
        if e == 34 || e == 92 || e == 47 {  // quote, backslash, slash
            match sp_unesc(s, i + 2, end) {
                None => None,
                Some(t) => Some(seq![e] + t),
            }
        } else if e == 98 || e == 102 || e == 110 || e == 114 || e == 116 {  // b f n r t
            let d: u8 = if e == 98 {
                8
            } else if e == 102 {
                12
            } else if e == 110 {
                10
            } else if e == 114 {
                13
            } else {
                9
            };
            match sp_unesc(s, i + 2, end) {
                None => None,
                Some(t) => Some(seq![d] + t),
            }
        } else if e == 117 {  // u
            match sp_hex4(s, i + 2) {
                None => None,
                Some(cp) => if !(i + 6 <= end) {
                    None
                } else if 0xD800 <= cp && cp < 0xDC00 {
                    // high surrogate: a low surrogate escape must follow
                    if !(i + 12 <= end && s[i + 6] == 92 && s[i + 7] == 117) {
                        None
                    } else {
                        match sp_hex4(s, i + 8) {
                            None => None,
                            Some(lo) => if !(0xDC00 <= lo && lo < 0xE000) {
                                None
                            } else {
                                let cp2 = (0x10000 + (cp - 0xD800) * 1024 + (lo - 0xDC00)) as u32;
                                match sp_unesc(s, i + 12, end) {
                                    None => None,
                                    Some(t) => Some(sp_enc(cp2) + t),
                                }
                            },
                        }
                    }
                } else if 0xDC00 <= cp && cp < 0xE000 {
                    None  // lone low surrogate
                } else {
                    match sp_unesc(s, i + 6, end) {
                        None => None,
                        Some(t) => Some(sp_enc(cp) + t),
                    }
                },
            }
        } else {
            None
        }
    }
}

/// Decoded content of the string value that starts (after whitespace) at
/// `v`, which is an index just past a member's colon.
pub open spec fn sp_string_value(s: Seq<u8>, v: int) -> Option<Seq<u8>> {
    let j = sp_ws(s, v);
    if !(v <= j && j < s.len() && s[j] == 34) {
        None
    } else {
        match sp_str_end(s, j + 1) {
            None => None,
            Some(k) => if j + 1 < k && k <= s.len() {
                sp_unesc(s, j + 1, k - 1)
            } else {
                None
            },
        }
    }
}

/// Decoded content of the string member `key` of the object whose members
/// start at `i`.
pub open spec fn sp_string_field(s: Seq<u8>, i: int, key: Seq<u8>) -> Option<Seq<u8>> {
    match sp_field(s, i, true, key) {
        None => None,
        Some(v) => sp_string_value(s, v),
    }
}

/// Index just after the `{` of the object-valued member `key` of the
/// object whose members start at `i`.
pub open spec fn sp_obj_field(s: Seq<u8>, i: int, key: Seq<u8>) -> Option<int> {
    match sp_field(s, i, true, key) {
        None => None,
        Some(v) => {
            let j = sp_ws(s, v);
            if v <= j && j < s.len() && s[j] == 123 {
                Some(j + 1)
            } else {
                None
            }
        },
    }
}

/// First non-whitespace index at or after `i`.
pub fn ws_end(s: &[u8], i: usize) -> (j: usize)
    requires
        i <= s@.len(),
    ensures
        i <= j <= s@.len(),
        j == sp_ws(s@, i as int),
    decreases s@.len() - i,
{
    if i < s.len() {
        let b = s[i];
        if b == 32 || b == 9 || b == 13 || b == 10 {
            return ws_end(s, i + 1);
        }
    }
    i
}

/// Index just past a maximal run of number bytes starting at `i`.
pub fn num_end(s: &[u8], i: usize) -> (j: usize)
    requires
        i <= s@.len(),
    ensures
        i <= j <= s@.len(),
        j == sp_num_end(s@, i as int),
    decreases s@.len() - i,
{
    if i < s.len() {
        let b = s[i];
        if (48 <= b && b <= 57) || b == 45 || b == 43 || b == 46 || b == 101 || b == 69 {
            return num_end(s, i + 1);
        }
    }
    i
}

/// Index just past the closing quote of the string content starting at `i`.
pub fn str_end(s: &[u8], i: usize) -> (r: Option<usize>)
    requires
        i <= s@.len(),
    ensures
        match r {
            Some(j) => sp_str_end(s@, i as int) == Some(j as int) && i < j <= s@.len(),
            None => sp_str_end(s@, i as int) is None,
        },
    decreases s@.len() - i,
{
    if i >= s.len() {
        return None;
    }
    let b = s[i];
    if b == 34 {
        Some(i + 1)
    } else if b == 92 {
        if i + 1 < s.len() {
            str_end(s, i + 2)
        } else {
            None
        }
    } else {
        str_end(s, i + 1)
    }
}

/// Index just past the value starting (after whitespace) at `i`.
pub fn val_end(s: &[u8], i: usize) -> (r: Option<usize>)
    requires
        i <= s@.len(),
    ensures
        match r {
            Some(j) => sp_val_end(s@, i as int) == Some(j as int) && i < j <= s@.len(),
            None => sp_val_end(s@, i as int) is None,
        },
    decreases s@.len() - i, 1int,
{
    let j = ws_end(s, i);
    if j >= s.len() {
        return None;
    }
    let b = s[j];
    if b == 123 {
        obj_rest(s, j + 1, true)
    } else if b == 91 {
        arr_rest(s, j + 1, true)
    } else if b == 34 {
        str_end(s, j + 1)
    } else if b == 116 {
        if s.len() - j > 3 && s[j + 1] == 114 && s[j + 2] == 117 && s[j + 3] == 101 {
            Some(j + 4)
        } else {
            None
        }
    } else if b == 102 {
        if s.len() - j > 4 && s[j + 1] == 97 && s[j + 2] == 108 && s[j + 3] == 115 && s[j + 4]
            == 101 {
            Some(j + 5)
        } else {
            None
        }
    } else if b == 110 {
        if s.len() - j > 3 && s[j + 1] == 117 && s[j + 2] == 108 && s[j + 3] == 108 {
            Some(j + 4)
        } else {
            None
        }
    } else if (48 <= b && b <= 57) || b == 45 || b == 43 || b == 46 || b == 101 || b == 69 {
        let m = num_end(s, j + 1);
        proof {
            assert(sp_num_end(s@, j as int) == sp_num_end(s@, j as int + 1));
        }
        Some(m)
    } else {
        None
    }
}

/// Index just past the remaining members of an object (see `sp_obj_rest`).
pub fn obj_rest(s: &[u8], i: usize, first: bool) -> (r: Option<usize>)
    requires
        i <= s@.len(),
    ensures
        match r {
            Some(j) => sp_obj_rest(s@, i as int, first) == Some(j as int) && i < j <= s@.len(),
            None => sp_obj_rest(s@, i as int, first) is None,
        },
    decreases s@.len() - i, 2int,
{
    let j = ws_end(s, i);
    if j >= s.len() {
        return None;
    }
    if first && s[j] == 125 {
        return Some(j + 1);
    }
    if s[j] != 34 {
        return None;
    }
    let k = match str_end(s, j + 1) {
        Some(k) => k,
        None => { return None; },
    };
    let c = ws_end(s, k);
    if c >= s.len() || s[c] != 58 {
        return None;
    }
    let m = match val_end(s, c + 1) {
        Some(m) => m,
        None => { return None; },
    };
    let e = ws_end(s, m);
    if e >= s.len() {
        return None;
    }
    let b = s[e];
    if b == 125 {
        Some(e + 1)
    } else if b == 44 {
        obj_rest(s, e + 1, false)
    } else {
        None
    }
}

/// Compares `s[a..b)` with `pat`.
pub fn bytes_eq_range(s: &[u8], a: usize, b: usize, pat: &[u8]) -> (r: bool)
    requires
        a <= b <= s@.len(),
    ensures
        r == (s@.subrange(a as int, b as int) == pat@),
{
    if b - a != pat.len() {
        proof {
            assert(s@.subrange(a as int, b as int).len() != pat@.len());
        }
        return false;
    }
    let n = b - a;
    let mut q: usize = 0;
    while q < n
        invariant
            n == b - a,
            a <= b <= s@.len(),
            n == pat@.len(),
            q <= n,
            forall|t: int| 0 <= t < q ==> s@[a + t] == pat@[t],
        decreases n - q,
    {
        if s[a + q] != pat[q] {
            proof {
                assert(s@.subrange(a as int, b as int)[q as int] != pat@[q as int]);
            }
            return false;
        }
        q += 1;
    }
    proof {
        assert(s@.subrange(a as int, b as int) =~= pat@);
    }
    true
}

/// Finds the member named `key` (see `sp_field`).
pub fn find_field(s: &[u8], i: usize, first: bool, key: &[u8]) -> (r: Option<usize>)
    requires
        i <= s@.len(),
    ensures
        match r {
            Some(v) => sp_field(s@, i as int, first, key@) == Some(v as int) && i < v <= s@.len(),
            None => sp_field(s@, i as int, first, key@) is None,
        },
    decreases s@.len() - i,
{
    let j = ws_end(s, i);
    if j >= s.len() {
        return None;
    }
    if first && s[j] == 125 {
        return None;
    }
    if s[j] != 34 {
        return None;
    }
    let k = match str_end(s, j + 1) {
        Some(k) => k,
        None => { return None; },
    };
    let c = ws_end(s, k);
    if c >= s.len() || s[c] != 58 {
        return None;
    }
    if bytes_eq_range(s, j + 1, k - 1, key) {
        return Some(c + 1);
    }
    let m = match val_end(s, c + 1) {
        Some(m) => m,
        None => { return None; },
    };
    let e = ws_end(s, m);
    if e >= s.len() {
        return None;
    }
    if s[e] == 44 {
        find_field(s, e + 1, false, key)
    } else {
        None
    }
}

/// Value of one hexadecimal digit byte.
pub fn hex_digit(b: u8) -> (r: Option<u32>)
    ensures
        r == sp_hex_digit(b),
{
    if 48 <= b && b <= 57 {
        Some((b - 48) as u32)
    } else if 97 <= b && b <= 102 {
        Some((b - 87) as u32)
    } else if 65 <= b && b <= 70 {
        Some((b - 55) as u32)
    } else {
        None
    }
}

/// Value of the four hexadecimal digits at `i`.
pub fn hex4(s: &[u8], i: usize) -> (r: Option<u32>)
    requires
        i + 4 <= s@.len(),
    ensures
        r == sp_hex4(s@, i as int),
{
    let a = match hex_digit(s[i]) {
        Some(a) => a,
        None => { return None; },
    };
    let b = match hex_digit(s[i + 1]) {
        Some(b) => b,
        None => { return None; },
    };
    let c = match hex_digit(s[i + 2]) {
        Some(c) => c,
        None => { return None; },
    };
    let d = match hex_digit(s[i + 3]) {
        Some(d) => d,
        None => { return None; },
    };
    Some(a * 4096 + b * 256 + c * 16 + d)
}

/// Appends the UTF-8 encoding of `cp` to `out`.
pub fn enc_push(cp: u32, out: &mut Vec<u8>)
    requires
        cp < 0x110000,
    ensures
        final(out)@ == old(out)@ + sp_enc(cp),
{
    if cp < 0x80 {
        out.push(cp as u8);
    } else if cp < 0x800 {
        out.push((0xC0 + cp / 64) as u8);
        out.push((0x80 + cp % 64) as u8);
    } else if cp < 0x10000 {
        out.push((0xE0 + cp / 4096) as u8);
        out.push((0x80 + (cp / 64) % 64) as u8);
        out.push((0x80 + cp % 64) as u8);
    } else {
        out.push((0xF0 + cp / 262144) as u8);
        out.push((0x80 + (cp / 4096) % 64) as u8);
        out.push((0x80 + (cp / 64) % 64) as u8);
        out.push((0x80 + cp % 64) as u8);
    }
    proof {
        assert(final(out)@ =~= old(out)@ + sp_enc(cp));
    }
}

/// Appends the decoded bytes of the raw string content `s[i..end)` to
/// `out`; returns whether decoding succeeded (see `sp_unesc`).
#[verifier::rlimit(30)]
pub fn unesc_into(s: &[u8], i: usize, end: usize, out: &mut Vec<u8>) -> (ok: bool)
    requires
        i <= end <= s@.len(),
    ensures
        match sp_unesc(s@, i as int, end as int) {
            Some(t) => ok && final(out)@ == old(out)@ + t,
            None => !ok,
        },
    decreases end - i,
{
    if i >= end {
        proof {
            assert(final(out)@ =~= old(out)@ + Seq::<u8>::empty());
        }
        return true;
    }
    let b = s[i];
    if b != 92 {
        out.push(b);
        let ok = unesc_into(s, i + 1, end, out);
        proof {
            if ok {
                let t = sp_unesc(s@, i as int + 1, end as int)->0;
                assert(old(out)@ + (seq![b] + t) =~= (old(out)@.push(b)) + t);
            }
        }
        return ok;
    }
    if i + 1 >= end {
        return false;
    }
    let e = s[i + 1];
    if e == 34 || e == 92 || e == 47 {
        out.push(e);
        let ok = unesc_into(s, i + 2, end, out);
        proof {
            if ok {
                let t = sp_unesc(s@, i as int + 2, end as int)->0;
                assert(old(out)@ + (seq![e] + t) =~= (old(out)@.push(e)) + t);
            }
        }
        ok
    } else if e == 98 || e == 102 || e == 110 || e == 114 || e == 116 {
        let d: u8 = if e == 98 {
            8
        } else if e == 102 {
            12
        } else if e == 110 {
            10
        } else if e == 114 {
            13
        } else {
            9
        };
        out.push(d);
        let ok = unesc_into(s, i + 2, end, out);
        proof {
            if ok {
                let t = sp_unesc(s@, i as int + 2, end as int)->0;
                assert(old(out)@ + (seq![d] + t) =~= (old(out)@.push(d)) + t);
            }
        }
        ok
    } else if e == 117 {
        if s.len() - i < 6 {
            // the four digits would run past the input, so `sp_hex4` is `None`
            return false;
        }
        let cp = match hex4(s, i + 2) {
            Some(cp) => cp,
            None => { return false; },
        };
        if end - i < 6 {
            return false;
        }
        if 0xD800 <= cp && cp < 0xDC00 {
            if end - i < 12 || s[i + 6] != 92 || s[i + 7] != 117 {
                return false;
            }
            let lo = match hex4(s, i + 8) {
                Some(lo) => lo,
                None => { return false; },
            };
            if !(0xDC00 <= lo && lo < 0xE000) {
                return false;
            }
            let cp2 = 0x10000 + (cp - 0xD800) * 1024 + (lo - 0xDC00);
            let ghost prior = out@;
            enc_push(cp2, out);
            let ok = unesc_into(s, i + 12, end, out);
            proof {
                if ok {
                    let t = sp_unesc(s@, i as int + 12, end as int)->0;
                    assert(prior + (sp_enc(cp2) + t) =~= (prior + sp_enc(cp2)) + t);
                }
            }
            ok
        } else if 0xDC00 <= cp && cp < 0xE000 {
            false
        } else {
            let ghost prior = out@;
            enc_push(cp, out);
            let ok = unesc_into(s, i + 6, end, out);
            proof {
                if ok {
                    let t = sp_unesc(s@, i as int + 6, end as int)->0;
                    assert(prior + (sp_enc(cp) + t) =~= (prior + sp_enc(cp)) + t);
                }
            }
            ok
        }
    } else {
        false
    }
}

/// Decoded content of the string value at `v` (see `sp_string_value`).
pub fn string_value(s: &[u8], v: usize) -> (r: Option<Vec<u8>>)
    requires
        v <= s@.len(),
    ensures
        match r {
            Some(t) => sp_string_value(s@, v as int) == Some(t@),
            None => sp_string_value(s@, v as int) is None,
        },
{
    let j = ws_end(s, v);
    if j >= s.len() || s[j] != 34 {
        return None;
    }
    let k = match str_end(s, j + 1) {
        Some(k) => k,
        None => { return None; },
    };
    let mut out: Vec<u8> = Vec::new();
    if unesc_into(s, j + 1, k - 1, &mut out) {
        Some(out)
    } else {
        None
    }
}

/// Decoded content of the string member `key` (see `sp_string_field`).
pub fn string_field(s: &[u8], i: usize, key: &[u8]) -> (r: Option<Vec<u8>>)
    requires
        i <= s@.len(),
    ensures
        match r {
            Some(t) => sp_string_field(s@, i as int, key@) == Some(t@),
            None => sp_string_field(s@, i as int, key@) is None,
        },
{
    let v = match find_field(s, i, true, key) {
        Some(v) => v,
        None => { return None; },
    };
    string_value(s, v)
}

/// Start of the members of the object-valued member `key` (see
/// `sp_obj_field`).
pub fn obj_field(s: &[u8], i: usize, key: &[u8]) -> (r: Option<usize>)
    requires
        i <= s@.len(),
    ensures
        match r {
            Some(d) => sp_obj_field(s@, i as int, key@) == Some(d as int) && d <= s@.len(),
            None => sp_obj_field(s@, i as int, key@) is None,
        },
{
    let v = match find_field(s, i, true, key) {
        Some(v) => v,
        None => { return None; },
    };
    let j = ws_end(s, v);
    if j < s.len() && s[j] == 123 {
        Some(j + 1)
    } else {
        None
    }
}

/// Index just past the remaining elements of an array (see `sp_arr_rest`).
pub fn arr_rest(s: &[u8], i: usize, first: bool) -> (r: Option<usize>)
    requires
        i <= s@.len(),
    ensures
        match r {
            Some(j) => sp_arr_rest(s@, i as int, first) == Some(j as int) && i < j <= s@.len(),
            None => sp_arr_rest(s@, i as int, first) is None,
        },
    decreases s@.len() - i, 2int,
{
    let j = ws_end(s, i);
    if j >= s.len() {
        return None;
    }
    if first && s[j] == 93 {
        return Some(j + 1);
    }
    let m = match val_end(s, j) {
        Some(m) => m,
        None => { return None; },
    };
    let e = ws_end(s, m);
    if e >= s.len() {
        return None;
    }
    let b = s[e];
    if b == 93 {
        Some(e + 1)
    } else if b == 44 {
        arr_rest(s, e + 1, false)
    } else {
        None
    }
}

/// The event a frame payload denotes. A payload that is not one whole
/// well-formed object (up to trailing whitespace), or whose relevant
/// members are missing or undecodable, denotes `Skip`: the parser ignores
/// such a frame and goes on, it never fails on one.
#[verifier::opaque]
pub open spec fn sp_event(p: Seq<u8>) -> EventModel {
    match sp_val_end(p, 0) {
        None => EventModel::Skip,
        Some(e) => if sp_ws(p, e) != p.len() {
            EventModel::Skip
        } else {
            let j = sp_ws(p, 0);
            if !(0 <= j && j < p.len() && p[j] == 123) {
                EventModel::Skip
            } else {
                match sp_string_field(p, j + 1, key_type()) {
                    None => EventModel::Skip,
                    Some(tb) => if tb == val_content_block_delta() {
                        match sp_obj_field(p, j + 1, key_delta()) {
                            None => EventModel::Skip,
                            Some(d) => if sp_string_field(p, d, key_type()) != Some(
                                val_text_delta(),
                            ) {
                                EventModel::Skip
                            } else {
                                match sp_string_field(p, d, key_text()) {
                                    None => EventModel::Skip,
                                    Some(tx) => if valid_utf8(tx) {
                                        EventModel::Delta(decode_utf8(tx))
                                    } else {
                                        EventModel::Skip
                                    },
                                }
                            },
                        }
                    } else if tb == val_message_stop() {
                        EventModel::Stop
                    } else if tb == key_error() {
                        match sp_obj_field(p, j + 1, key_error()) {
                            None => EventModel::Skip,
                            Some(d) => match sp_string_field(p, d, key_message()) {
                                None => EventModel::Skip,
                                Some(m) => if valid_utf8(m) {
                                    EventModel::Fail(decode_utf8(m))
                                } else {
                                    EventModel::Skip
                                },
                            },
                        }
                    } else {
                        EventModel::Skip
                    },
                }
            }
        },
    }
}

/// The generated text of a whole (non-streaming) response document: the
/// `text` of the first block under `content`. `None` when the document is
/// not one well-formed object, or no first block with a decodable `text`
/// exists.
#[verifier::opaque]
pub open spec fn sp_reply_text(p: Seq<u8>) -> Option<Seq<char>> {
    match sp_val_end(p, 0) {
        None => None,
        Some(e) => if sp_ws(p, e) != p.len() {
            None
        } else {
            let j = sp_ws(p, 0);
            if !(0 <= j && j < p.len() && p[j] == 123) {
                None
            } else {
                match sp_field(p, j + 1, true, key_content()) {
                    None => None,
                    Some(v) => {
                        let a = sp_ws(p, v);
                        if !(v <= a && a < p.len() && p[a] == 91) {  // '['
                            None
                        } else {
                            let b = sp_ws(p, a + 1);
                            if !(a < b && b < p.len() && p[b] == 123) {  // '{'
                                None
                            } else {
                                match sp_string_field(p, b + 1, key_text()) {
                                    None => None,
                                    Some(t) => if valid_utf8(t) {
                                        Some(decode_utf8(t))
                                    } else {
                                        None
                                    },
                                }
                            }
                        }
                    },
                }
            }
        },
    }
}

/// Compares two whole byte slices.
pub fn bytes_eq(a: &[u8], b: &[u8]) -> (r: bool)
    ensures
        r == (a@ == b@),
{
    proof {
        assert(a@.subrange(0, a@.len() as int) =~= a@);
    }
    bytes_eq_range(a, 0, a.len(), b)
}

/// The member name `type` as a value.
fn key_type_vec() -> (v: Vec<u8>)
    ensures
        v@ == key_type(),
{
    let mut v: Vec<u8> = Vec::new();
    v.push(116);
    v.push(121);
    v.push(112);
    v.push(101);
    proof {
        assert(v@ =~= key_type());
    }
    v
}

/// The member name `delta` as a value.
fn key_delta_vec() -> (v: Vec<u8>)
    ensures
        v@ == key_delta(),
{
    let mut v: Vec<u8> = Vec::new();
    v.push(100);
    v.push(101);
    v.push(108);
    v.push(116);
    v.push(97);
    proof {
        assert(v@ =~= key_delta());
    }
    v
}

/// The member name `text` as a value.
fn key_text_vec() -> (v: Vec<u8>)
    ensures
        v@ == key_text(),
{
    let mut v: Vec<u8> = Vec::new();
    v.push(116);
    v.push(101);
    v.push(120);
    v.push(116);
    proof {
        assert(v@ =~= key_text());
    }
    v
}

/// The member name `error` as a value.
fn key_error_vec() -> (v: Vec<u8>)
    ensures
        v@ == key_error(),
{
    let mut v: Vec<u8> = Vec::new();
    v.push(101);
    v.push(114);
    v.push(114);
    v.push(111);
    v.push(114);
    proof {
        assert(v@ =~= key_error());
    }
    v
}

/// The member name `message` as a value.
fn key_message_vec() -> (v: Vec<u8>)
    ensures
        v@ == key_message(),
{
    let mut v: Vec<u8> = Vec::new();
    v.push(109);
    v.push(101);
    v.push(115);
    v.push(115);
    v.push(97);
    v.push(103);
    v.push(101);
    proof {
        assert(v@ =~= key_message());
    }
    v
}

/// The discriminant `content_block_delta` as a value.
fn val_content_block_delta_vec() -> (v: Vec<u8>)
    ensures
        v@ == val_content_block_delta(),
{
    let mut v: Vec<u8> = Vec::new();
    v.push(99);
    v.push(111);
    v.push(110);
    v.push(116);
    v.push(101);
    v.push(110);
    v.push(116);
    v.push(95);
    v.push(98);
    v.push(108);
    v.push(111);
    v.push(99);
    v.push(107);
    v.push(95);
    v.push(100);
    v.push(101);
    v.push(108);
    v.push(116);
    v.push(97);
    proof {
        assert(v@ =~= val_content_block_delta());
    }
    v
}

/// The discriminant `message_stop` as a value.
fn val_message_stop_vec() -> (v: Vec<u8>)
    ensures
        v@ == val_message_stop(),
{
    let mut v: Vec<u8> = Vec::new();
    v.push(109);
    v.push(101);
    v.push(115);
    v.push(115);
    v.push(97);
    v.push(103);
    v.push(101);
    v.push(95);
    v.push(115);
    v.push(116);
    v.push(111);
    v.push(112);
    proof {
        assert(v@ =~= val_message_stop());
    }
    v
}

/// The discriminant `text_delta` as a value.
fn val_text_delta_vec() -> (v: Vec<u8>)
    ensures
        v@ == val_text_delta(),
{
    let mut v: Vec<u8> = Vec::new();
    v.push(116);
    v.push(101);
    v.push(120);
    v.push(116);
    v.push(95);
    v.push(100);
    v.push(101);
    v.push(108);
    v.push(116);
    v.push(97);
    proof {
        assert(v@ =~= val_text_delta());
    }
    v
}

/// The member name `content` as a value.
fn key_content_vec() -> (v: Vec<u8>)
    ensures
        v@ == key_content(),
{
    let mut v: Vec<u8> = Vec::new();
    v.push(99);
    v.push(111);
    v.push(110);
    v.push(116);
    v.push(101);
    v.push(110);
    v.push(116);
    proof {
        assert(v@ =~= key_content());
    }
    v
}

/// Extracts the generated text of a whole response document (see
/// `sp_reply_text`).
pub fn extract_reply_text(p: &[u8]) -> (r: Option<String>)
    ensures
        match r {
            Some(t) => sp_reply_text(p@) == Some(t@),
            None => sp_reply_text(p@) is None,
        },
{
    proof {
        reveal(sp_reply_text);
    }
    let e = match val_end(p, 0) {
        Some(e) => e,
        None => { return None; },
    };
    if ws_end(p, e) != p.len() {
        return None;
    }
    let j = ws_end(p, 0);
    if j >= p.len() || p[j] != 123 {
        return None;
    }
    let v = match find_field(p, j + 1, true, key_content_vec().as_slice()) {
        Some(v) => v,
        None => { return None; },
    };
    let a = ws_end(p, v);
    if a >= p.len() || p[a] != 91 {
        return None;
    }
    let b = ws_end(p, a + 1);
    if b >= p.len() || p[b] != 123 {
        return None;
    }
    let t = match string_field(p, b + 1, key_text_vec().as_slice()) {
        Some(t) => t,
        None => { return None; },
    };
    string_from_utf8(t)
}

/// Classifies one frame payload (see `sp_event`).
pub fn classify_event(p: &[u8]) -> (ev: Event)
    ensures
        ev@ == sp_event(p@),
{
    proof {
        reveal(sp_event);
    }
    let e = match val_end(p, 0) {
        Some(e) => e,
        None => { return Event::Skip; },
    };
    if ws_end(p, e) != p.len() {
        return Event::Skip;
    }
    let j = ws_end(p, 0);
    if j >= p.len() || p[j] != 123 {
        return Event::Skip;
    }
    let ktype = key_type_vec();
    let tb = match string_field(p, j + 1, ktype.as_slice()) {
        Some(t) => t,
        None => { return Event::Skip; },
    };
    if bytes_eq(tb.as_slice(), val_content_block_delta_vec().as_slice()) {
        let d = match obj_field(p, j + 1, key_delta_vec().as_slice()) {
            Some(d) => d,
            None => { return Event::Skip; },
        };
        let dt = match string_field(p, d, ktype.as_slice()) {
            Some(t) => t,
            None => { return Event::Skip; },
        };
        if !bytes_eq(dt.as_slice(), val_text_delta_vec().as_slice()) {
            return Event::Skip;
        }
        let tx = match string_field(p, d, key_text_vec().as_slice()) {
            Some(t) => t,
            None => { return Event::Skip; },
        };
        match string_from_utf8(tx) {
            Some(s) => Event::Delta(s),
            None => Event::Skip,
        }
    } else if bytes_eq(tb.as_slice(), val_message_stop_vec().as_slice()) {
        Event::Stop
    } else if bytes_eq(tb.as_slice(), key_error_vec().as_slice()) {
        let d = match obj_field(p, j + 1, key_error_vec().as_slice()) {
            Some(d) => d,
            None => { return Event::Skip; },
        };
        let m = match string_field(p, d, key_message_vec().as_slice()) {
            Some(t) => t,
            None => { return Event::Skip; },
        };
        match string_from_utf8(m) {
            Some(s) => Event::Fail(s),
            None => Event::Skip,
        }
    } else {
        Event::Skip
    }
}

} // verus!

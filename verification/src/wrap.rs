//! Greedy text wrapping for the message bubbles.
//!
//! A text is wrapped paragraph by paragraph (paragraphs are separated by
//! line feeds): each paragraph's words — runs separated by blanks — are
//! packed greedily into lines of at most `max_width` characters, one
//! blank between words; a word longer than the width is split into
//! width-sized chunks. Widths count characters. An empty paragraph keeps
//! its empty line; a paragraph of blanks only vanishes; an empty text
//! yields one empty line.

use vstd::prelude::*;

use crate::app::is_blank;

verus! {

/// Index of the first non-blank character at or after `i`.
pub open spec fn sp_skip_blanks(s: Seq<char>, i: int) -> int
    decreases s.len() - i,
{
    if 0 <= i && i < s.len() && is_blank(s[i]) {
        sp_skip_blanks(s, i + 1)
    } else {
        i
    }
}

/// Index just past the word starting at `i`.
pub open spec fn sp_word_end(s: Seq<char>, i: int) -> int
    decreases s.len() - i,
{
    if 0 <= i && i < s.len() && !is_blank(s[i]) {
        sp_word_end(s, i + 1)
    } else {
        i
    }
}

/// The words of a paragraph from index `i` on.
pub open spec fn sp_words_from(s: Seq<char>, i: int) -> Seq<Seq<char>>
    decreases s.len() - i,
{
    let a = sp_skip_blanks(s, i);
    if !(i <= a && a < s.len()) {
        Seq::empty()
    } else {
        let b = sp_word_end(s, a);
        if !(a < b && b <= s.len()) {
            Seq::empty()
        } else {
            seq![s.subrange(a, b)] + sp_words_from(s, b)
        }
    }
}

/// One word as width-sized chunks: whole if it fits, else cut every `w`
/// characters.
pub open spec fn sp_chunks(word: Seq<char>, w: int) -> Seq<Seq<char>>
    decreases word.len(),
{
    if word.len() == 0 {
        Seq::empty()
    } else if word.len() <= w || w < 1 {
        seq![word]
    } else {
        seq![word.take(w)] + sp_chunks(word.skip(w), w)
    }
}

/// The words from index `i` on, each in width-sized chunks.
pub open spec fn sp_chunk_all_from(words: Seq<Seq<char>>, i: int, w: int) -> Seq<Seq<char>>
    decreases words.len() - i,
{
    if !(0 <= i && i < words.len()) {
        Seq::empty()
    } else {
        sp_chunks(words[i], w) + sp_chunk_all_from(words, i + 1, w)
    }
}

/// Index of the first word that no longer fits a line already `cur`
/// characters wide (a joining blank counted before each further word).
pub open spec fn sp_fill(words: Seq<Seq<char>>, i: int, cur: int, w: int) -> int
    decreases words.len() - i,
{
    if 0 <= i && i < words.len() && cur + 1 + words[i].len() <= w {
        sp_fill(words, i + 1, cur + 1 + words[i].len(), w)
    } else {
        i
    }
}

/// The words from `i` (inclusive) to `j` (exclusive), joined with single
/// blanks.
pub open spec fn sp_join(words: Seq<Seq<char>>, i: int, j: int) -> Seq<char>
    decreases j - i,
{
    if !(0 <= i && i < j && j <= words.len()) {
        Seq::empty()
    } else if i + 1 == j {
        words[i]
    } else {
        words[i] + seq![' '] + sp_join(words, i + 1, j)
    }
}

/// The lines of greedily packing the words from index `i` on: each line
/// opens with the next word, whatever its length, and takes every
/// following word that fits.
pub open spec fn sp_pack_from(words: Seq<Seq<char>>, i: int, w: int) -> Seq<Seq<char>>
    decreases words.len() - i,
{
    if !(0 <= i && i < words.len()) {
        Seq::empty()
    } else {
        let j = sp_fill(words, i + 1, words[i].len() as int, w);
        if i < j && j <= words.len() {
            seq![sp_join(words, i, j)] + sp_pack_from(words, j, w)
        } else {
            seq![sp_join(words, i, words.len() as int)]
        }
    }
}

/// Index of the first line feed at or after `i`.
pub open spec fn sp_nl_char(s: Seq<char>, i: int) -> Option<int>
    decreases s.len() - i,
{
    if !(0 <= i && i < s.len()) {
        None
    } else if s[i] == '\n' {
        Some(i)
    } else {
        sp_nl_char(s, i + 1)
    }
}

/// The paragraphs of a text: the segments between line feeds, the last
/// one included even when empty.
pub open spec fn sp_paras(s: Seq<char>) -> Seq<Seq<char>>
    decreases s.len(),
{
    match sp_nl_char(s, 0) {
        None => seq![s],
        Some(i) => if 0 <= i && i < s.len() {
            seq![s.take(i)] + sp_paras(s.skip(i + 1))
        } else {
            seq![s]
        },
    }
}

/// The wrapped lines of one paragraph, long words split into chunks.
pub open spec fn sp_para_lines(p: Seq<char>, w: int) -> Seq<Seq<char>> {
    if p.len() == 0 {
        seq![Seq::<char>::empty()]
    } else {
        sp_pack_from(sp_chunk_all_from(sp_words_from(p, 0), 0, w), 0, w)
    }
}

/// The wrapped lines of the paragraphs from index `i` on.
pub open spec fn sp_paras_lines(paras: Seq<Seq<char>>, i: int, w: int) -> Seq<Seq<char>>
    decreases paras.len() - i,
{
    if !(0 <= i && i < paras.len()) {
        Seq::empty()
    } else {
        sp_para_lines(paras[i], w) + sp_paras_lines(paras, i + 1, w)
    }
}

/// The wrapped lines of a whole text (see the module comment).
pub open spec fn sp_wrap(s: Seq<char>, w: int) -> Seq<Seq<char>> {
    let ls = sp_paras_lines(sp_paras(s), 0, w);
    if ls.len() == 0 {
        seq![Seq::<char>::empty()]
    } else {
        ls
    }
}

/// Index of the first non-blank character at or after `i`.
fn skip_blanks(s: &str, i: usize) -> (r: usize)
    requires
        i <= s@.len(),
    ensures
        r == sp_skip_blanks(s@, i as int),
        i <= r <= s@.len(),
    decreases s@.len() - i,
{
    if i < s.unicode_len() {
        let c = s.get_char(i);
        if c == ' ' || c == '\t' {
            return skip_blanks(s, i + 1);
        }
    }
    i
}

/// Index just past the word starting at `i`.
fn word_end(s: &str, i: usize) -> (r: usize)
    requires
        i <= s@.len(),
    ensures
        r == sp_word_end(s@, i as int),
        i <= r <= s@.len(),
    decreases s@.len() - i,
{
    if i < s.unicode_len() {
        let c = s.get_char(i);
        if !(c == ' ' || c == '\t') {
            return word_end(s, i + 1);
        }
    }
    i
}

/// Collects the words of `s` from index `i` on.
pub(crate) fn collect_words(s: &str, i: usize, out: &mut Vec<String>)
    requires
        i <= s@.len(),
    ensures
        final(out).deep_view() == old(out).deep_view() + sp_words_from(s@, i as int),
    decreases s@.len() - i,
{
    let a = skip_blanks(s, i);
    if a >= s.unicode_len() {
        proof {
            assert(old(out).deep_view() + sp_words_from(s@, i as int) =~= old(out).deep_view());
        }
        return ;
    }
    let b = word_end(s, a);
    if b <= a {
        proof {
            assert(old(out).deep_view() + sp_words_from(s@, i as int) =~= old(out).deep_view());
        }
        return ;
    }
    let word = s.substring_char(a, b).to_owned();
    out.push(word);
    proof {
        assert(out.deep_view() =~= old(out).deep_view() + seq![s@.subrange(a as int, b as int)]);
    }
    collect_words(s, b, out);
    proof {
        assert((old(out).deep_view() + seq![s@.subrange(a as int, b as int)]) + sp_words_from(
            s@,
            b as int,
        ) =~= old(out).deep_view() + (seq![s@.subrange(a as int, b as int)] + sp_words_from(
            s@,
            b as int,
        )));
    }
}

/// Appends the width-sized chunks of one word.
fn collect_chunks(word: &str, w: usize, out: &mut Vec<String>)
    requires
        w >= 1,
    ensures
        final(out).deep_view() == old(out).deep_view() + sp_chunks(word@, w as int),
    decreases word@.len(),
{
    let n = word.unicode_len();
    if n == 0 {
        proof {
            assert(old(out).deep_view() + sp_chunks(word@, w as int) =~= old(out).deep_view());
        }
        return ;
    }
    if n <= w {
        out.push(word.to_owned());
        proof {
            assert(out.deep_view() =~= old(out).deep_view() + seq![word@]);
        }
        return ;
    }
    let head = word.substring_char(0, w).to_owned();
    let rest = word.substring_char(w, n);
    out.push(head);
    proof {
        assert(out.deep_view() =~= old(out).deep_view() + seq![word@.take(w as int)]);
        assert(rest@ =~= word@.skip(w as int));
    }
    collect_chunks(rest, w, out);
    proof {
        assert((old(out).deep_view() + seq![word@.take(w as int)]) + sp_chunks(
            word@.skip(w as int),
            w as int,
        ) =~= old(out).deep_view() + (seq![word@.take(w as int)] + sp_chunks(
            word@.skip(w as int),
            w as int,
        )));
    }
}

/// Appends the chunked forms of the words from index `i` on.
fn chunk_words(words: &Vec<String>, i: usize, w: usize, out: &mut Vec<String>)
    requires
        w >= 1,
        i <= words@.len(),
    ensures
        final(out).deep_view() == old(out).deep_view() + sp_chunk_all_from(
            words.deep_view(),
            i as int,
            w as int,
        ),
    decreases words@.len() - i,
{
    if i >= words.len() {
        proof {
            assert(old(out).deep_view() + sp_chunk_all_from(words.deep_view(), i as int, w as int)
                =~= old(out).deep_view());
        }
        return ;
    }
    let ghost before = out.deep_view();
    collect_chunks(words[i].as_str(), w, out);
    proof {
        assert(words.deep_view()[i as int] == words@[i as int]@);
    }
    chunk_words(words, i + 1, w, out);
    proof {
        assert((before + sp_chunks(words.deep_view()[i as int], w as int)) + sp_chunk_all_from(
            words.deep_view(),
            i as int + 1,
            w as int,
        ) =~= before + (sp_chunks(words.deep_view()[i as int], w as int) + sp_chunk_all_from(
            words.deep_view(),
            i as int + 1,
            w as int,
        )));
    }
}

/// Index of the first word that no longer fits (see `sp_fill`).
fn fill(words: &Vec<String>, i: usize, cur: usize, w: usize) -> (r: usize)
    requires
        i <= words@.len(),
    ensures
        r == sp_fill(words.deep_view(), i as int, cur as int, w as int),
        i <= r <= words@.len(),
    decreases words@.len() - i,
{
    if i >= words.len() {
        return i;
    }
    proof {
        assert(words.deep_view()[i as int] == words@[i as int]@);
    }
    if cur >= w {
        return i;
    }
    let wl = words[i].as_str().unicode_len();
    if wl <= w - cur - 1 {
        fill(words, i + 1, cur + 1 + wl, w)
    } else {
        i
    }
}

/// The words from `i` to `j`, joined with single blanks (see `sp_join`).
fn join_range(words: &Vec<String>, i: usize, j: usize) -> (r: String)
    requires
        i < j <= words@.len(),
    ensures
        r@ == sp_join(words.deep_view(), i as int, j as int),
    decreases j - i,
{
    proof {
        assert(words.deep_view()[i as int] == words@[i as int]@);
    }
    let mut r = words[i].clone();
    if i + 1 == j {
        return r;
    }
    r.append(" ");
    let rest = join_range(words, i + 1, j);
    let out = r.concat(rest.as_str());
    proof {
        reveal_strlit(" ");
        assert(" "@ =~= seq![' ']);
        assert((words.deep_view()[i as int] + seq![' ']) + sp_join(
            words.deep_view(),
            i as int + 1,
            j as int,
        ) =~= words.deep_view()[i as int] + seq![' '] + sp_join(
            words.deep_view(),
            i as int + 1,
            j as int,
        ));
    }
    out
}

/// Packs the words from index `i` on into lines (see `sp_pack_from`).
pub(crate) fn pack_from(words: &Vec<String>, i: usize, w: usize, out: &mut Vec<String>)
    requires
        i <= words@.len(),
    ensures
        final(out).deep_view() == old(out).deep_view() + sp_pack_from(
            words.deep_view(),
            i as int,
            w as int,
        ),
    decreases words@.len() - i,
{
    if i >= words.len() {
        proof {
            assert(old(out).deep_view() + sp_pack_from(words.deep_view(), i as int, w as int)
                =~= old(out).deep_view());
        }
        return ;
    }
    proof {
        assert(words.deep_view()[i as int] == words@[i as int]@);
    }
    let cur = words[i].as_str().unicode_len();
    let j = fill(words, i + 1, cur, w);
    let ghost before = out.deep_view();
    if j <= words.len() && i < j {
        let line = join_range(words, i, j);
        out.push(line);
        proof {
            assert(out.deep_view() =~= before + seq![
                sp_join(words.deep_view(), i as int, j as int),
            ]);
        }
        pack_from(words, j, w, out);
        proof {
            assert((before + seq![sp_join(words.deep_view(), i as int, j as int)])
                + sp_pack_from(words.deep_view(), j as int, w as int) =~= before + (seq![
                sp_join(words.deep_view(), i as int, j as int),
            ] + sp_pack_from(words.deep_view(), j as int, w as int)));
        }
    } else {
        let line = join_range(words, i, words.len());
        out.push(line);
        proof {
            assert(out.deep_view() =~= before + seq![
                sp_join(words.deep_view(), i as int, words@.len() as int),
            ]);
        }
    }
}

/// Index of the first line feed at or after `i`.
fn nl_char_at(s: &str, i: usize) -> (r: Option<usize>)
    requires
        i <= s@.len(),
    ensures
        match r {
            Some(j) => sp_nl_char(s@, i as int) == Some(j as int) && i <= j < s@.len(),
            None => sp_nl_char(s@, i as int) is None,
        },
    decreases s@.len() - i,
{
    if i >= s.unicode_len() {
        None
    } else if s.get_char(i) == '\n' {
        Some(i)
    } else {
        nl_char_at(s, i + 1)
    }
}

/// Appends the wrapped lines of one paragraph (see `sp_para_lines`).
fn para_lines(p: &str, w: usize, out: &mut Vec<String>)
    requires
        w >= 1,
    ensures
        final(out).deep_view() == old(out).deep_view() + sp_para_lines(p@, w as int),
{
    if p.unicode_len() == 0 {
        out.push(String::new());
        proof {
            assert(out.deep_view() =~= old(out).deep_view() + seq![Seq::<char>::empty()]);
        }
        return ;
    }
    let mut words: Vec<String> = Vec::new();
    collect_words(p, 0, &mut words);
    let mut chunked: Vec<String> = Vec::new();
    chunk_words(&words, 0, w, &mut chunked);
    proof {
        assert(words.deep_view() =~= sp_words_from(p@, 0));
        assert(chunked.deep_view() =~= sp_chunk_all_from(sp_words_from(p@, 0), 0, w as int));
    }
    pack_from(&chunked, 0, w, out);
}

/// Appends the wrapped lines of the paragraphs of `s` from index `i` on.
fn wrap_paras(s: &str, i: usize, w: usize, out: &mut Vec<String>)
    requires
        w >= 1,
        i <= s@.len(),
    ensures
        final(out).deep_view() == old(out).deep_view() + sp_paras_lines(
            sp_paras(s@.skip(i as int)),
            0,
            w as int,
        ),
    decreases s@.len() - i,
{
    let n = s.unicode_len();
    let ghost rest = s@.skip(i as int);
    match nl_char_at(s, i) {
        None => {
            let p = s.substring_char(i, n);
            proof {
                assert(p@ =~= rest);
                assert(sp_nl_char(rest, 0) is None) by {
                    lemma_nl_shift(s@, i as int, i as int);
                }
                assert(sp_paras(rest) == seq![rest]);
            }
            let ghost before = out.deep_view();
            para_lines(p, w, out);
            proof {
                assert(sp_paras_lines(seq![rest], 1, w as int) == Seq::<Seq<char>>::empty());
                assert(sp_paras_lines(seq![rest], 0, w as int) =~= sp_para_lines(rest, w as int)
                    + Seq::<Seq<char>>::empty());
                assert(before + (sp_para_lines(rest, w as int) + Seq::<Seq<char>>::empty())
                    =~= before + sp_para_lines(rest, w as int));
            }
        },
        Some(j) => {
            let p = s.substring_char(i, j);
            proof {
                assert(p@ =~= rest.take(j - i));
                assert(sp_nl_char(rest, 0) == Some(j - i as int)) by {
                    lemma_nl_shift(s@, i as int, i as int);
                }
                assert(rest.skip(j - i + 1) =~= s@.skip(j as int + 1));
            }
            let ghost before = out.deep_view();
            para_lines(p, w, out);
            wrap_paras(s, j + 1, w, out);
            proof {
                let paras = sp_paras(rest);
                assert(paras == seq![rest.take(j - i)] + sp_paras(s@.skip(j as int + 1)));
                lemma_paras_lines_concat(
                    seq![rest.take(j - i)],
                    sp_paras(s@.skip(j as int + 1)),
                    w as int,
                );
                assert(sp_paras_lines(seq![rest.take(j - i)], 1, w as int) == Seq::<
                    Seq<char>,
                >::empty());
                assert(sp_paras_lines(seq![rest.take(j - i)], 0, w as int) =~= sp_para_lines(
                    rest.take(j - i),
                    w as int,
                ) + Seq::<Seq<char>>::empty());
                assert(sp_para_lines(rest.take(j - i), w as int) + Seq::<Seq<char>>::empty()
                    =~= sp_para_lines(rest.take(j - i), w as int));
                assert((before + sp_para_lines(rest.take(j - i), w as int)) + sp_paras_lines(
                    sp_paras(s@.skip(j as int + 1)),
                    0,
                    w as int,
                ) =~= before + (sp_para_lines(rest.take(j - i), w as int) + sp_paras_lines(
                    sp_paras(s@.skip(j as int + 1)),
                    0,
                    w as int,
                )));
            }
        },
    }
}

/// Scanning for a line feed in a suffix mirrors scanning the whole.
pub(crate) proof fn lemma_nl_shift(s: Seq<char>, base: int, i: int)
    requires
        0 <= base <= i <= s.len(),
    ensures
        sp_nl_char(s.skip(base), i - base) == match sp_nl_char(s, i) {
            None => None::<int>,
            Some(j) => Some(j - base),
        },
    decreases s.len() - i,
{
    if i < s.len() {
        assert(s.skip(base)[i - base] == s[i]);
        if s[i] != '\n' {
            lemma_nl_shift(s, base, i + 1);
        }
    }
}

/// Paragraph wrapping distributes over concatenation of paragraph runs.
proof fn lemma_paras_lines_concat(a: Seq<Seq<char>>, b: Seq<Seq<char>>, w: int)
    ensures
        sp_paras_lines(a + b, 0, w) == sp_paras_lines(a, 0, w) + sp_paras_lines(b, 0, w),
{
    lemma_paras_lines_concat_from(a, b, 0, w);
}

/// Helper for `lemma_paras_lines_concat`: paragraphs past the end of the
/// first run are the second run's.
proof fn lemma_paras_lines_shift(a: Seq<Seq<char>>, b: Seq<Seq<char>>, k: int, w: int)
    requires
        0 <= k <= b.len(),
    ensures
        sp_paras_lines(a + b, a.len() + k, w) == sp_paras_lines(b, k, w),
    decreases b.len() - k,
{
    if k < b.len() {
        assert((a + b)[a.len() + k] == b[k]);
        lemma_paras_lines_shift(a, b, k + 1, w);
    }
}

/// Helper for `lemma_paras_lines_concat`, generalized over the index.
proof fn lemma_paras_lines_concat_from(a: Seq<Seq<char>>, b: Seq<Seq<char>>, i: int, w: int)
    requires
        0 <= i <= a.len(),
    ensures
        sp_paras_lines(a + b, i, w) == sp_paras_lines(a, i, w) + sp_paras_lines(b, 0, w),
    decreases a.len() - i,
{
    if i < a.len() {
        assert((a + b)[i] == a[i]);
        lemma_paras_lines_concat_from(a, b, i + 1, w);
        assert((sp_para_lines(a[i], w) + sp_paras_lines(a, i + 1, w)) + sp_paras_lines(b, 0, w)
            =~= sp_para_lines(a[i], w) + (sp_paras_lines(a, i + 1, w) + sp_paras_lines(
            b,
            0,
            w,
        )));
    } else {
        lemma_paras_lines_shift(a, b, 0, w);
        assert(Seq::<Seq<char>>::empty() + sp_paras_lines(b, 0, w) =~= sp_paras_lines(b, 0, w));
    }
}

/// Wraps `text` to lines of at most `max_width` characters (see
/// `sp_wrap` and the module comment).
pub fn wrap_text(text: &str, max_width: usize) -> (r: Vec<String>)
    requires
        max_width >= 1,
    ensures
        r.deep_view() == sp_wrap(text@, max_width as int),
{
    let mut out: Vec<String> = Vec::new();
    proof {
        assert(text@.skip(0) =~= text@);
        assert(Seq::<Seq<char>>::empty() + sp_paras_lines(sp_paras(text@), 0, max_width as int)
            =~= sp_paras_lines(sp_paras(text@), 0, max_width as int));
    }
    wrap_paras(text, 0, max_width, &mut out);
    if out.len() == 0 {
        out.push(String::new());
        proof {
            assert(out.deep_view() =~= seq![Seq::<char>::empty()]);
        }
    }
    out
}

} // verus!

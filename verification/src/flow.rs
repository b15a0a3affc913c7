//! Greedy text wrapping for the transcript pane.
//!
//! Like `wrap`, but a word longer than the width stands alone on its own
//! overlong line rather than being cut, a paragraph of blanks keeps an
//! empty line, and a width of zero returns the text untouched.

use vstd::prelude::*;

use crate::wrap::{
    collect_words, lemma_nl_shift, pack_from, sp_nl_char, sp_pack_from, sp_paras, sp_words_from,
};

verus! {

/// The wrapped lines of one paragraph: empty and blank paragraphs keep
/// one empty line, words are packed greedily and never cut.
pub open spec fn sp_flow_para_lines(p: Seq<char>, w: int) -> Seq<Seq<char>> {
    let words = sp_words_from(p, 0);
    if p.len() == 0 || words.len() == 0 {
        seq![Seq::<char>::empty()]
    } else {
        sp_pack_from(words, 0, w)
    }
}

/// The wrapped lines of the paragraphs from index `i` on.
pub open spec fn sp_flow_paras_lines(paras: Seq<Seq<char>>, i: int, w: int) -> Seq<Seq<char>>
    decreases paras.len() - i,
{
    if !(0 <= i && i < paras.len()) {
        Seq::empty()
    } else {
        sp_flow_para_lines(paras[i], w) + sp_flow_paras_lines(paras, i + 1, w)
    }
}

/// The wrapped lines of a whole text; a width of zero returns the text
/// as its one line.
pub open spec fn sp_wrap_flow(s: Seq<char>, w: int) -> Seq<Seq<char>> {
    if w == 0 {
        seq![s]
    } else {
        let ls = sp_flow_paras_lines(sp_paras(s), 0, w);
        if ls.len() == 0 {
            seq![Seq::<char>::empty()]
        } else {
            ls
        }
    }
}

/// Appends the wrapped lines of one paragraph (see
/// `sp_flow_para_lines`).
fn flow_para_lines(p: &str, w: usize, out: &mut Vec<String>)
    ensures
        final(out).deep_view() == old(out).deep_view() + sp_flow_para_lines(p@, w as int),
{
    let mut words: Vec<String> = Vec::new();
    collect_words(p, 0, &mut words);
    proof {
        assert(words.deep_view() =~= sp_words_from(p@, 0));
    }
    if p.unicode_len() == 0 || words.len() == 0 {
        out.push(String::new());
        proof {
            assert(out.deep_view() =~= old(out).deep_view() + seq![Seq::<char>::empty()]);
        }
        return ;
    }
    pack_from(&words, 0, w, out);
}

/// Index of the first line feed at or after `i`.
fn nl_char_at(s: &str, i: usize) -> (r: Option<usize>)
    requires
        i <= s@.len(),
    ensures
        match r {
            Some(j) => sp_nl_char(s@, i as int) == Some(j as int) && i <= j < s@.len(),
            None => sp_nl_char(s@, i as int) is None,
        },
    decreases s@.len() - i,
{
    if i >= s.unicode_len() {
        None
    } else if s.get_char(i) == '\n' {
        Some(i)
    } else {
        nl_char_at(s, i + 1)
    }
}

/// Appends the wrapped lines of the paragraphs of `s` from index `i` on.
fn flow_paras(s: &str, i: usize, w: usize, out: &mut Vec<String>)
    requires
        i <= s@.len(),
    ensures
        final(out).deep_view() == old(out).deep_view() + sp_flow_paras_lines(
            sp_paras(s@.skip(i as int)),
            0,
            w as int,
        ),
    decreases s@.len() - i,
{
    let n = s.unicode_len();
    let ghost rest = s@.skip(i as int);
    match nl_char_at(s, i) {
        None => {
            let p = s.substring_char(i, n);
            proof {
                assert(p@ =~= rest);
                assert(sp_nl_char(rest, 0) is None) by {
                    lemma_nl_shift(s@, i as int, i as int);
                }
                assert(sp_paras(rest) == seq![rest]);
            }
            let ghost before = out.deep_view();
            flow_para_lines(p, w, out);
            proof {
                assert(sp_flow_paras_lines(seq![rest], 1, w as int) == Seq::<Seq<char>>::empty());
                assert(sp_flow_paras_lines(seq![rest], 0, w as int) =~= sp_flow_para_lines(
                    rest,
                    w as int,
                ) + Seq::<Seq<char>>::empty());
                assert(before + (sp_flow_para_lines(rest, w as int) + Seq::<Seq<char>>::empty())
                    =~= before + sp_flow_para_lines(rest, w as int));
            }
        },
        Some(j) => {
            let p = s.substring_char(i, j);
            proof {
                assert(p@ =~= rest.take(j - i));
                assert(sp_nl_char(rest, 0) == Some(j - i as int)) by {
                    lemma_nl_shift(s@, i as int, i as int);
                }
                assert(rest.skip(j - i + 1) =~= s@.skip(j as int + 1));
            }
            let ghost before = out.deep_view();
            flow_para_lines(p, w, out);
            flow_paras(s, j + 1, w, out);
            proof {
                assert(sp_paras(rest) == seq![rest.take(j - i)] + sp_paras(s@.skip(j as int + 1)));
                lemma_flow_concat_from(
                    seq![rest.take(j - i)],
                    sp_paras(s@.skip(j as int + 1)),
                    0,
                    w as int,
                );
                assert(sp_flow_paras_lines(seq![rest.take(j - i)], 1, w as int) == Seq::<
                    Seq<char>,
                >::empty());
                assert(sp_flow_paras_lines(seq![rest.take(j - i)], 0, w as int)
                    =~= sp_flow_para_lines(rest.take(j - i), w as int) + Seq::<
                    Seq<char>,
                >::empty());
                assert(sp_flow_para_lines(rest.take(j - i), w as int) + Seq::<Seq<char>>::empty()
                    =~= sp_flow_para_lines(rest.take(j - i), w as int));
                assert((before + sp_flow_para_lines(rest.take(j - i), w as int))
                    + sp_flow_paras_lines(sp_paras(s@.skip(j as int + 1)), 0, w as int) =~= before
                    + (sp_flow_para_lines(rest.take(j - i), w as int) + sp_flow_paras_lines(
                    sp_paras(s@.skip(j as int + 1)),
                    0,
                    w as int,
                )));
            }
        },
    }
}

/// Lines past the end of the first paragraph run are the second run's.
proof fn lemma_flow_shift(a: Seq<Seq<char>>, b: Seq<Seq<char>>, k: int, w: int)
    requires
        0 <= k <= b.len(),
    ensures
        sp_flow_paras_lines(a + b, a.len() + k, w) == sp_flow_paras_lines(b, k, w),
    decreases b.len() - k,
{
    if k < b.len() {
        assert((a + b)[a.len() + k] == b[k]);
        lemma_flow_shift(a, b, k + 1, w);
    }
}

/// Paragraph wrapping distributes over concatenation of paragraph runs.
proof fn lemma_flow_concat_from(a: Seq<Seq<char>>, b: Seq<Seq<char>>, i: int, w: int)
    requires
        0 <= i <= a.len(),
    ensures
        sp_flow_paras_lines(a + b, i, w) == sp_flow_paras_lines(a, i, w) + sp_flow_paras_lines(
            b,
            0,
            w,
        ),
    decreases a.len() - i,
{
    if i < a.len() {
        assert((a + b)[i] == a[i]);
        lemma_flow_concat_from(a, b, i + 1, w);
        assert((sp_flow_para_lines(a[i], w) + sp_flow_paras_lines(a, i + 1, w))
            + sp_flow_paras_lines(b, 0, w) =~= sp_flow_para_lines(a[i], w) + (
        sp_flow_paras_lines(a, i + 1, w) + sp_flow_paras_lines(b, 0, w)));
    } else {
        lemma_flow_shift(a, b, 0, w);
        assert(Seq::<Seq<char>>::empty() + sp_flow_paras_lines(b, 0, w) =~= sp_flow_paras_lines(
            b,
            0,
            w,
        ));
    }
}

/// Wraps `text` to lines of at most `width` characters, keeping long
/// words whole (see `sp_wrap_flow` and the module comment).
pub fn wrap_text(text: &str, width: usize) -> (r: Vec<String>)
    ensures
        r.deep_view() == sp_wrap_flow(text@, width as int),
{
    let mut out: Vec<String> = Vec::new();
    if width == 0 {
        out.push(text.to_owned());
        proof {
            assert(out.deep_view() =~= seq![text@]);
        }
        return out;
    }
    proof {
        assert(text@.skip(0) =~= text@);
        assert(Seq::<Seq<char>>::empty() + sp_flow_paras_lines(
            sp_paras(text@),
            0,
            width as int,
        ) =~= sp_flow_paras_lines(sp_paras(text@), 0, width as int));
    }
    flow_paras(text, 0, width, &mut out);
    if out.len() == 0 {
        out.push(String::new());
        proof {
            assert(out.deep_view() =~= seq![Seq::<char>::empty()]);
        }
    }
    out
}

} // verus!

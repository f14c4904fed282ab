//! Requoting: every parsed word wrapped in single quotes parses back to the
//! same words.
//!
//! A word is requoted one character at a time: a character `c` other than a
//! single quote becomes `'c'`, a single quote becomes `\'`, and words are
//! separated by one space.
use vstd::prelude::*;

use crate::parser::{
    arg_scan, enclosing, enclosing_from, finish_arg, first_redirection, first_redirection_from,
    plain_step, quote_scan, quoted_step, spec_parse, spec_parse_args, spec_quote_positions,
    ArgScan, QuoteScan,
};
use crate::quote::{QuotePosition, QuoteType, BACK_SLASH, SINGLE_QUOTE};
use crate::redirection::{redirection_of, RedirectionType};
use crate::error::ShellError;

verus! {

/// One piece of a requoted line.
pub enum QuotedPiece {
    /// `'c'`
    Char(char),
    /// `\'`
    Quote,
    /// ` `
    Space,
}

pub open spec fn piece_text(p: QuotedPiece) -> Seq<char> {
    match p {
        QuotedPiece::Char(c) => seq![SINGLE_QUOTE, c, SINGLE_QUOTE],
        QuotedPiece::Quote => seq![BACK_SLASH, SINGLE_QUOTE],
        QuotedPiece::Space => seq![' '],
    }
}

pub open spec fn pieces_text(t: Seq<QuotedPiece>) -> Seq<char>
    decreases t.len(),
{
    if t.len() == 0 {
        Seq::empty()
    } else {
        piece_text(t[0]) + pieces_text(t.drop_first())
    }
}

/// The quote spans of the pieces `t` when they start at offset `o`.
pub open spec fn pieces_spans(t: Seq<QuotedPiece>, o: int) -> Seq<QuotePosition>
    decreases t.len(),
{
    if t.len() == 0 {
        Seq::empty()
    } else {
        let head = match t[0] {
            QuotedPiece::Char(_) => seq![QuotePosition::SingleQuote(o as usize, (o + 2) as usize)],
            _ => Seq::empty(),
        };
        head + pieces_spans(t.drop_first(), o + piece_text(t[0]).len())
    }
}

/// No piece quotes a backslash or a single quote directly.
pub open spec fn valid_pieces(t: Seq<QuotedPiece>) -> bool {
    forall|i: int|
        0 <= i < t.len() ==> match #[trigger] t[i] {
            QuotedPiece::Char(c) => c != BACK_SLASH && c != SINGLE_QUOTE,
            _ => true,
        }
}

/// What the pieces contribute to the argument being built.
pub open spec fn apply_pieces(t: Seq<QuotedPiece>, st: ArgScan) -> ArgScan
    decreases t.len(),
{
    if t.len() == 0 {
        st
    } else {
        let next = match t[0] {
            QuotedPiece::Char(c) => ArgScan { current: st.current.push(c), ..st },
            QuotedPiece::Quote => ArgScan { current: st.current.push(SINGLE_QUOTE), ..st },
            QuotedPiece::Space => finish_arg(st),
        };
        apply_pieces(t.drop_first(), next)
    }
}

pub open spec fn char_piece(c: char) -> QuotedPiece {
    if c == SINGLE_QUOTE {
        QuotedPiece::Quote
    } else {
        QuotedPiece::Char(c)
    }
}

pub open spec fn word_pieces(w: Seq<char>) -> Seq<QuotedPiece>
    decreases w.len(),
{
    if w.len() == 0 {
        Seq::empty()
    } else {
        word_pieces(w.drop_last()).push(char_piece(w.last()))
    }
}

pub open spec fn requote_pieces(ws: Seq<Seq<char>>) -> Seq<QuotedPiece>
    decreases ws.len(),
{
    if ws.len() == 0 {
        Seq::empty()
    } else if ws.len() == 1 {
        word_pieces(ws[0])
    } else {
        requote_pieces(ws.drop_last()).push(QuotedPiece::Space) + word_pieces(ws.last())
    }
}

/// The words `ws`, each in single quotes with `\'` for its single quotes,
/// separated by spaces.
pub open spec fn requote(ws: Seq<Seq<char>>) -> Seq<char> {
    pieces_text(requote_pieces(ws))
}

proof fn lemma_apply_concat(a: Seq<QuotedPiece>, b: Seq<QuotedPiece>, st: ArgScan)
    ensures
        apply_pieces(a + b, st) == apply_pieces(b, apply_pieces(a, st)),
    decreases a.len(),
{
    if a.len() > 0 {
        assert((a + b).drop_first() =~= a.drop_first() + b);
        assert((a + b)[0] == a[0]);
        let next = match a[0] {
            QuotedPiece::Char(c) => ArgScan { current: st.current.push(c), ..st },
            QuotedPiece::Quote => ArgScan { current: st.current.push(SINGLE_QUOTE), ..st },
            QuotedPiece::Space => finish_arg(st),
        };
        lemma_apply_concat(a.drop_first(), b, next);
    } else {
        assert(a + b =~= b);
    }
}

proof fn lemma_valid_concat(a: Seq<QuotedPiece>, b: Seq<QuotedPiece>)
    requires
        valid_pieces(a),
        valid_pieces(b),
    ensures
        valid_pieces(a + b),
{
    assert forall|i: int| 0 <= i < (a + b).len() implies match #[trigger] (a + b)[i] {
        QuotedPiece::Char(c) => c != BACK_SLASH && c != SINGLE_QUOTE,
        _ => true,
    } by {
        if i < a.len() {
            assert((a + b)[i] == a[i]);
        } else {
            assert((a + b)[i] == b[i - a.len()]);
        }
    }
}

proof fn lemma_word_pieces(w: Seq<char>, st: ArgScan)
    requires
        forall|i: int| 0 <= i < w.len() ==> #[trigger] w[i] != BACK_SLASH,
    ensures
        valid_pieces(word_pieces(w)),
        apply_pieces(word_pieces(w), st) == (ArgScan { current: st.current + w, ..st }),
    decreases w.len(),
{
    if w.len() == 0 {
        assert(st.current + w =~= st.current);
    } else {
        let init = w.drop_last();
        let p = char_piece(w.last());
        lemma_word_pieces(init, st);
        lemma_apply_concat(word_pieces(init), seq![p], st);
        assert(word_pieces(w) =~= word_pieces(init) + seq![p]);
        let mid = ArgScan { current: st.current + init, ..st };
        assert(seq![p].drop_first() =~= Seq::<QuotedPiece>::empty());
        assert(seq![p][0] == p);
        reveal_with_fuel(apply_pieces, 2);
        assert(apply_pieces(seq![p], mid) == ArgScan { current: mid.current.push(w.last()), ..mid });
        assert((st.current + init).push(w.last()) =~= st.current + w);
        lemma_valid_concat(word_pieces(init), seq![p]);
    }
}

proof fn lemma_requote_pieces(ws: Seq<Seq<char>>)
    requires
        ws.len() > 0,
        forall|k: int| 0 <= k < ws.len() ==> (#[trigger] ws[k]).len() > 0,
        forall|k: int, i: int| 0 <= k < ws.len() && 0 <= i < ws[k].len() ==> #[trigger] ws[k][i] != BACK_SLASH,
    ensures
        valid_pieces(requote_pieces(ws)),
        apply_pieces(
            requote_pieces(ws),
            ArgScan { escape: false, current: Seq::empty(), args: Seq::empty() },
        ) == (ArgScan { escape: false, current: ws.last(), args: ws.drop_last() }),
    decreases ws.len(),
{
    let init = ArgScan { escape: false, current: Seq::empty(), args: Seq::empty() };
    if ws.len() == 1 {
        assert(forall|i: int| 0 <= i < ws[0].len() ==> #[trigger] ws[0][i] != BACK_SLASH);
        lemma_word_pieces(ws[0], init);
        assert(Seq::<char>::empty() + ws[0] =~= ws[0]);
        assert(ws.drop_last() =~= Seq::<Seq<char>>::empty());
    } else {
        let front = ws.drop_last();
        let w = ws.last();
        assert(forall|i: int| 0 <= i < w.len() ==> #[trigger] w[i] != BACK_SLASH) by {
            assert(w == ws[ws.len() - 1]);
        }
        assert forall|k: int| 0 <= k < front.len() implies (#[trigger] front[k]).len() > 0 by {
            assert(front[k] == ws[k]);
        }
        assert forall|k: int, i: int| 0 <= k < front.len() && 0 <= i < front[k].len() implies #[trigger] front[k][i] != BACK_SLASH by {
            assert(front[k] == ws[k]);
        }
        lemma_requote_pieces(front);
        let a = requote_pieces(front).push(QuotedPiece::Space);
        lemma_apply_concat(a, word_pieces(w), init);
        lemma_apply_concat(requote_pieces(front), seq![QuotedPiece::Space], init);
        assert(requote_pieces(front).push(QuotedPiece::Space) =~= requote_pieces(front) + seq![QuotedPiece::Space]);
        let before = ArgScan { escape: false, current: front.last(), args: front.drop_last() };
        assert(seq![QuotedPiece::Space].drop_first() =~= Seq::<QuotedPiece>::empty());
        assert(front.last() == ws[ws.len() - 2]);
        assert(front.last().len() > 0);
        let after_space = finish_arg(before);
        reveal_with_fuel(apply_pieces, 2);
        assert(apply_pieces(seq![QuotedPiece::Space], before) == after_space);
        assert(front.drop_last().push(front.last()) =~= front);
        lemma_word_pieces(w, after_space);
        assert(Seq::<char>::empty() + w =~= w);
        assert(valid_pieces(seq![QuotedPiece::Space]));
        lemma_valid_concat(requote_pieces(front), seq![QuotedPiece::Space]);
        lemma_valid_concat(a, word_pieces(w));
    }
}

proof fn lemma_pieces_text_split(s: Seq<char>, p: int, t: Seq<QuotedPiece>)
    requires
        0 <= p <= s.len(),
        t.len() > 0,
        s.subrange(p, s.len() as int) == pieces_text(t),
    ensures
        p + piece_text(t[0]).len() <= s.len(),
        forall|j: int| 0 <= j < piece_text(t[0]).len() ==> s[p + j] == #[trigger] piece_text(t[0])[j],
        s.subrange(p + piece_text(t[0]).len(), s.len() as int) == pieces_text(t.drop_first()),
{
    let head = piece_text(t[0]);
    let rest = pieces_text(t.drop_first());
    assert(pieces_text(t) == head + rest);
    assert forall|j: int| 0 <= j < head.len() implies s[p + j] == #[trigger] head[j] by {
        assert(s.subrange(p, s.len() as int)[j] == s[p + j]);
        assert((head + rest)[j] == head[j]);
    }
    assert(s.subrange(p + head.len(), s.len() as int) =~= rest) by {
        assert forall|j: int| 0 <= j < rest.len() implies s.subrange(p + head.len(), s.len() as int)[j] == rest[j] by {
            assert(s.subrange(p, s.len() as int)[head.len() + j] == s[p + head.len() + j]);
            assert((head + rest)[head.len() + j] == rest[j]);
        }
    }
}

proof fn lemma_pieces_spans_bounds(t: Seq<QuotedPiece>, o: int)
    requires
        0 <= o,
        o + pieces_text(t).len() <= usize::MAX,
    ensures
        forall|k: int|
            0 <= k < pieces_spans(t, o).len() ==> {
                let sp = #[trigger] pieces_spans(t, o)[k];
                &&& sp.lo() >= o
                &&& sp.hi() == sp.lo() + 2
                &&& sp.hi() < o + pieces_text(t).len()
            },
    decreases t.len(),
{
    if t.len() > 0 {
        let len0 = piece_text(t[0]).len();
        assert(pieces_text(t) == piece_text(t[0]) + pieces_text(t.drop_first()));
        lemma_pieces_spans_bounds(t.drop_first(), o + len0);
        let head = match t[0] {
            QuotedPiece::Char(_) => seq![QuotePosition::SingleQuote(o as usize, (o + 2) as usize)],
            _ => Seq::empty(),
        };
        let rest = pieces_spans(t.drop_first(), o + len0);
        assert(pieces_spans(t, o) == head + rest);
        assert forall|k: int| 0 <= k < pieces_spans(t, o).len() implies {
            let sp = #[trigger] pieces_spans(t, o)[k];
            &&& sp.lo() >= o
            &&& sp.hi() == sp.lo() + 2
            &&& sp.hi() < o + pieces_text(t).len()
        } by {
            if k < head.len() {
                assert(pieces_spans(t, o)[k] == head[k]);
            } else {
                assert(pieces_spans(t, o)[k] == rest[k - head.len()]);
            }
        }
    }
}

proof fn lemma_enclosing_none(b: Seq<QuotePosition>, idx: int, k: int)
    requires
        0 <= k,
        forall|j: int| 0 <= j < b.len() ==> !(#[trigger] b[j]).encloses(idx),
    ensures
        enclosing_from(b, idx, k) is None,
    decreases b.len() - k,
{
    if k < b.len() {
        lemma_enclosing_none(b, idx, k + 1);
    }
}

proof fn lemma_enclosing_shift(a: Seq<QuotePosition>, b: Seq<QuotePosition>, idx: int, j: int)
    requires
        0 <= j,
    ensures
        enclosing_from(a + b, idx, a.len() + j) == enclosing_from(b, idx, j),
    decreases b.len() - j,
{
    if j < b.len() {
        assert((a + b)[a.len() + j] == b[j]);
        lemma_enclosing_shift(a, b, idx, j + 1);
    }
}

proof fn lemma_enclosing_skip(a: Seq<QuotePosition>, b: Seq<QuotePosition>, idx: int, k: int)
    requires
        0 <= k <= a.len(),
        forall|j: int| 0 <= j < a.len() ==> !(#[trigger] a[j]).encloses(idx),
    ensures
        enclosing_from(a + b, idx, k) == enclosing(b, idx),
    decreases a.len() - k,
{
    if k < a.len() {
        assert((a + b)[k] == a[k]);
        lemma_enclosing_skip(a, b, idx, k + 1);
    } else {
        lemma_enclosing_shift(a, b, idx, 0);
    }
}

proof fn lemma_quote_scan_pieces(
    s: Seq<char>,
    p: int,
    t: Seq<QuotedPiece>,
    spans: Seq<QuotePosition>,
)
    requires
        0 <= p <= s.len(),
        s.len() <= usize::MAX,
        s.subrange(p, s.len() as int) == pieces_text(t),
        valid_pieces(t),
        quote_scan(s, p as nat) == (QuoteScan { open: None, escape: false, spans }),
    ensures
        quote_scan(s, s.len()) == (QuoteScan {
            open: None,
            escape: false,
            spans: spans + pieces_spans(t, p),
        }),
    decreases t.len(),
{
    if t.len() == 0 {
        assert(s.subrange(p, s.len() as int).len() == 0);
        assert(spans + pieces_spans(t, p) =~= spans);
    } else {
        lemma_pieces_text_split(s, p, t);
        let len0 = piece_text(t[0]).len();
        let rest = t.drop_first();
        assert(valid_pieces(rest)) by {
            assert forall|i: int| 0 <= i < rest.len() implies match #[trigger] rest[i] {
                QuotedPiece::Char(c) => c != BACK_SLASH && c != SINGLE_QUOTE,
                _ => true,
            } by {
                assert(rest[i] == t[i + 1]);
            }
        }
        assert(match t[0] {
            QuotedPiece::Char(c) => c != BACK_SLASH && c != SINGLE_QUOTE,
            _ => true,
        });
        let head = match t[0] {
            QuotedPiece::Char(_) => seq![QuotePosition::SingleQuote(p as usize, (p + 2) as usize)],
            _ => Seq::empty(),
        };
        match t[0] {
            QuotedPiece::Char(c) => {
                assert(s[p] == SINGLE_QUOTE);
                assert(s[p + 1] == c);
                assert(s[p + 2] == SINGLE_QUOTE);
                let st1 = QuoteScan { open: Some((QuoteType::Single, p as usize)), escape: false, spans };
                assert(quote_scan(s, (p + 1) as nat) == st1);
                assert(quote_scan(s, (p + 2) as nat) == st1);
                assert(quote_scan(s, (p + 3) as nat) == QuoteScan {
                    open: None,
                    escape: false,
                    spans: spans.push(QuotePosition::SingleQuote(p as usize, (p + 2) as usize)),
                });
            },
            QuotedPiece::Quote => {
                assert(s[p] == BACK_SLASH);
                assert(s[p + 1] == SINGLE_QUOTE);
                assert(quote_scan(s, (p + 1) as nat) == QuoteScan { open: None, escape: true, spans });
                assert(quote_scan(s, (p + 2) as nat) == QuoteScan { open: None, escape: false, spans });
            },
            QuotedPiece::Space => {
                assert(piece_text(t[0])[0] == ' ');
                assert(s[p] == ' ');
                assert(quote_scan(s, (p + 1) as nat) == QuoteScan { open: None, escape: false, spans });
            },
        }
        assert(spans.push(QuotePosition::SingleQuote(p as usize, (p + 2) as usize)) =~= spans + seq![QuotePosition::SingleQuote(p as usize, (p + 2) as usize)]);
        assert(spans + head == (if t[0] is Char { spans.push(QuotePosition::SingleQuote(p as usize, (p + 2) as usize)) } else { spans })) by {
            if !(t[0] is Char) {
                assert(spans + head =~= spans);
            }
        }
        lemma_quote_scan_pieces(s, p + len0, rest, spans + head);
        assert(pieces_spans(t, p) == head + pieces_spans(rest, p + len0));
        assert(spans + head + pieces_spans(rest, p + len0) =~= spans + pieces_spans(t, p));
    }
}

proof fn lemma_arg_scan_pieces(
    s: Seq<char>,
    p: int,
    t: Seq<QuotedPiece>,
    done: Seq<QuotePosition>,
    all: Seq<QuotePosition>,
    st: ArgScan,
)
    requires
        0 <= p <= s.len(),
        s.len() <= usize::MAX,
        s.subrange(p, s.len() as int) == pieces_text(t),
        valid_pieces(t),
        all == done + pieces_spans(t, p),
        forall|k: int| 0 <= k < done.len() ==> (#[trigger] done[k]).hi() <= p,
        arg_scan(all, s, p as nat) == st,
        !st.escape,
    ensures
        arg_scan(all, s, s.len()) == apply_pieces(t, st),
    decreases t.len(),
{
    if t.len() == 0 {
        assert(s.subrange(p, s.len() as int).len() == 0);
    } else {
        lemma_pieces_text_split(s, p, t);
        let len0 = piece_text(t[0]).len();
        let rest = t.drop_first();
        assert(pieces_text(t) == piece_text(t[0]) + pieces_text(rest));
        assert(valid_pieces(rest)) by {
            assert forall|i: int| 0 <= i < rest.len() implies match #[trigger] rest[i] {
                QuotedPiece::Char(c) => c != BACK_SLASH && c != SINGLE_QUOTE,
                _ => true,
            } by {
                assert(rest[i] == t[i + 1]);
            }
        }
        assert(match t[0] {
            QuotedPiece::Char(c) => c != BACK_SLASH && c != SINGLE_QUOTE,
            _ => true,
        });
        let head = match t[0] {
            QuotedPiece::Char(_) => seq![QuotePosition::SingleQuote(p as usize, (p + 2) as usize)],
            _ => Seq::empty(),
        };
        let later = pieces_spans(rest, p + len0);
        assert(pieces_spans(t, p) == head + later);
        lemma_pieces_spans_bounds(rest, p + len0);
        assert(all =~= done + (head + later));
        let next = match t[0] {
            QuotedPiece::Char(c) => ArgScan { current: st.current.push(c), ..st },
            QuotedPiece::Quote => ArgScan { current: st.current.push(SINGLE_QUOTE), ..st },
            QuotedPiece::Space => finish_arg(st),
        };
        match t[0] {
            QuotedPiece::Char(c) => {
                assert(s[p] == SINGLE_QUOTE);
                assert(s[p + 1] == c);
                assert(s[p + 2] == SINGLE_QUOTE);
                let x = QuotePosition::SingleQuote(p as usize, (p + 2) as usize);
                assert(head == seq![x]);
                lemma_enclosing_skip(done, head + later, p, 0);
                lemma_enclosing_skip(done, head + later, p + 1, 0);
                lemma_enclosing_skip(done, head + later, p + 2, 0);
                lemma_enclosing_skip(head, later, p, 0);
                lemma_enclosing_skip(head, later, p + 2, 0);
                lemma_enclosing_none(later, p, 0);
                lemma_enclosing_none(later, p + 2, 0);
                assert((head + later)[0] == x);
                assert(enclosing(all, p) is None);
                assert(enclosing(all, p + 1) == Some(x));
                assert(enclosing(all, p + 2) is None);
                assert(arg_scan(all, s, (p + 1) as nat) == st);
                assert(arg_scan(all, s, (p + 2) as nat) == next);
                assert(arg_scan(all, s, (p + 3) as nat) == next);
            },
            QuotedPiece::Quote => {
                assert(piece_text(t[0])[0] == BACK_SLASH);
                assert(piece_text(t[0])[1] == SINGLE_QUOTE);
                assert(s[p] == BACK_SLASH);
                assert(s[p + 1] == SINGLE_QUOTE);
                assert(head + later =~= later);
                lemma_enclosing_skip(done, later, p, 0);
                lemma_enclosing_skip(done, later, p + 1, 0);
                lemma_enclosing_none(later, p, 0);
                lemma_enclosing_none(later, p + 1, 0);
                assert(enclosing(all, p) is None);
                assert(enclosing(all, p + 1) is None);
                assert(arg_scan(all, s, (p + 1) as nat) == ArgScan { escape: true, ..st });
                assert(arg_scan(all, s, (p + 2) as nat) == next);
            },
            QuotedPiece::Space => {
                assert(piece_text(t[0])[0] == ' ');
                assert(s[p] == ' ');
                assert(head + later =~= later);
                lemma_enclosing_skip(done, later, p, 0);
                lemma_enclosing_none(later, p, 0);
                assert(enclosing(all, p) is None);
                assert(arg_scan(all, s, (p + 1) as nat) == next);
            },
        }
        assert forall|k: int| 0 <= k < (done + head).len() implies (#[trigger] (done + head)[k]).hi() <= p + len0 by {
            if k < done.len() {
                assert((done + head)[k] == done[k]);
            } else {
                assert((done + head)[k] == head[k - done.len()]);
            }
        }
        assert(all =~= (done + head) + later);
        lemma_arg_scan_pieces(s, p + len0, rest, done + head, all, next);
    }
}

pub open spec fn all_nonempty(args: Seq<Seq<char>>) -> bool {
    forall|k: int| 0 <= k < args.len() ==> (#[trigger] args[k]).len() > 0
}

proof fn lemma_finish_nonempty(st: ArgScan)
    requires
        all_nonempty(st.args),
    ensures
        all_nonempty(finish_arg(st).args),
{
    if st.current.len() > 0 {
        let a = st.args.push(st.current);
        assert forall|k: int| 0 <= k < a.len() implies (#[trigger] a[k]).len() > 0 by {
            if k < st.args.len() {
                assert(a[k] == st.args[k]);
            }
        }
    }
}

proof fn lemma_args_nonempty(spans: Seq<QuotePosition>, s: Seq<char>, i: nat)
    ensures
        all_nonempty(arg_scan(spans, s, i).args),
        all_nonempty(finish_arg(arg_scan(spans, s, i)).args),
    decreases i,
{
    if i > 0 {
        lemma_args_nonempty(spans, s, (i - 1) as nat);
        let prev = arg_scan(spans, s, (i - 1) as nat);
        let idx = i - 1;
        lemma_finish_nonempty(prev);
        match enclosing(spans, idx) {
            Some(p) => {
                assert(quoted_step(prev, s[idx], p.is_double()).args == prev.args);
            },
            None => {
                let c = s[idx];
                let last = idx == s.len() - 1;
                assert(plain_step(prev, c, last).args == prev.args || plain_step(prev, c, last)
                    == finish_arg(prev));
            },
        }
    }
    lemma_finish_nonempty(arg_scan(spans, s, i));
}

proof fn lemma_first_redirection_range(a: Seq<Seq<char>>, k: int)
    requires
        0 <= k,
    ensures
        first_redirection_from(a, k) matches Some(p) ==> k <= p < a.len(),
    decreases a.len() - k,
{
    if k < a.len() {
        lemma_first_redirection_range(a, k + 1);
    }
}

proof fn lemma_no_redirection(ws: Seq<Seq<char>>, k: int)
    requires
        0 <= k,
        forall|j: int| 0 <= j < ws.len() ==> redirection_of(#[trigger] ws[j]) is None,
    ensures
        first_redirection_from(ws, k) is None,
    decreases ws.len() - k,
{
    if k < ws.len() {
        lemma_no_redirection(ws, k + 1);
    }
}

/// The words that a successful parse of `s` yields, command name first.
pub open spec fn parsed_words(s: Seq<char>) -> Seq<Seq<char>> {
    spec_parse(s)->Ok_0.0
}

/// Requoting the words of a parsed line, each in single quotes with `\'`
/// for its own single quotes, gives a line that parses back to the same
/// words, with no redirection. Set aside are words that hold a backslash
/// (the quote scan lets a backslash escape the next character even inside
/// single quotes) or that are themselves a redirection operator (they would
/// be read as one); and the requoted line must fit in memory.
pub proof fn lemma_requote_round_trip(s: Seq<char>)
    requires
        spec_parse(s) is Ok,
        forall|k: int, i: int|
            0 <= k < parsed_words(s).len() && 0 <= i < parsed_words(s)[k].len()
                ==> #[trigger] parsed_words(s)[k][i] != BACK_SLASH,
        forall|k: int|
            0 <= k < parsed_words(s).len() ==> redirection_of(#[trigger] parsed_words(s)[k]) is None,
        requote(parsed_words(s)).len() <= usize::MAX,
    ensures
        spec_parse(requote(parsed_words(s))) == Ok::<
            (Seq<Seq<char>>, Option<(Seq<char>, RedirectionType)>),
            ShellError,
        >((parsed_words(s), None)),
{
    let ws = parsed_words(s);
    let spans0 = spec_quote_positions(s)->Some_0;
    let args0 = spec_parse_args(spans0, s);
    lemma_args_nonempty(spans0, s, s.len());
    lemma_first_redirection_range(args0, 0);
    assert forall|k: int| 0 <= k < ws.len() implies (#[trigger] ws[k]).len() > 0 by {
        match first_redirection(args0) {
            None => {},
            Some(p) => {
                let once = args0.remove(p);
                args0.remove_ensures(p);
                once.remove_ensures(p);
                assert(ws == once.remove(p));
                let k1 = if k < p { k } else { k + 1 };
                assert(ws[k] == once[k1]);
                let k2 = if k1 < p { k1 } else { k1 + 1 };
                assert(once[k1] == args0[k2]);
            },
        }
    }
    let t = requote_pieces(ws);
    let r = pieces_text(t);
    let init = ArgScan { escape: false, current: Seq::empty(), args: Seq::empty() };
    lemma_no_redirection(ws, 0);
    if ws.len() == 0 {
        assert(t =~= Seq::<QuotedPiece>::empty());
        assert(r =~= Seq::<char>::empty());
        assert(spec_quote_positions(r) == Some(Seq::<QuotePosition>::empty()));
        assert(spec_parse_args(Seq::empty(), r) =~= ws);
    } else {
        lemma_requote_pieces(ws);
        assert(r.subrange(0, r.len() as int) =~= r);
        let q0 = QuoteScan { open: None, escape: false, spans: Seq::empty() };
        assert(quote_scan(r, 0) == q0);
        lemma_quote_scan_pieces(r, 0, t, Seq::empty());
        let all = pieces_spans(t, 0);
        assert(Seq::<QuotePosition>::empty() + all =~= all);
        assert(spec_quote_positions(r) == Some(all));
        assert(arg_scan(all, r, 0) == init);
        lemma_arg_scan_pieces(r, 0, t, Seq::empty(), all, init);
        let end = ArgScan { escape: false, current: ws.last(), args: ws.drop_last() };
        assert(arg_scan(all, r, r.len()) == end);
        assert(ws.last() == ws[ws.len() - 1]);
        assert(ws.drop_last().push(ws.last()) =~= ws);
        assert(spec_parse_args(all, r) == ws);
    }
}

} // verus!

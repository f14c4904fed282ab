//! Tab completion: the longest unambiguous extension of a prefix among a set
//! of candidate names, or a listing of all of them.
use std::sync::Arc;

use vstd::prelude::*;

use crate::commands::{builtin_names, CommandToken};
use crate::path::PathDirsProvider;
use crate::text::{chars_of, join, join_strings, string_of, views};

verus! {

/// Strict lexicographic order on character sequences (by code point), the
/// order in which `String`s sort.
pub open spec fn lex_lt(a: Seq<char>, b: Seq<char>) -> bool
    decreases a.len(),
{
    if a.len() == 0 {
        b.len() > 0
    } else if b.len() == 0 {
        false
    } else if (a[0] as int) < (b[0] as int) {
        true
    } else if a[0] == b[0] {
        lex_lt(a.drop_first(), b.drop_first())
    } else {
        false
    }
}

/// Every element is strictly below every later one.
pub open spec fn strictly_sorted(m: Seq<Seq<char>>) -> bool {
    forall|i: int, j: int| 0 <= i < j < m.len() ==> lex_lt(#[trigger] m[i], #[trigger] m[j])
}

/// `m` lists, in sorted order and once each, the candidates of `items` that start with `p`.
pub open spec fn sorted_matches_of(m: Seq<Seq<char>>, items: Seq<Seq<char>>, p: Seq<char>) -> bool {
    &&& strictly_sorted(m)
    &&& forall|c: Seq<char>| #[trigger] m.contains(c) <==> (items.contains(c) && p.is_prefix_of(c))
}

/// `q` is a prefix of every element of `m`.
pub open spec fn common_prefix(q: Seq<char>, m: Seq<Seq<char>>) -> bool {
    forall|i: int| 0 <= i < m.len() ==> q.is_prefix_of(#[trigger] m[i])
}

/// `q` is the longest common prefix of the elements of `m`: no character extends it.
pub open spec fn is_lcp(q: Seq<char>, m: Seq<Seq<char>>) -> bool {
    &&& common_prefix(q, m)
    &&& forall|ch: char| !common_prefix(#[trigger] q.push(ch), m)
}

/// The separator between the names of a completion listing.
pub open spec fn listing_separator() -> Seq<char> {
    seq![' ', ' ']
}

/// What one completion stage returns for prefix `p`, given the sorted
/// matches `m` and the longest common prefix `q` of `m`.
pub open spec fn completion_of(m: Seq<Seq<char>>, q: Seq<char>, p: Seq<char>, multiple: bool) -> Option<
    Seq<char>,
> {
    if p.len() == 0 || m.len() == 0 {
        None
    } else if multiple {
        Some(join(m, listing_separator()))
    } else if m.len() == 1 {
        Some(m[0].skip(p.len() as int).push(' '))
    } else if q.len() > p.len() {
        Some(q.skip(p.len() as int))
    } else {
        None
    }
}

/// What the completion engine returns on `items`, `p` and `multiple`: the
/// sorted matches and their longest common prefix are unique, so this pins
/// the result down.
pub open spec fn completes_to(
    items: Seq<Seq<char>>,
    p: Seq<char>,
    multiple: bool,
    r: Option<Seq<char>>,
) -> bool {
    exists|m: Seq<Seq<char>>, q: Seq<char>|
        sorted_matches_of(m, items, p) && (p.len() > 0 && m.len() > 1 && !multiple ==> is_lcp(
            q,
            m,
        )) && r == #[trigger] completion_of(m, q, p, multiple)
}

pub open spec fn view_opt(o: Option<String>) -> Option<Seq<char>> {
    match o {
        Some(s) => Some(s@),
        None => None,
    }
}

pub open spec fn char_views(v: Seq<Vec<char>>) -> Seq<Seq<char>> {
    v.map_values(|a: Vec<char>| a@)
}

pub proof fn lemma_lex_irreflexive(a: Seq<char>)
    ensures
        !lex_lt(a, a),
    decreases a.len(),
{
    if a.len() > 0 {
        lemma_lex_irreflexive(a.drop_first());
    }
}

pub proof fn lemma_lex_transitive(a: Seq<char>, b: Seq<char>, c: Seq<char>)
    requires
        lex_lt(a, b),
        lex_lt(b, c),
    ensures
        lex_lt(a, c),
    decreases a.len(),
{
    if a.len() > 0 && b.len() > 0 && c.len() > 0 && a[0] == b[0] && b[0] == c[0] {
        lemma_lex_transitive(a.drop_first(), b.drop_first(), c.drop_first());
    }
}

pub proof fn lemma_lex_total(a: Seq<char>, b: Seq<char>)
    requires
        a != b,
    ensures
        lex_lt(a, b) || lex_lt(b, a),
    decreases a.len(),
{
    if a.len() > 0 && b.len() > 0 && a[0] == b[0] {
        if a.drop_first() == b.drop_first() {
            assert(a =~= seq![a[0]] + a.drop_first());
            assert(b =~= seq![b[0]] + b.drop_first());
        }
        lemma_lex_total(a.drop_first(), b.drop_first());
    } else if a.len() > 0 && b.len() > 0 {
        assert((a[0] as int) != (b[0] as int));
    } else if a.len() == 0 && b.len() == 0 {
        assert(a =~= b);
    }
}

/// Whether `c` starts with `p`.
fn has_prefix(c: &Vec<char>, p: &Vec<char>) -> (r: bool)
    ensures
        r == p@.is_prefix_of(c@),
{
    if p.len() > c.len() {
        return false;
    }
    let mut i: usize = 0;
    while i < p.len()
        invariant
            p@.len() <= c@.len(),
            i <= p@.len(),
            forall|j: int| 0 <= j < i ==> p@[j] == c@[j],
        decreases p@.len() - i,
    {
        if p[i] != c[i] {
            assert(p@[i as int] != c@.subrange(0, p@.len() as int)[i as int]);
            return false;
        }
        i += 1;
    }
    assert(p@ =~= c@.subrange(0, p@.len() as int));
    true
}

/// Whether `a` sorts strictly before `b`.
fn lex_less(a: &Vec<char>, b: &Vec<char>) -> (r: bool)
    ensures
        r == lex_lt(a@, b@),
{
    let mut i: usize = 0;
    assert(a@.skip(0) =~= a@);
    assert(b@.skip(0) =~= b@);
    while i < a.len() && i < b.len()
        invariant
            i <= a@.len(),
            i <= b@.len(),
            lex_lt(a@, b@) == lex_lt(a@.skip(i as int), b@.skip(i as int)),
        decreases a@.len() - i,
    {
        let x = a[i];
        let y = b[i];
        assert(a@.skip(i as int)[0] == x);
        assert(b@.skip(i as int)[0] == y);
        if x < y {
            return true;
        }
        if x != y {
            return false;
        }
        assert(a@.skip(i as int).drop_first() =~= a@.skip(i + 1));
        assert(b@.skip(i as int).drop_first() =~= b@.skip(i + 1));
        i += 1;
    }
    i < b.len()
}

/// Inserts `x` into the strictly sorted `m`, unless it is there already.
fn insert_sorted(m: &mut Vec<Vec<char>>, x: Vec<char>)
    requires
        strictly_sorted(char_views(old(m)@)),
    ensures
        strictly_sorted(char_views(final(m)@)),
        forall|c: Seq<char>|
            #[trigger] char_views(final(m)@).contains(c) <==> (char_views(old(m)@).contains(c)
                || c == x@),
{
    let ghost before = char_views(m@);
    let mut j: usize = 0;
    while j < m.len() && lex_less(&m[j], &x)
        invariant
            j <= m@.len(),
            m@ == old(m)@,
            before == char_views(m@),
            strictly_sorted(before),
            forall|i: int| 0 <= i < j ==> lex_lt(#[trigger] before[i], x@),
        decreases m@.len() - j,
    {
        assert(before[j as int] == m@[j as int]@);
        j += 1;
    }
    proof {
        if j < m@.len() {
            assert(before[j as int] == m@[j as int]@);
        }
    }
    if j < m.len() && !lex_less(&x, &m[j]) {
        proof {
            if before[j as int] != x@ {
                lemma_lex_total(before[j as int], x@);
            }
            assert(before[j as int] == x@);
            assert forall|c: Seq<char>| #[trigger] before.contains(c) <==> (before.contains(c)
                || c == x@) by {
                if c == x@ {
                    assert(before[j as int] == c);
                }
            }
        }
        return;
    }
    proof {
        if j < before.len() {
            assert(lex_lt(x@, before[j as int]));
        }
    }
    m.insert(j, x);
    proof {
        let after = char_views(m@);
        assert(after =~= before.insert(j as int, x@));
        assert forall|a: int, b: int| 0 <= a < b < after.len() implies lex_lt(
            #[trigger] after[a],
            #[trigger] after[b],
        ) by {
            if b < j {
                assert(after[a] == before[a] && after[b] == before[b]);
            } else if b == j {
                assert(after[a] == before[a]);
            } else if a == j {
                assert(after[b] == before[b - 1]);
                if b - 1 > j {
                    lemma_lex_transitive(x@, before[j as int], before[b - 1]);
                }
            } else if a < j {
                assert(after[a] == before[a] && after[b] == before[b - 1]);
            } else {
                assert(after[a] == before[a - 1] && after[b] == before[b - 1]);
            }
        }
        assert forall|c: Seq<char>| #[trigger] after.contains(c) <==> (before.contains(c) || c
            == x@) by {
            if after.contains(c) {
                let k = choose|k: int| 0 <= k < after.len() && #[trigger] after[k] == c;
                if k < j {
                    assert(before[k] == c);
                } else if k > j {
                    assert(before[k - 1] == c);
                }
            }
            if before.contains(c) {
                let k = choose|k: int| 0 <= k < before.len() && #[trigger] before[k] == c;
                if k < j {
                    assert(after[k] == c);
                } else {
                    assert(after[k + 1] == c);
                }
            }
            if c == x@ {
                assert(after[j as int] == c);
            }
        }
    }
}

/// The candidates of `items` that start with `p`, sorted, each once.
fn sorted_matches(items: &Vec<String>, p: &Vec<char>) -> (r: Vec<Vec<char>>)
    ensures
        sorted_matches_of(char_views(r@), views(items@), p@),
{
    let ghost iv = views(items@);
    let mut m: Vec<Vec<char>> = Vec::new();
    let mut i: usize = 0;
    while i < items.len()
        invariant
            i <= items@.len(),
            iv == views(items@),
            strictly_sorted(char_views(m@)),
            forall|c: Seq<char>| #[trigger]
                char_views(m@).contains(c) <==> (iv.take(i as int).contains(c)
                    && p@.is_prefix_of(c)),
        decreases items@.len() - i,
    {
        let c = chars_of(items[i].as_str());
        let ghost old_m = char_views(m@);
        if has_prefix(&c, p) {
            insert_sorted(&mut m, c);
        }
        proof {
            assert forall|x: Seq<char>| #[trigger] char_views(m@).contains(x) <==> (iv.take(
                i + 1,
            ).contains(x) && p@.is_prefix_of(x)) by {
                assert(iv.take(i + 1)[i as int] == iv[i as int]);
                if iv.take(i + 1).contains(x) {
                    let k = choose|k: int| 0 <= k < i + 1 && #[trigger] iv.take(i + 1)[k] == x;
                    if k < i {
                        assert(iv.take(i as int)[k] == x);
                    }
                }
                if iv.take(i as int).contains(x) {
                    let k = choose|k: int| 0 <= k < i && #[trigger] iv.take(i as int)[k] == x;
                    assert(iv.take(i + 1)[k] == x);
                }
            }
        }
        i += 1;
    }
    assert(iv.take(items@.len() as int) =~= iv);
    m
}

/// The longest common prefix of the non-empty `m`.
fn longest_common_prefix(m: &Vec<Vec<char>>) -> (r: Vec<char>)
    requires
        m@.len() > 0,
    ensures
        is_lcp(r@, char_views(m@)),
{
    let ghost mv = char_views(m@);
    let ghost first = m@[0]@;
    let mut idx: usize = 0;
    let mut prefix: Vec<char> = Vec::new();
    assert(prefix@ =~= first.take(0));
    assert forall|i: int| 0 <= i < mv.len() implies prefix@.is_prefix_of(#[trigger] mv[i]) by {
        assert(prefix@ =~= mv[i].subrange(0, 0));
    }
    loop
        invariant
            mv == char_views(m@),
            m@.len() > 0,
            first == m@[0]@,
            mv[0] == first,
            idx <= first.len(),
            prefix@ == first.take(idx as int),
            common_prefix(prefix@, mv),
        decreases first.len() - idx,
    {
        if idx == m[0].len() {
            proof {
                assert forall|ch: char| !common_prefix(#[trigger] prefix@.push(ch), mv) by {
                    assert(prefix@.push(ch).len() > mv[0].len());
                }
            }
            return prefix;
        }
        let ch = m[0][idx];
        let mut k: usize = 1;
        let mut all = true;
        while k < m.len()
            invariant
                mv == char_views(m@),
                1 <= k <= m@.len(),
                first == m@[0]@,
                mv[0] == first,
                idx < first.len(),
                ch == first[idx as int],
                all ==> forall|j: int|
                    0 <= j < k ==> idx < (#[trigger] mv[j]).len() && mv[j][idx as int] == ch,
                !all ==> exists|j: int|
                    0 <= j < m@.len() && (idx >= (#[trigger] mv[j]).len() || mv[j][idx as int]
                        != ch),
            ensures
                all ==> forall|j: int|
                    0 <= j < m@.len() ==> idx < (#[trigger] mv[j]).len() && mv[j][idx as int]
                        == ch,
                !all ==> exists|j: int|
                    0 <= j < m@.len() && (idx >= (#[trigger] mv[j]).len() || mv[j][idx as int]
                        != ch),
            decreases m@.len() - k,
        {
            assert(mv[k as int] == m@[k as int]@);
            if idx >= m[k].len() || m[k][idx] != ch {
                all = false;
                assert(idx >= mv[k as int].len() || mv[k as int][idx as int] != ch);
                break;
            }
            k += 1;
        }
        if !all {
            proof {
                let j = choose|j: int|
                    0 <= j < m@.len() && (idx >= (#[trigger] mv[j]).len() || mv[j][idx as int]
                        != ch);
                assert forall|c: char| !common_prefix(#[trigger] prefix@.push(c), mv) by {
                    if common_prefix(prefix@.push(c), mv) {
                        assert(prefix@.push(c).is_prefix_of(mv[0]));
                        assert(prefix@.push(c).is_prefix_of(mv[j]));
                        assert(prefix@.push(c)[idx as int] == mv[0][idx as int]);
                        assert(prefix@.push(c)[idx as int] == mv[j][idx as int]);
                    }
                }
            }
            return prefix;
        }
        prefix.push(ch);
        proof {
            assert(prefix@ =~= first.take(idx + 1));
            assert forall|i: int| 0 <= i < mv.len() implies prefix@.is_prefix_of(#[trigger] mv[i]) by {
                assert(prefix@.drop_last() =~= first.take(idx as int));
                assert(prefix@.drop_last().is_prefix_of(mv[i]));
                assert(prefix@ =~= mv[i].subrange(0, prefix@.len() as int));
            }
        }
        idx += 1;
    }
}

/// The strings of `m`.
fn to_strings(m: &Vec<Vec<char>>) -> (r: Vec<String>)
    ensures
        views(r@) == char_views(m@),
{
    let mut out: Vec<String> = Vec::new();
    let mut i: usize = 0;
    while i < m.len()
        invariant
            i <= m@.len(),
            views(out@) == char_views(m@).take(i as int),
        decreases m@.len() - i,
    {
        let s = string_of(&m[i]);
        let ghost prev = out@;
        out.push(s);
        assert(views(out@) =~= views(prev).push(s@));
        assert(char_views(m@).take(i + 1) =~= char_views(m@).take(i as int).push(m@[i as int]@));
        i += 1;
    }
    assert(char_views(m@).take(m@.len() as int) =~= char_views(m@));
    out
}

/// The characters of `s` from position `from` on.
fn chars_from(s: &Vec<char>, from: usize) -> (r: Vec<char>)
    requires
        from <= s@.len(),
    ensures
        r@ == s@.skip(from as int),
{
    let mut rest: Vec<char> = Vec::new();
    let mut i: usize = from;
    while i < s.len()
        invariant
            from <= i <= s@.len(),
            rest@ == s@.subrange(from as int, i as int),
        decreases s@.len() - i,
    {
        rest.push(s[i]);
        assert(rest@ =~= s@.subrange(from as int, i + 1));
        i += 1;
    }
    assert(rest@ =~= s@.skip(from as int));
    rest
}

/// The listing of the matches `m`: all of them, separated by two spaces.
fn multiple_completion(m: &Vec<Vec<char>>) -> (r: String)
    ensures
        r@ == join(char_views(m@), listing_separator()),
{
    let names = to_strings(m);
    let listing = join_strings(names.as_slice(), "  ");
    proof {
        assert("  "@ =~= listing_separator()) by {
            reveal_strlit("  ");
        }
    }
    listing
}

/// Completion without listing over the matches `m` of the prefix `p`: the
/// rest of a single match followed by a space, or the extension of `p` to
/// the longest common prefix of several matches when there is one.
fn single_completion(m: &Vec<Vec<char>>, p: &Vec<char>) -> (r: Option<String>)
    requires
        m@.len() > 0,
        p@.len() > 0,
        p@.is_prefix_of(m@[0]@),
    ensures
        exists|q: Seq<char>|
            (m@.len() > 1 ==> is_lcp(q, char_views(m@))) && view_opt(r) == #[trigger] completion_of(
                char_views(m@),
                q,
                p@,
                false,
            ),
{
    let ghost mv = char_views(m@);
    assert(mv[0] == m@[0]@);
    if m.len() == 1 {
        let mut rest = chars_from(&m[0], p.len());
        rest.push(' ');
        let r = string_of(&rest);
        assert(view_opt(Some(r)) == completion_of(mv, Seq::empty(), p@, false));
        return Some(r);
    }
    let q = longest_common_prefix(m);
    if q.len() > p.len() {
        let rest = chars_from(&q, p.len());
        let r = string_of(&rest);
        assert(view_opt(Some(r)) == completion_of(mv, q@, p@, false));
        return Some(r);
    }
    assert(view_opt(None) == completion_of(mv, q@, p@, false));
    None
}

/// One completion stage over the candidate names `items`: nothing for an
/// empty prefix or when no candidate starts with `args`; with `multiple`, all
/// matches sorted and separated by two spaces; otherwise the rest of the
/// single match followed by a space, or the extension of `args` to the
/// longest common prefix of the matches when that is longer than `args`.
pub fn complete(items: &Vec<String>, args: &str, multiple: bool) -> (r: Option<String>)
    ensures
        completes_to(views(items@), args@, multiple, view_opt(r)),
{
    let p = chars_of(args);
    let m = sorted_matches(items, &p);
    let ghost mv = char_views(m@);
    if p.len() == 0 || m.len() == 0 {
        assert(view_opt(None) == completion_of(mv, Seq::empty(), args@, multiple));
        return None;
    }
    if multiple {
        let listing = multiple_completion(&m);
        assert(view_opt(Some(listing)) == completion_of(mv, Seq::empty(), args@, multiple));
        return Some(listing);
    }
    assert(p@.is_prefix_of(m@[0]@)) by {
        assert(mv[0] == m@[0]@);
        assert(mv.contains(mv[0]));
    }
    let r = single_completion(&m, &p);
    proof {
        let q = choose|q: Seq<char>|
            (m@.len() > 1 ==> is_lcp(q, mv)) && view_opt(r) == #[trigger] completion_of(
                mv,
                q,
                p@,
                false,
            );
        assert(view_opt(r) == completion_of(mv, q, args@, multiple));
    }
    r
}

} // verus!

verus! {

/// The search-path stage of completion: the names of the executable files
/// in the search path's directories.
pub struct PathDirsCompletion {
    pub path_dirs: Arc<PathDirsProvider>,
}

impl PathDirsCompletion {
    pub fn new(path_dirs: Arc<PathDirsProvider>) -> (r: Self)
        ensures
            r.path_dirs == path_dirs,
    {
        PathDirsCompletion { path_dirs }
    }

    /// Completes `args` among `executables`, the executable file names listed
    /// from the search path's directories (duplicates allowed).
    pub fn handler(&self, args: &str, multiple: bool, executables: &Vec<String>) -> (r: Option<
        String,
    >)
        ensures
            completes_to(views(executables@), args@, multiple, view_opt(r)),
    {
        complete(executables, args, multiple)
    }
}

/// The first completion stage, the built-in names, followed by the
/// search-path stage.
pub struct BuiltinsCompletion {
    pub builtins: Vec<String>,
    pub next: PathDirsCompletion,
}

impl BuiltinsCompletion {
    pub fn new(path_dirs: Arc<PathDirsProvider>) -> (r: Self)
        ensures
            views(r.builtins@) == builtin_names(),
            r.next.path_dirs == path_dirs,
    {
        BuiltinsCompletion {
            builtins: CommandToken::into_completion(),
            next: PathDirsCompletion::new(path_dirs),
        }
    }

    /// Completes `args` among the built-in names.
    pub fn handler(&self, args: &str, multiple: bool) -> (r: Option<String>)
        ensures
            completes_to(views(self.builtins@), args@, multiple, view_opt(r)),
    {
        complete(&self.builtins, args, multiple)
    }

    /// The completion chain: the built-in stage's answer if it has one,
    /// otherwise that of the search-path stage over the names that
    /// `list_executables` gives.
    pub fn execute<P: Fn() -> Vec<String>>(
        &self,
        input: &str,
        multiple: bool,
        list_executables: &P,
    ) -> (r: Option<String>)
        requires
            list_executables.requires(()),
        ensures
            exists|first: Option<Seq<char>>|
                completes_to(views(self.builtins@), input@, multiple, first) && (first is Some
                    ==> view_opt(r) == first) && (first is None ==> exists|names: Vec<String>|
                    list_executables.ensures((), names) && completes_to(
                        views(names@),
                        input@,
                        multiple,
                        view_opt(r),
                    )),
    {
        let first = self.handler(input, multiple);
        if first.is_some() {
            return first;
        }
        let names = list_executables();
        let r = self.next.handler(input, multiple, &names);
        assert(completes_to(views(self.builtins@), input@, multiple, view_opt(first)));
        r
    }
}

} // verus!

verus! {

/// A completion without listing always makes progress toward candidates:
/// the prefix extended by the suffix is either a candidate followed by the
/// committing space, or a common prefix of two different candidates.
pub proof fn lemma_completion_progress(items: Seq<Seq<char>>, p: Seq<char>, suffix: Seq<char>)
    requires
        completes_to(items, p, false, Some(suffix)),
    ensures
        (exists|c: Seq<char>| items.contains(c) && p + suffix == c.push(' ')) || (exists|
            c1: Seq<char>,
            c2: Seq<char>,
        |
            c1 != c2 && items.contains(c1) && items.contains(c2) && (p + suffix).is_prefix_of(c1)
                && (p + suffix).is_prefix_of(c2)),
{
    let (m, q) = choose|m: Seq<Seq<char>>, q: Seq<char>|
        sorted_matches_of(m, items, p) && (p.len() > 0 && m.len() > 1 ==> is_lcp(q, m)) && Some(
            suffix,
        ) == #[trigger] completion_of(m, q, p, false);
    assert(m.contains(m[0]));
    assert(p.is_prefix_of(m[0]));
    if m.len() == 1 {
        assert(p + suffix =~= m[0].push(' '));
    } else {
        assert(m.contains(m[1]));
        assert(lex_lt(m[0], m[1]));
        lemma_lex_irreflexive(m[0]);
        assert(q.is_prefix_of(m[0]));
        assert(q.is_prefix_of(m[1]));
        assert(p + suffix =~= q);
    }
}

} // verus!

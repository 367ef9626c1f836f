//! Character-level text model shared by the configuration parsers: Unicode
//! whitespace trimming, splitting into lines, and searching within ranges of
//! a character buffer.
use vstd::prelude::*;

verus! {

broadcast use vstd::string::group_string_axioms;

/// Unicode `White_Space`, the set that `char::is_whitespace` and `str::trim` use.
pub open spec fn is_ws(c: char) -> bool {
    ||| c == ' '
    ||| ('\t' <= c && c <= '\r')
    ||| c == '\u{85}'
    ||| c == '\u{a0}'
    ||| c == '\u{1680}'
    ||| ('\u{2000}' <= c && c <= '\u{200a}')
    ||| c == '\u{2028}'
    ||| c == '\u{2029}'
    ||| c == '\u{202f}'
    ||| c == '\u{205f}'
    ||| c == '\u{3000}'
}

/// `s` without its leading whitespace.
pub open spec fn trim_start(s: Seq<char>) -> Seq<char>
    decreases s.len(),
{
    if s.len() > 0 && is_ws(s[0]) {
        trim_start(s.drop_first())
    } else {
        s
    }
}

/// `s` without its trailing whitespace.
pub open spec fn trim_end(s: Seq<char>) -> Seq<char>
    decreases s.len(),
{
    if s.len() > 0 && is_ws(s.last()) {
        trim_end(s.drop_last())
    } else {
        s
    }
}

/// `s` without leading and trailing whitespace, as `str::trim` gives it.
pub open spec fn trim(s: Seq<char>) -> Seq<char> {
    trim_end(trim_start(s))
}

/// The pieces of `s` between `'\n'` characters, in order: one more piece
/// than there are newlines. Every consumer in this crate trims each piece and
/// ignores blank ones, so this agrees with `str::lines` on what they see.
pub open spec fn lines_of(s: Seq<char>) -> Seq<Seq<char>>
    decreases s.len(),
{
    if s.len() == 0 {
        seq![Seq::<char>::empty()]
    } else {
        let prev = lines_of(s.drop_last());
        if s.last() == '\n' {
            prev.push(Seq::<char>::empty())
        } else {
            prev.drop_last().push(prev.last().push(s.last()))
        }
    }
}

/// The parts of `s` before and after the first `c`, as `str::split_once` gives them.
pub open spec fn split_once(s: Seq<char>, c: char) -> Option<(Seq<char>, Seq<char>)> {
    match s.index_of_first(c) {
        Some(i) => Some((s.take(i), s.skip(i + 1))),
        None => None,
    }
}

/// The parts of `s` before and after the last `c`, as `str::rsplit_once` gives them.
pub open spec fn rsplit_once(s: Seq<char>, c: char) -> Option<(Seq<char>, Seq<char>)> {
    match s.index_of_last(c) {
        Some(i) => Some((s.take(i), s.skip(i + 1))),
        None => None,
    }
}

pub proof fn lemma_trim_start_fixed(s: Seq<char>)
    requires
        s.len() == 0 || !is_ws(s[0]),
    ensures
        trim_start(s) == s,
{
}

pub proof fn lemma_trim_end_fixed(s: Seq<char>)
    requires
        s.len() == 0 || !is_ws(s.last()),
    ensures
        trim_end(s) == s,
{
}

/// Whether `c` is Unicode whitespace.
pub fn is_whitespace(c: char) -> (r: bool)
    ensures
        r == is_ws(c),
{
    c == ' ' || ('\t' <= c && c <= '\r') || c == '\u{85}' || c == '\u{a0}' || c == '\u{1680}' || (
    '\u{2000}' <= c && c <= '\u{200a}') || c == '\u{2028}' || c == '\u{2029}' || c == '\u{202f}'
        || c == '\u{205f}' || c == '\u{3000}'
}

/// The characters of `s`, in order.
pub fn chars_of(s: &str) -> (v: Vec<char>)
    ensures
        v@ == s@,
{
    let mut v: Vec<char> = Vec::new();
    for c in it: s.chars()
        invariant
            v@ == it.seq().take(it.index() as int),
    {
        v.push(c);
    }
    v
}

/// The bounds of `trim` of the range `lo..hi` of `cs`.
pub fn trim_bounds(cs: &Vec<char>, lo: usize, hi: usize) -> (r: (usize, usize))
    requires
        lo <= hi <= cs@.len(),
    ensures
        lo <= r.0 <= r.1 <= hi,
        cs@.subrange(r.0 as int, r.1 as int) == trim(cs@.subrange(lo as int, hi as int)),
{
    let mut a = lo;
    while a < hi && is_whitespace(cs[a])
        invariant
            lo <= a <= hi <= cs@.len(),
            trim_start(cs@.subrange(lo as int, hi as int)) == trim_start(
                cs@.subrange(a as int, hi as int),
            ),
        decreases hi - a,
    {
        assert(cs@.subrange(a as int, hi as int).drop_first() =~= cs@.subrange(
            a + 1,
            hi as int,
        ));
        a = a + 1;
    }
    proof {
        lemma_trim_start_fixed(cs@.subrange(a as int, hi as int));
    }
    let mut b = hi;
    while b > a && is_whitespace(cs[b - 1])
        invariant
            lo <= a <= b <= hi <= cs@.len(),
            trim(cs@.subrange(lo as int, hi as int)) == trim_end(cs@.subrange(a as int, b as int)),
        decreases b - a,
    {
        assert(cs@.subrange(a as int, b as int).drop_last() =~= cs@.subrange(
            a as int,
            b - 1,
        ));
        b = b - 1;
    }
    proof {
        lemma_trim_end_fixed(cs@.subrange(a as int, b as int));
    }
    (a, b)
}

/// Whether the range `alo..ahi` of `a` equals the range `blo..bhi` of `b`.
pub fn ranges_eq(a: &Vec<char>, alo: usize, ahi: usize, b: &Vec<char>, blo: usize, bhi: usize) -> (r:
    bool)
    requires
        alo <= ahi <= a@.len(),
        blo <= bhi <= b@.len(),
    ensures
        r == (a@.subrange(alo as int, ahi as int) == b@.subrange(blo as int, bhi as int)),
{
    if ahi - alo != bhi - blo {
        assert(a@.subrange(alo as int, ahi as int).len() != b@.subrange(blo as int, bhi as int).len());
        return false;
    }
    let n = ahi - alo;
    let ghost sa = a@.subrange(alo as int, ahi as int);
    let ghost sb = b@.subrange(blo as int, bhi as int);
    let mut i: usize = 0;
    while i < n
        invariant
            alo <= ahi <= a@.len(),
            blo <= bhi <= b@.len(),
            n == ahi - alo,
            n == bhi - blo,
            sa == a@.subrange(alo as int, ahi as int),
            sb == b@.subrange(blo as int, bhi as int),
            i <= n,
            forall|j: int| 0 <= j < i ==> sa[j] == sb[j],
        decreases n - i,
    {
        if a[alo + i] != b[blo + i] {
            assert(sa[i as int] != sb[i as int]);
            return false;
        }
        assert(sa[i as int] == sb[i as int]);
        i = i + 1;
    }
    assert(sa =~= sb);
    true
}

/// Whether the range `lo..hi` of `cs` equals `t`.
pub fn range_eq(cs: &Vec<char>, lo: usize, hi: usize, t: &Vec<char>) -> (r: bool)
    requires
        lo <= hi <= cs@.len(),
    ensures
        r == (cs@.subrange(lo as int, hi as int) == t@),
{
    let r = ranges_eq(cs, lo, hi, t, 0, t.len());
    assert(t@.subrange(0, t@.len() as int) =~= t@);
    r
}

/// Whether `t` is a prefix of the range `lo..hi` of `cs`.
pub fn range_starts_with(cs: &Vec<char>, lo: usize, hi: usize, t: &Vec<char>) -> (r: bool)
    requires
        lo <= hi <= cs@.len(),
    ensures
        r == t@.is_prefix_of(cs@.subrange(lo as int, hi as int)),
{
    if hi - lo < t.len() {
        return false;
    }
    let e = lo + t.len();
    let r = range_eq(cs, lo, e, t);
    assert(cs@.subrange(lo as int, hi as int).subrange(0, t@.len() as int) =~= cs@.subrange(
        lo as int,
        e as int,
    ));
    r
}

/// The position of the first `c` in the range `lo..hi` of `cs`.
pub fn find_first(cs: &Vec<char>, lo: usize, hi: usize, c: char) -> (r: Option<usize>)
    requires
        lo <= hi <= cs@.len(),
    ensures
        match r {
            Some(i) => lo <= i < hi && cs@.subrange(lo as int, hi as int).index_of_first(c) == Some(
                i - lo,
            ),
            None => cs@.subrange(lo as int, hi as int).index_of_first(c) is None,
        },
{
    let ghost sub = cs@.subrange(lo as int, hi as int);
    proof {
        sub.index_of_first_ensures(c);
    }
    let mut i = lo;
    while i < hi
        invariant
            lo <= i <= hi <= cs@.len(),
            sub == cs@.subrange(lo as int, hi as int),
            forall|j: int| lo <= j < i ==> cs@[j] != c,
        decreases hi - i,
    {
        if cs[i] == c {
            proof {
                assert(sub[i - lo] == c);
                assert(sub.contains(c));
                sub.index_of_first_ensures(c);
                let idx = sub.index_of_first(c).unwrap();
                assert(sub[idx] == c && cs@[lo + idx] == sub[idx]);
            }
            return Some(i);
        }
        i = i + 1;
    }
    assert(!sub.contains(c));
    None
}

/// The position of the last `c` in the range `lo..hi` of `cs`.
pub fn find_last(cs: &Vec<char>, lo: usize, hi: usize, c: char) -> (r: Option<usize>)
    requires
        lo <= hi <= cs@.len(),
    ensures
        match r {
            Some(i) => lo <= i < hi && cs@.subrange(lo as int, hi as int).index_of_last(c) == Some(
                i - lo,
            ),
            None => cs@.subrange(lo as int, hi as int).index_of_last(c) is None,
        },
{
    let ghost sub = cs@.subrange(lo as int, hi as int);
    proof {
        sub.index_of_last_ensures(c);
    }
    let mut i = hi;
    while i > lo
        invariant
            lo <= i <= hi <= cs@.len(),
            sub == cs@.subrange(lo as int, hi as int),
            forall|j: int| i <= j < hi ==> cs@[j] != c,
        decreases i - lo,
    {
        if cs[i - 1] == c {
            proof {
                assert(sub[i - 1 - lo] == c);
                assert(sub.contains(c));
                sub.index_of_last_ensures(c);
                let idx = sub.index_of_last(c).unwrap();
                assert(sub[idx] == c && cs@[lo + idx] == sub[idx]);
            }
            return Some(i - 1);
        }
        i = i - 1;
    }
    assert(!sub.contains(c));
    None
}

/// Each of the first `n` pairs in `r` bounds, within `cs`, the piece at the same position in `ls`.
pub open spec fn bounds_match(cs: Seq<char>, r: Seq<(usize, usize)>, ls: Seq<Seq<char>>, n: int) -> bool {
    forall|k: int|
        #![trigger r[k]]
        0 <= k < n ==> r[k].0 <= r[k].1 <= cs.len() && cs.subrange(r[k].0 as int, r[k].1 as int)
            == ls[k]
}

proof fn lemma_lines_push(s: Seq<char>, c: char)
    ensures
        lines_of(s.push(c)) == (if c == '\n' {
            lines_of(s).push(Seq::<char>::empty())
        } else {
            lines_of(s).drop_last().push(lines_of(s).last().push(c))
        }),
{
    assert(s.push(c).drop_last() =~= s);
}

proof fn lemma_bounds_close_line(
    cs: Seq<char>,
    r: Seq<(usize, usize)>,
    ls: Seq<Seq<char>>,
    start: usize,
    i: usize,
)
    requires
        bounds_match(cs, r, ls, r.len() as int),
        ls.len() == r.len() + 1,
        start <= i <= cs.len(),
        ls.last() == cs.subrange(start as int, i as int),
    ensures
        bounds_match(cs, r.push((start, i)), ls, r.len() + 1 as int),
{
    let r2 = r.push((start, i));
    assert forall|k: int| 0 <= k < r.len() + 1 implies r2[k].0 <= r2[k].1 <= cs.len()
        && cs.subrange(r2[k].0 as int, r2[k].1 as int) == ls[k] by {
        if k < r.len() {
            assert(r2[k] == r[k]);
        }
    }
}

proof fn lemma_bounds_extend(
    cs: Seq<char>,
    r: Seq<(usize, usize)>,
    ls: Seq<Seq<char>>,
    ls2: Seq<Seq<char>>,
)
    requires
        bounds_match(cs, r, ls, r.len() as int),
        r.len() <= ls.len(),
        r.len() <= ls2.len(),
        forall|k: int| 0 <= k < r.len() ==> ls2[k] == ls[k],
    ensures
        bounds_match(cs, r, ls2, r.len() as int),
{
    assert forall|k: int| 0 <= k < r.len() implies r[k].0 <= r[k].1 <= cs.len()
        && cs.subrange(r[k].0 as int, r[k].1 as int) == ls2[k] by {
        assert(ls2[k] == ls[k]);
    }
}

/// The `(start, end)` bounds in `cs` of each piece of `lines_of(cs@)`.
pub fn line_bounds(cs: &Vec<char>) -> (r: Vec<(usize, usize)>)
    ensures
        r@.len() == lines_of(cs@).len(),
        bounds_match(cs@, r@, lines_of(cs@), r@.len() as int),
{
    let mut r: Vec<(usize, usize)> = Vec::new();
    let mut start: usize = 0;
    let mut i: usize = 0;
    while i < cs.len()
        invariant
            start <= i <= cs@.len(),
            lines_of(cs@.take(i as int)).len() == r@.len() + 1,
            lines_of(cs@.take(i as int)).last() == cs@.subrange(start as int, i as int),
            bounds_match(cs@, r@, lines_of(cs@.take(i as int)), r@.len() as int),
        decreases cs@.len() - i,
    {
        let ghost prev = lines_of(cs@.take(i as int));
        assert(cs@.take(i + 1) =~= cs@.take(i as int).push(cs@[i as int]));
        proof {
            lemma_lines_push(cs@.take(i as int), cs@[i as int]);
        }
        let ghost next = lines_of(cs@.take(i + 1));
        if cs[i] == '\n' {
            proof {
                lemma_bounds_close_line(cs@, r@, prev, start, i);
                lemma_bounds_extend(cs@, r@.push((start, i)), prev, next);
            }
            r.push((start, i));
            assert(cs@.subrange(i + 1, i + 1) =~= Seq::<char>::empty());
            start = i + 1;
        } else {
            proof {
                lemma_bounds_extend(cs@, r@, prev, next);
            }
            assert(cs@.subrange(start as int, i + 1) =~= cs@.subrange(start as int, i as int).push(
                cs@[i as int],
            ));
        }
        i = i + 1;
    }
    assert(cs@.take(cs@.len() as int) =~= cs@);
    proof {
        lemma_bounds_close_line(cs@, r@, lines_of(cs@), start, i);
    }
    r.push((start, i));
    r
}

/// A position holding `x` with no `x` before it is the first position of `x`.
pub proof fn lemma_index_of_first_at<A>(s: Seq<A>, x: A, i: int)
    requires
        0 <= i < s.len(),
        s[i] == x,
        forall|j: int| 0 <= j < i ==> s[j] != x,
    ensures
        s.index_of_first(x) == Some(i),
{
    assert(s.contains(x));
    s.index_of_first_ensures(x);
    let k = s.index_of_first(x).unwrap();
    if k < i {
        assert(s[k] == x);
    }
}

/// A sequence without `x` has no first position of `x`.
pub proof fn lemma_index_of_first_absent<A>(s: Seq<A>, x: A)
    requires
        forall|j: int| 0 <= j < s.len() ==> s[j] != x,
    ensures
        s.index_of_first(x) is None,
{
    s.index_of_first_ensures(x);
    if s.contains(x) {
        let j = choose|j: int| 0 <= j < s.len() && s[j] == x;
        assert(s[j] == x);
    }
}

/// Whether `a` and `b` are the same text.
pub fn str_eq(a: &str, b: &str) -> (r: bool)
    ensures
        r == (a@ == b@),
{
    let x = chars_of(a);
    let y = chars_of(b);
    let r = range_eq(&x, 0, x.len(), &y);
    assert(x@.subrange(0, x@.len() as int) =~= x@);
    r
}

/// The pieces `ls` joined with `'\n'` between consecutive pieces, as
/// `join("\n")` gives it.
pub open spec fn join_lines(ls: Seq<Seq<char>>) -> Seq<char>
    decreases ls.len(),
{
    if ls.len() <= 1 {
        if ls.len() == 0 {
            Seq::empty()
        } else {
            ls[0]
        }
    } else {
        join_lines(ls.drop_last()) + seq!['\n'] + ls.last()
    }
}

proof fn lemma_lines_append_plain(s: Seq<char>, t: Seq<char>)
    requires
        !t.contains('\n'),
    ensures
        lines_of(s + t) == lines_of(s).drop_last().push(lines_of(s).last() + t),
    decreases t.len(),
{
    lemma_lines_nonempty(s);
    if t.len() == 0 {
        assert(s + t =~= s);
        assert(lines_of(s).last() + t =~= lines_of(s).last());
        assert(lines_of(s).drop_last().push(lines_of(s).last()) =~= lines_of(s));
    } else {
        let t0 = t.drop_last();
        let c = t.last();
        assert(!t0.contains('\n')) by {
            if t0.contains('\n') {
                let j = choose|j: int| 0 <= j < t0.len() && t0[j] == '\n';
                assert(t[j] == '\n');
            }
        }
        assert(c != '\n') by {
            assert(t[t.len() - 1] == c);
        }
        lemma_lines_append_plain(s, t0);
        assert(s + t =~= (s + t0).push(c));
        lemma_lines_push(s + t0, c);
        assert(lines_of(s).last() + t =~= (lines_of(s).last() + t0).push(c));
        assert(lines_of(s + t) =~= lines_of(s).drop_last().push(lines_of(s).last() + t));
    }
}

/// There is always at least one piece.
pub proof fn lemma_lines_nonempty(s: Seq<char>)
    ensures
        lines_of(s).len() >= 1,
    decreases s.len(),
{
    if s.len() > 0 {
        lemma_lines_nonempty(s.drop_last());
    }
}

/// Splitting pieces that hold no newline, joined with newlines, gives them back.
pub proof fn lemma_lines_of_join(ls: Seq<Seq<char>>)
    requires
        ls.len() >= 1,
        forall|i: int| 0 <= i < ls.len() ==> !(#[trigger] ls[i]).contains('\n'),
    ensures
        lines_of(join_lines(ls)) == ls,
    decreases ls.len(),
{
    if ls.len() == 1 {
        let e = Seq::<char>::empty();
        assert(lines_of(e) == seq![e]);
        lemma_lines_append_plain(e, ls[0]);
        assert(e + ls[0] =~= ls[0]);
        assert(seq![e].drop_last().push(e + ls[0]) =~= ls);
    } else {
        let prev = ls.drop_last();
        assert forall|i: int| 0 <= i < prev.len() implies !(#[trigger] prev[i]).contains('\n') by {
            assert(prev[i] == ls[i]);
        }
        lemma_lines_of_join(prev);
        let x = join_lines(prev) + seq!['\n'];
        assert(x =~= join_lines(prev).push('\n'));
        lemma_lines_push(join_lines(prev), '\n');
        assert(lines_of(x) == prev.push(Seq::<char>::empty()));
        assert(!ls.last().contains('\n')) by {
            assert(ls[ls.len() - 1] == ls.last());
        }
        lemma_lines_append_plain(x, ls.last());
        assert(Seq::<char>::empty() + ls.last() =~= ls.last());
        assert(prev.push(Seq::<char>::empty()).drop_last() =~= prev);
        assert(prev.push(ls.last()) =~= ls);
    }
}

/// No piece of `lines_of(s)` holds a newline.
pub proof fn lemma_lines_no_newline(s: Seq<char>)
    ensures
        forall|i: int| 0 <= i < lines_of(s).len() ==> !(#[trigger] lines_of(s)[i]).contains('\n'),
    decreases s.len(),
{
    if s.len() > 0 {
        let p = s.drop_last();
        lemma_lines_no_newline(p);
        lemma_lines_nonempty(p);
        let c = s.last();
        assert(p.push(c) =~= s);
        lemma_lines_push(p, c);
        let ls = lines_of(s);
        let lp = lines_of(p);
        assert forall|i: int| 0 <= i < ls.len() implies !(#[trigger] ls[i]).contains('\n') by {
            if c == '\n' {
                if i < lp.len() {
                    assert(ls[i] == lp[i]);
                } else {
                    assert(ls[i] =~= Seq::<char>::empty());
                }
            } else {
                if i < lp.len() - 1 {
                    assert(ls[i] == lp[i]);
                } else {
                    let l = lp.last();
                    assert(ls[i] == l.push(c));
                    assert(!lp[lp.len() - 1].contains('\n'));
                    if l.push(c).contains('\n') {
                        let j = choose|j: int| 0 <= j < l.push(c).len() && l.push(c)[j] == '\n';
                        if j < l.len() {
                            assert(l[j] == '\n');
                        }
                    }
                }
            }
        }
    }
}

proof fn lemma_trim_start_head(s: Seq<char>)
    ensures
        trim_start(s).len() == 0 || !is_ws(trim_start(s)[0]),
    decreases s.len(),
{
    if s.len() > 0 && is_ws(s[0]) {
        lemma_trim_start_head(s.drop_first());
    }
}

proof fn lemma_trim_end_prefix(s: Seq<char>)
    ensures
        trim_end(s).len() <= s.len(),
        trim_end(s) =~= s.take(trim_end(s).len() as int),
        trim_end(s).len() == 0 || !is_ws(trim_end(s).last()),
    decreases s.len(),
{
    if s.len() > 0 && is_ws(s.last()) {
        lemma_trim_end_prefix(s.drop_last());
        let r = trim_end(s.drop_last());
        assert(s.drop_last().take(r.len() as int) =~= s.take(r.len() as int));
    } else {
        assert(s.take(s.len() as int) =~= s);
    }
}

/// Trimming a trimmed text changes nothing.
pub proof fn lemma_trim_idempotent(s: Seq<char>)
    ensures
        trim(trim(s)) == trim(s),
{
    let a = trim_start(s);
    let b = trim_end(a);
    lemma_trim_start_head(s);
    lemma_trim_end_prefix(a);
    if b.len() > 0 {
        assert(b[0] == a[0]);
    }
    lemma_trim_start_fixed(b);
    lemma_trim_end_fixed(b);
}

/// A text whose ends are not whitespace is its own trim.
pub proof fn lemma_trim_fixed(s: Seq<char>)
    requires
        s.len() == 0 || (!is_ws(s[0]) && !is_ws(s.last())),
    ensures
        trim(s) == s,
{
    lemma_trim_start_fixed(s);
    lemma_trim_end_fixed(s);
}

proof fn lemma_trim_start_len(s: Seq<char>)
    ensures
        trim_start(s).len() <= s.len(),
        s.len() > 0 && is_ws(s[0]) ==> trim_start(s).len() < s.len(),
    decreases s.len(),
{
    if s.len() > 0 && is_ws(s[0]) {
        lemma_trim_start_len(s.drop_first());
    }
}

/// A non-empty trimmed text starts and ends with a non-whitespace character.
pub proof fn lemma_trimmed_ends(s: Seq<char>)
    requires
        trim(s) == s,
        s.len() > 0,
    ensures
        !is_ws(s[0]),
        !is_ws(s.last()),
{
    lemma_trim_start_len(s);
    lemma_trim_end_prefix(trim_start(s));
    if !is_ws(s[0]) {
        lemma_trim_start_fixed(s);
        lemma_trim_end_prefix(s.drop_last());
    }
}

/// A position holding `x` with no `x` after it is the last position of `x`.
pub proof fn lemma_index_of_last_at<A>(s: Seq<A>, x: A, i: int)
    requires
        0 <= i < s.len(),
        s[i] == x,
        forall|j: int| i < j < s.len() ==> s[j] != x,
    ensures
        s.index_of_last(x) == Some(i),
{
    assert(s.contains(x));
    s.index_of_last_ensures(x);
    let k = s.index_of_last(x).unwrap();
    if k > i {
        assert(s[k] == x);
    }
}

} // verus!

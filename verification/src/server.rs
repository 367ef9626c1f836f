//! The companion's decision: whether the app configuration asks for a
//! package's process to be spoofed.
use vstd::prelude::*;
use crate::names::{
    is_android_package_name_spec, is_rule_package, is_rule_package_range, is_valid_process,
    is_valid_process_range,
};
use crate::text::{
    bounds_match, chars_of, find_first, join_lines, lemma_index_of_first_absent, lemma_lines_no_newline,
    lemma_lines_of_join, lemma_trim_fixed,
    line_bounds, lines_of, range_eq, range_starts_with, split_once, trim, trim_bounds,
};

verus! {

/// A rule line names this package, and this process when it names one: a
/// `package` line covers every process of the package, a `package|process`
/// line covers that process only, and `package|` covers every process.
pub open spec fn line_matches(line: Seq<char>, package: Seq<char>, process: Seq<char>) -> bool {
    let l = trim(line);
    &&& is_rule_package(package)
    &&& l.len() > 0
    &&& l[0] != '#'
    &&& match split_once(l, '|') {
        Some((a, b)) => {
            let a = trim(a);
            let b = trim(b);
            &&& a == package
            &&& is_rule_package(a)
            &&& (b.len() == 0 || (b == process && is_valid_process(a, b)))
        },
        None => l == package && is_rule_package(l),
    }
}

/// A trimmed line of the app configuration that holds no rule: blank, a
/// comment, or one of the `profile=`, `observe=` and `auto_scan=` settings.
pub open spec fn rule_skipped(l: Seq<char>) -> bool {
    ||| l.len() == 0
    ||| l[0] == '#'
    ||| "profile="@.is_prefix_of(l)
    ||| "observe="@.is_prefix_of(l)
    ||| "auto_scan="@.is_prefix_of(l)
}

/// A trimmed rule line that starts with `-` denies what it names.
pub open spec fn rule_is_deny(l: Seq<char>) -> bool {
    l.len() > 0 && l[0] == '-'
}

/// The part of a trimmed rule line that names packages and processes.
pub open spec fn rule_target(l: Seq<char>) -> Seq<char> {
    if rule_is_deny(l) {
        l.drop_first()
    } else {
        l
    }
}

/// The configuration line `raw` is a rule that covers this package and process.
pub open spec fn rule_applies(raw: Seq<char>, package: Seq<char>, process: Seq<char>) -> bool {
    let l = trim(raw);
    !rule_skipped(l) && line_matches(rule_target(l), package, process)
}

/// The configuration line `raw` allows this package and process.
pub open spec fn rule_allows(raw: Seq<char>, package: Seq<char>, process: Seq<char>) -> bool {
    rule_applies(raw, package, process) && !rule_is_deny(trim(raw))
}

/// The configuration line `raw` denies this package and process.
pub open spec fn rule_denies(raw: Seq<char>, package: Seq<char>, process: Seq<char>) -> bool {
    rule_applies(raw, package, process) && rule_is_deny(trim(raw))
}

/// The verdict of an app configuration for a package and process: the
/// package is a valid rule package, some line allows it and no line denies it.
pub open spec fn rule_verdict(content: Seq<char>, package: Seq<char>, process: Seq<char>) -> bool {
    let ls = lines_of(content);
    &&& is_rule_package(package)
    &&& exists|i: int| 0 <= i < ls.len() && #[trigger] rule_allows(ls[i], package, process)
    &&& !exists|i: int| 0 <= i < ls.len() && #[trigger] rule_denies(ls[i], package, process)
}

/// Whether the rule in the range `lo..hi` of `cs` matches `package` and `process`.
fn matches_range(
    cs: &Vec<char>,
    lo: usize,
    hi: usize,
    package: &Vec<char>,
    process: &Vec<char>,
) -> (r: bool)
    requires
        lo <= hi <= cs@.len(),
    ensures
        r == line_matches(cs@.subrange(lo as int, hi as int), package@, process@),
{
    let ghost line = cs@.subrange(lo as int, hi as int);
    assert(package@.subrange(0, package@.len() as int) =~= package@);
    assert(process@.subrange(0, process@.len() as int) =~= process@);
    if !is_rule_package_range(package, 0, package.len()) {
        return false;
    }
    let (a, b) = trim_bounds(cs, lo, hi);
    let ghost l = cs@.subrange(a as int, b as int);
    if a == b || cs[a] == '#' {
        return false;
    }
    match find_first(cs, a, b, '|') {
        Some(bar) => {
            assert(l.take(bar - a) =~= cs@.subrange(a as int, bar as int));
            assert(l.skip(bar - a + 1) =~= cs@.subrange(bar + 1, b as int));
            let (pa, pb) = trim_bounds(cs, a, bar);
            let (qa, qb) = trim_bounds(cs, bar + 1, b);
            if !range_eq(cs, pa, pb, package) {
                return false;
            }
            if !is_rule_package_range(cs, pa, pb) {
                return false;
            }
            if qa == qb {
                return true;
            }
            range_eq(cs, qa, qb, process) && is_valid_process_range(cs, pa, pb, cs, qa, qb)
        },
        None => { range_eq(cs, a, b, package) && is_rule_package_range(cs, a, b) },
    }
}

/// Whether the rule `line` names `package_name`, and `process_name` when it
/// names a process.
pub fn matches_line(line: &str, package_name: &str, process_name: &str) -> (r: bool)
    ensures
        r == line_matches(line@, package_name@, process_name@),
{
    let cs = chars_of(line);
    let package = chars_of(package_name);
    let process = chars_of(process_name);
    assert(cs@.subrange(0, cs@.len() as int) =~= cs@);
    matches_range(&cs, 0, cs.len(), &package, &process)
}

/// Whether the rule line in the range `lo..hi` of `cs` applies, and whether it denies.
fn classify_rule(
    cs: &Vec<char>,
    lo: usize,
    hi: usize,
    package: &Vec<char>,
    process: &Vec<char>,
) -> (r: (bool, bool))
    requires
        lo <= hi <= cs@.len(),
    ensures
        r.0 == rule_applies(cs@.subrange(lo as int, hi as int), package@, process@),
        r.1 == rule_is_deny(trim(cs@.subrange(lo as int, hi as int))),
{
    let (a, b) = trim_bounds(cs, lo, hi);
    let ghost l = cs@.subrange(a as int, b as int);
    let deny = a < b && cs[a] == '-';
    if a == b || cs[a] == '#' || range_starts_with(cs, a, b, &chars_of("profile="))
        || range_starts_with(cs, a, b, &chars_of("observe=")) || range_starts_with(
        cs,
        a,
        b,
        &chars_of("auto_scan="),
    ) {
        return (false, deny);
    }
    let start = if deny {
        a + 1
    } else {
        a
    };
    assert(rule_target(l) =~= cs@.subrange(start as int, b as int));
    (matches_range(cs, start, b, package, process), deny)
}

/// The verdict of the app configuration `content` for a package and
/// process: false unless the package is a valid package name other than `android`, some rule allows it and no
/// rule (`-` line) denies it. Blank lines, comments and the `profile=`,
/// `observe=` and `auto_scan=` settings hold no rule.
pub fn resolve_rule(content: &str, package_name: &str, process_name: &str) -> (r: bool)
    ensures
        r == rule_verdict(content@, package_name@, process_name@),
{
    let package = chars_of(package_name);
    let process = chars_of(process_name);
    assert(package@.subrange(0, package@.len() as int) =~= package@);
    if !is_rule_package_range(&package, 0, package.len()) {
        return false;
    }
    let cs = chars_of(content);
    let bounds = line_bounds(&cs);
    let ghost ls = lines_of(cs@);
    let mut allowed = false;
    let mut denied = false;
    let mut i: usize = 0;
    while i < bounds.len()
        invariant
            cs@ == content@,
            package@ == package_name@,
            process@ == process_name@,
            ls == lines_of(cs@),
            bounds@.len() == ls.len(),
            bounds_match(cs@, bounds@, ls, bounds@.len() as int),
            i <= bounds@.len(),
            allowed == exists|j: int| 0 <= j < i && #[trigger] rule_allows(ls[j], package@, process@),
            denied == exists|j: int| 0 <= j < i && #[trigger] rule_denies(ls[j], package@, process@),
        decreases bounds@.len() - i,
    {
        let (lo, hi) = bounds[i];
        assert(cs@.subrange(lo as int, hi as int) == ls[i as int]);
        let (applies, deny) = classify_rule(&cs, lo, hi, &package, &process);
        if applies {
            if deny {
                denied = true;
            } else {
                allowed = true;
            }
        }
        assert(rule_allows(ls[i as int], package@, process@) == (applies && !deny));
        assert(rule_denies(ls[i as int], package@, process@) == (applies && deny));
        i = i + 1;
    }
    allowed && !denied
}

/// The companion's verdict given the app configuration as read, `None`
/// when there is none: without a configuration nothing is spoofed.
pub fn check_config(content: Option<&str>, package_name: &str, process_name: &str) -> (r: bool)
    ensures
        r == match content {
            Some(c) => rule_verdict(c@, package_name@, process_name@),
            None => false,
        },
{
    match content {
        Some(c) => resolve_rule(c, package_name, process_name),
        None => false,
    }
}

/// A line that denies a package and process decides the verdict, wherever it
/// stands and whatever other lines allow.
pub proof fn lemma_deny_wins(content: Seq<char>, package: Seq<char>, process: Seq<char>, i: int)
    requires
        0 <= i < lines_of(content).len(),
        rule_denies(lines_of(content)[i], package, process),
    ensures
        !rule_verdict(content, package, process),
{
}

/// Only a syntactically valid package other than `android` is ever spoofed.
pub proof fn lemma_verdict_only_rule_packages(content: Seq<char>, package: Seq<char>, process: Seq<char>)
    requires
        rule_verdict(content, package, process),
    ensures
        is_rule_package(package),
{
}

/// Some line of `content`, trimmed, is `t`.
pub open spec fn has_trimmed_line(content: Seq<char>, t: Seq<char>) -> bool {
    exists|i: int| 0 <= i < lines_of(content).len() && trim(#[trigger] lines_of(content)[i]) == t
}

/// The line `raw` denies (when `deny`) or allows (otherwise) this package and process.
pub open spec fn rule_acts(raw: Seq<char>, package: Seq<char>, process: Seq<char>, deny: bool) -> bool {
    if deny {
        rule_denies(raw, package, process)
    } else {
        rule_allows(raw, package, process)
    }
}

/// A line that allows (or denies) in `c1` has a counterpart that does the
/// same in `c2`, when every non-blank trimmed line of `c1` is one of `c2`.
proof fn lemma_rule_line_transfer(
    c1: Seq<char>,
    c2: Seq<char>,
    package: Seq<char>,
    process: Seq<char>,
    deny: bool,
)
    requires
        forall|t: Seq<char>|
            t.len() > 0 && #[trigger] has_trimmed_line(c1, t) ==> has_trimmed_line(c2, t),
    ensures
        (exists|i: int|
            0 <= i < lines_of(c1).len() && #[trigger] rule_acts(lines_of(c1)[i], package, process, deny))
            ==> (exists|j: int|
            0 <= j < lines_of(c2).len() && #[trigger] rule_acts(lines_of(c2)[j], package, process, deny)),
{
    let l1 = lines_of(c1);
    let l2 = lines_of(c2);
    if exists|i: int| 0 <= i < l1.len() && #[trigger] rule_acts(l1[i], package, process, deny) {
        let i = choose|i: int| 0 <= i < l1.len() && #[trigger] rule_acts(l1[i], package, process, deny);
        let t = trim(l1[i]);
        assert(t.len() > 0);
        assert(has_trimmed_line(c1, t));
        let j = choose|j: int| 0 <= j < l2.len() && trim(#[trigger] l2[j]) == t;
        assert(rule_acts(l2[j], package, process, deny));
    }
}

/// The verdict depends only on the non-blank lines, each taken trimmed: two
/// configurations holding the same such lines, in whatever order, however
/// often, and whatever blank lines, surrounding whitespace or line endings
/// (`\r\n` included) stand around them, give the same verdict.
pub proof fn lemma_verdict_same_rule_lines(
    c1: Seq<char>,
    c2: Seq<char>,
    package: Seq<char>,
    process: Seq<char>,
)
    requires
        forall|t: Seq<char>|
            t.len() > 0 ==> (#[trigger] has_trimmed_line(c1, t) <==> has_trimmed_line(c2, t)),
    ensures
        rule_verdict(c1, package, process) == rule_verdict(c2, package, process),
{
    lemma_rule_line_transfer(c1, c2, package, process, false);
    lemma_rule_line_transfer(c2, c1, package, process, false);
    lemma_rule_line_transfer(c1, c2, package, process, true);
    lemma_rule_line_transfer(c2, c1, package, process, true);
    lemma_acts_exists(lines_of(c1), package, process);
    lemma_acts_exists(lines_of(c2), package, process);
}

proof fn lemma_acts_exists(ls: Seq<Seq<char>>, package: Seq<char>, process: Seq<char>)
    ensures
        (exists|i: int| 0 <= i < ls.len() && #[trigger] rule_allows(ls[i], package, process)) == (
        exists|i: int| 0 <= i < ls.len() && #[trigger] rule_acts(ls[i], package, process, false)),
        (exists|i: int| 0 <= i < ls.len() && #[trigger] rule_denies(ls[i], package, process)) == (
        exists|i: int| 0 <= i < ls.len() && #[trigger] rule_acts(ls[i], package, process, true)),
{
    if exists|i: int| 0 <= i < ls.len() && #[trigger] rule_allows(ls[i], package, process) {
        let i = choose|i: int| 0 <= i < ls.len() && #[trigger] rule_allows(ls[i], package, process);
        assert(rule_acts(ls[i], package, process, false));
    }
    if exists|i: int| 0 <= i < ls.len() && #[trigger] rule_acts(ls[i], package, process, false) {
        let i = choose|i: int| 0 <= i < ls.len() && #[trigger] rule_acts(ls[i], package, process, false);
        assert(rule_allows(ls[i], package, process));
    }
    if exists|i: int| 0 <= i < ls.len() && #[trigger] rule_denies(ls[i], package, process) {
        let i = choose|i: int| 0 <= i < ls.len() && #[trigger] rule_denies(ls[i], package, process);
        assert(rule_acts(ls[i], package, process, true));
    }
    if exists|i: int| 0 <= i < ls.len() && #[trigger] rule_acts(ls[i], package, process, true) {
        let i = choose|i: int| 0 <= i < ls.len() && #[trigger] rule_acts(ls[i], package, process, true);
        assert(rule_denies(ls[i], package, process));
    }
}

/// The order of rule lines never matters: the lines of a configuration,
/// rearranged in any order and joined with newlines, give the same verdict.
pub proof fn lemma_verdict_order_independent(
    content: Seq<char>,
    lines: Seq<Seq<char>>,
    package: Seq<char>,
    process: Seq<char>,
)
    requires
        lines.to_multiset() == lines_of(content).to_multiset(),
    ensures
        rule_verdict(join_lines(lines), package, process) == rule_verdict(content, package, process),
{
    let orig = lines_of(content);
    lines.to_multiset_ensures();
    orig.to_multiset_ensures();
    lemma_lines_no_newline(content);
    assert(lines.len() == orig.len());
    crate::text::lemma_lines_nonempty(content);
    assert forall|i: int| 0 <= i < lines.len() implies !(#[trigger] lines[i]).contains('\n') by {
        assert(lines.contains(lines[i]));
        assert(lines.to_multiset().count(lines[i]) > 0);
        assert(orig.contains(lines[i]));
        let j = choose|j: int| 0 <= j < orig.len() && orig[j] == lines[i];
        assert(!orig[j].contains('\n'));
    }
    lemma_lines_of_join(lines);
    let joined = join_lines(lines);
    assert forall|t: Seq<char>|
        t.len() > 0 implies (#[trigger] has_trimmed_line(joined, t) <==> has_trimmed_line(
        content,
        t,
    )) by {
        if has_trimmed_line(joined, t) {
            let i = choose|i: int| 0 <= i < lines.len() && trim(#[trigger] lines_of(joined)[i]) == t;
            assert(lines.contains(lines[i]));
            assert(lines.to_multiset().count(lines[i]) > 0);
            let j = choose|j: int| 0 <= j < orig.len() && orig[j] == lines[i];
            assert(trim(orig[j]) == t);
        }
        if has_trimmed_line(content, t) {
            let j = choose|j: int| 0 <= j < orig.len() && trim(#[trigger] orig[j]) == t;
            assert(orig.contains(orig[j]));
            assert(orig.to_multiset().count(orig[j]) > 0);
            let i = choose|i: int| 0 <= i < lines.len() && lines[i] == orig[j];
            assert(trim(lines_of(joined)[i]) == t);
        }
    }
    lemma_verdict_same_rule_lines(joined, content, package, process);
}

/// A configuration made of one line naming a syntactically valid package
/// (first character an ASCII letter, non-empty dot-separated segments of
/// ASCII letters of either case, digits and `_`, at least two segments,
/// other than `android`) allows that package's main process.
pub proof fn lemma_single_package_line_allows(p: Seq<char>)
    requires
        p.len() > 0,
        ('a' <= p[0] && p[0] <= 'z') || ('A' <= p[0] && p[0] <= 'Z'),
        forall|i: int|
            0 <= i < p.len() ==> ('a' <= #[trigger] p[i] && p[i] <= 'z') || ('A' <= p[i] && p[i]
                <= 'Z') || ('0' <= p[i] && p[i] <= '9') || p[i] == '_' || p[i] == '.',
        p.contains('.'),
        forall|i: int| 0 <= i < p.len() - 1 ==> !(#[trigger] p[i] == '.' && p[i + 1] == '.'),
        p.last() != '.',
        p != "android"@,
    ensures
        rule_verdict(p + seq!['\n'], p, p),
{
    reveal_strlit("profile=");
    reveal_strlit("observe=");
    reveal_strlit("auto_scan=");
    let e = Seq::<char>::empty();
    let ls = seq![p, e];
    assert(!p.contains('\n')) by {
        if p.contains('\n') {
            let j = choose|j: int| 0 <= j < p.len() && p[j] == '\n';
            assert(p[j] == '\n');
        }
    }
    assert(ls.drop_last() =~= seq![p]);
    assert(join_lines(seq![p]) == p);
    assert(join_lines(ls) =~= p + seq!['\n']);
    assert forall|i: int| 0 <= i < ls.len() implies !(#[trigger] ls[i]).contains('\n') by {}
    lemma_lines_of_join(ls);
    assert(lines_of(p + seq!['\n']) == ls);
    assert(p[p.len() - 1] == p.last());
    lemma_trim_fixed(p);
    assert(is_android_package_name_spec(p));
    assert(is_rule_package(p));
    assert(!rule_skipped(p)) by {
        if "profile="@.is_prefix_of(p) {
            assert(p[7] == "profile="@[7]);
        }
        if "observe="@.is_prefix_of(p) {
            assert(p[7] == "observe="@[7]);
        }
        if "auto_scan="@.is_prefix_of(p) {
            assert(p[9] == "auto_scan="@[9]);
        }
    }
    assert forall|i: int| 0 <= i < p.len() implies p[i] != '|' by {
        assert(('a' <= p[i] && p[i] <= 'z') || ('A' <= p[i] && p[i] <= 'Z') || ('0' <= p[i] && p[i]
            <= '9') || p[i] == '_' || p[i] == '.');
    }
    lemma_index_of_first_absent(p, '|');
    assert(line_matches(p, p, p));
    assert(rule_allows(ls[0], p, p));
    assert(trim(e) =~= e);
    assert forall|i: int| 0 <= i < ls.len() implies !#[trigger] rule_denies(ls[i], p, p) by {
        if i == 1 {
            assert(ls[1] == e);
        }
    }
}

} // verus!

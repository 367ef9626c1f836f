//! Package and process name rules: which packages the module may manage and
//! which process names belong to a package.
use vstd::prelude::*;
use crate::text::{chars_of, range_starts_with, ranges_eq, trim, trim_bounds};

verus! {

/// An ASCII letter.
pub open spec fn is_ascii_letter(c: char) -> bool {
    ('a' <= c && c <= 'z') || ('A' <= c && c <= 'Z')
}

/// A character allowed inside a package-name segment: ASCII letter, digit or `_`.
pub open spec fn is_package_char_spec(c: char) -> bool {
    is_ascii_letter(c) || ('0' <= c && c <= '9') || c == '_'
}

/// A syntactically valid Android package name: dot-separated segments, at
/// least two of them, none empty, the first starting with an ASCII letter,
/// every character a package character.
pub open spec fn is_android_package_name_spec(s: Seq<char>) -> bool {
    &&& s.len() > 0
    &&& is_ascii_letter(s[0])
    &&& forall|i: int| 0 <= i < s.len() ==> is_package_char_spec(#[trigger] s[i]) || s[i] == '.'
    &&& s.contains('.')
    &&& forall|i: int| 0 <= i < s.len() - 1 ==> !(#[trigger] s[i] == '.' && s[i + 1] == '.')
    &&& s.last() != '.'
}

/// The package prefixes of the platform and of the Xiaomi family, which the
/// module never manages.
pub open spec fn has_denied_prefix(t: Seq<char>) -> bool {
    ||| "android."@.is_prefix_of(t)
    ||| "com.android."@.is_prefix_of(t)
    ||| "com.google.android."@.is_prefix_of(t)
    ||| "com.mi."@.is_prefix_of(t)
    ||| "com.miui."@.is_prefix_of(t)
    ||| "com.milink."@.is_prefix_of(t)
    ||| "com.mipay."@.is_prefix_of(t)
    ||| "com.xiaomi."@.is_prefix_of(t)
    ||| "miui."@.is_prefix_of(t)
}

/// A package an app-configuration rule may name: after trimming, a valid
/// package name other than `android`. Rules are syntax-based, so vendor and
/// system packages that a user lists explicitly are accepted.
pub open spec fn is_rule_package(s: Seq<char>) -> bool {
    let t = trim(s);
    t != "android"@ && is_android_package_name_spec(t)
}

/// A package the module manages on its own: a rule package with none of the
/// platform or Xiaomi-family prefixes.
pub open spec fn is_managed(s: Seq<char>) -> bool {
    is_rule_package(s) && !has_denied_prefix(trim(s))
}

/// The part of a process name after `package:`: non-empty, made of package
/// characters, `.` and `-`.
pub open spec fn is_process_suffix_spec(s: Seq<char>) -> bool {
    &&& s.len() > 0
    &&& forall|i: int|
        0 <= i < s.len() ==> is_package_char_spec(#[trigger] s[i]) || s[i] == '.' || s[i] == '-'
}

/// `process` (trimmed) names a process of `package`: the package itself, or
/// `package:suffix` with a valid suffix.
pub open spec fn is_valid_process(package: Seq<char>, process: Seq<char>) -> bool {
    let p = trim(process);
    ||| p == package
    ||| package.push(':').is_prefix_of(p) && is_process_suffix_spec(p.skip(package.len() + 1 as int))
}

/// Whether `c` may stand inside a package-name segment.
pub fn is_package_char(c: char) -> (r: bool)
    ensures
        r == is_package_char_spec(c),
{
    ('a' <= c && c <= 'z') || ('A' <= c && c <= 'Z') || ('0' <= c && c <= '9') || c == '_'
}

/// Whether the range `lo..hi` of `cs` is a valid Android package name.
pub fn is_android_package_name(cs: &Vec<char>, lo: usize, hi: usize) -> (r: bool)
    requires
        lo <= hi <= cs@.len(),
    ensures
        r == is_android_package_name_spec(cs@.subrange(lo as int, hi as int)),
{
    let ghost s = cs@.subrange(lo as int, hi as int);
    if lo == hi {
        return false;
    }
    let first = cs[lo];
    if !(('a' <= first && first <= 'z') || ('A' <= first && first <= 'Z')) {
        return false;
    }
    let mut seen_dot = false;
    let mut prev_dot = false;
    let mut i = lo;
    while i < hi
        invariant
            lo < hi <= cs@.len(),
            lo <= i <= hi,
            s == cs@.subrange(lo as int, hi as int),
            is_ascii_letter(s[0]),
            forall|j: int| 0 <= j < i - lo ==> is_package_char_spec(#[trigger] s[j]) || s[j] == '.',
            forall|j: int| 0 <= j < i - lo - 1 ==> !(#[trigger] s[j] == '.' && s[j + 1] == '.'),
            prev_dot == (i > lo && s[i - lo - 1] == '.'),
            seen_dot == (exists|j: int| 0 <= j < i - lo && #[trigger] s[j] == '.'),
        decreases hi - i,
    {
        let c = cs[i];
        assert(s[i - lo] == c);
        if c == '.' {
            if prev_dot {
                assert(s[i - lo - 1] == '.' && s[i - lo] == '.');
                return false;
            }
            seen_dot = true;
            prev_dot = true;
        } else if is_package_char(c) {
            prev_dot = false;
        } else {
            return false;
        }
        i = i + 1;
    }
    if !seen_dot {
        assert(!s.contains('.'));
        return false;
    }
    if prev_dot {
        return false;
    }
    true
}

/// Whether the range `lo..hi` of `cs` is a non-empty run of package
/// characters, `.` and `-`.
pub fn is_process_suffix(cs: &Vec<char>, lo: usize, hi: usize) -> (r: bool)
    requires
        lo <= hi <= cs@.len(),
    ensures
        r == is_process_suffix_spec(cs@.subrange(lo as int, hi as int)),
{
    let ghost s = cs@.subrange(lo as int, hi as int);
    if lo == hi {
        return false;
    }
    let mut i = lo;
    while i < hi
        invariant
            lo <= i <= hi <= cs@.len(),
            s == cs@.subrange(lo as int, hi as int),
            forall|j: int|
                0 <= j < i - lo ==> is_package_char_spec(#[trigger] s[j]) || s[j] == '.' || s[j]
                    == '-',
        decreases hi - i,
    {
        let c = cs[i];
        assert(s[i - lo] == c);
        if !(is_package_char(c) || c == '.' || c == '-') {
            return false;
        }
        i = i + 1;
    }
    true
}

/// Whether the trimmed range `a..b` of `cs` is a valid package name other than `android`.
fn is_rule_package_trimmed(cs: &Vec<char>, a: usize, b: usize) -> (r: bool)
    requires
        a <= b <= cs@.len(),
    ensures
        r == (cs@.subrange(a as int, b as int) != "android"@ && is_android_package_name_spec(
            cs@.subrange(a as int, b as int),
        )),
{
    let android = chars_of("android");
    assert(android@.subrange(0, android@.len() as int) =~= android@);
    if ranges_eq(cs, a, b, &android, 0, android.len()) {
        return false;
    }
    is_android_package_name(cs, a, b)
}

/// Whether the range `lo..hi` of `cs` is a package an app-configuration rule may name.
pub fn is_rule_package_range(cs: &Vec<char>, lo: usize, hi: usize) -> (r: bool)
    requires
        lo <= hi <= cs@.len(),
    ensures
        r == is_rule_package(cs@.subrange(lo as int, hi as int)),
{
    let (a, b) = trim_bounds(cs, lo, hi);
    is_rule_package_trimmed(cs, a, b)
}

/// Whether the range `lo..hi` of `cs` names a package the module manages on its own.
pub fn is_managed_range(cs: &Vec<char>, lo: usize, hi: usize) -> (r: bool)
    requires
        lo <= hi <= cs@.len(),
    ensures
        r == is_managed(cs@.subrange(lo as int, hi as int)),
{
    let (a, b) = trim_bounds(cs, lo, hi);
    if !is_rule_package_trimmed(cs, a, b) {
        return false;
    }
    let denied = range_starts_with(cs, a, b, &chars_of("android.")) || range_starts_with(
        cs,
        a,
        b,
        &chars_of("com.android."),
    ) || range_starts_with(cs, a, b, &chars_of("com.google.android.")) || range_starts_with(
        cs,
        a,
        b,
        &chars_of("com.mi."),
    ) || range_starts_with(cs, a, b, &chars_of("com.miui.")) || range_starts_with(
        cs,
        a,
        b,
        &chars_of("com.milink."),
    ) || range_starts_with(cs, a, b, &chars_of("com.mipay.")) || range_starts_with(
        cs,
        a,
        b,
        &chars_of("com.xiaomi."),
    ) || range_starts_with(cs, a, b, &chars_of("miui."));
    !denied
}

/// Whether the range `qlo..qhi` of `qs`, trimmed, names a process of the
/// package in the range `plo..phi` of `ps`.
pub fn is_valid_process_range(
    ps: &Vec<char>,
    plo: usize,
    phi: usize,
    qs: &Vec<char>,
    qlo: usize,
    qhi: usize,
) -> (r: bool)
    requires
        plo <= phi <= ps@.len(),
        qlo <= qhi <= qs@.len(),
    ensures
        r == is_valid_process(ps@.subrange(plo as int, phi as int), qs@.subrange(qlo as int, qhi as int)),
{
    let ghost pkg = ps@.subrange(plo as int, phi as int);
    let (a, b) = trim_bounds(qs, qlo, qhi);
    let ghost p = qs@.subrange(a as int, b as int);
    if ranges_eq(qs, a, b, ps, plo, phi) {
        return true;
    }
    let n = phi - plo;
    if b - a <= n {
        return false;
    }
    if !ranges_eq(qs, a, a + n, ps, plo, phi) || qs[a + n] != ':' {
        proof {
            if pkg.push(':').is_prefix_of(p) {
                let pp = pkg.push(':');
                assert(pp =~= p.subrange(0, n + 1));
                assert(pp[n as int] == ':');
                assert(p[n as int] == qs@[a + n]);
                assert(pp.subrange(0, n as int) =~= pkg);
                assert(qs@.subrange(a as int, a + n) =~= p.subrange(0, n + 1).subrange(0, n as int));
            }
        }
        return false;
    }
    assert(pkg.push(':') =~= p.subrange(0, n + 1));
    assert(p.skip(n + 1) =~= qs@.subrange(a + n + 1, b as int));
    is_process_suffix(qs, a + n + 1, b)
}

/// Whether the module may manage `package_name`: a syntactically valid
/// package name that is neither `android` nor under a platform or Xiaomi
/// family prefix.
pub fn is_managed_package(package_name: &str) -> (r: bool)
    ensures
        r == is_managed(package_name@),
{
    let cs = chars_of(package_name);
    assert(cs@.subrange(0, cs@.len() as int) =~= cs@);
    is_managed_range(&cs, 0, cs.len())
}

/// Whether `process_name` (trimmed) is `package_name` or one of its
/// `package_name:suffix` processes.
pub fn is_valid_process_name(package_name: &str, process_name: &str) -> (r: bool)
    ensures
        r == is_valid_process(package_name@, process_name@),
{
    let ps = chars_of(package_name);
    let qs = chars_of(process_name);
    assert(ps@.subrange(0, ps@.len() as int) =~= ps@);
    assert(qs@.subrange(0, qs@.len() as int) =~= qs@);
    is_valid_process_range(&ps, 0, ps.len(), &qs, 0, qs.len())
}

/// The characters of a package-name segment are exactly the ASCII letters
/// of either case, the ASCII digits and `_`.
pub proof fn lemma_package_chars(c: char)
    ensures
        is_package_char_spec(c) <==> (('a' <= c && c <= 'z') || ('A' <= c && c <= 'Z') || ('0' <= c
            && c <= '9') || c == '_'),
{
}

/// A name under any of the platform or Xiaomi-family prefixes is never
/// managed; a valid package name other than `android` under none of them
/// always is.
pub proof fn lemma_denied_prefixes(s: Seq<char>)
    ensures
        "android."@.is_prefix_of(trim(s)) ==> !is_managed(s),
        "com.android."@.is_prefix_of(trim(s)) ==> !is_managed(s),
        "com.google.android."@.is_prefix_of(trim(s)) ==> !is_managed(s),
        "com.mi."@.is_prefix_of(trim(s)) ==> !is_managed(s),
        "com.miui."@.is_prefix_of(trim(s)) ==> !is_managed(s),
        "com.milink."@.is_prefix_of(trim(s)) ==> !is_managed(s),
        "com.mipay."@.is_prefix_of(trim(s)) ==> !is_managed(s),
        "com.xiaomi."@.is_prefix_of(trim(s)) ==> !is_managed(s),
        "miui."@.is_prefix_of(trim(s)) ==> !is_managed(s),
        is_rule_package(s) && !(
            "android."@.is_prefix_of(trim(s)) ||
            "com.android."@.is_prefix_of(trim(s)) ||
            "com.google.android."@.is_prefix_of(trim(s)) ||
            "com.mi."@.is_prefix_of(trim(s)) ||
            "com.miui."@.is_prefix_of(trim(s)) ||
            "com.milink."@.is_prefix_of(trim(s)) ||
            "com.mipay."@.is_prefix_of(trim(s)) ||
            "com.xiaomi."@.is_prefix_of(trim(s)) ||
            "miui."@.is_prefix_of(trim(s))
        ) ==> is_managed(s),
{
}

} // verus!

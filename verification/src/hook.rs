//! What the replaced `SystemProperties` getters answer: the spoofed value of
//! a key, its typed readings, the keys seen so far, and the handles that the
//! handle-based getters hand out for spoofed values.
use vstd::prelude::*;
use crate::config::{entries_view, lookup};
use crate::text::{chars_of, lemma_index_of_first_absent, lemma_index_of_first_at, trim, trim_bounds};

verus! {

broadcast use vstd::string::group_string_axioms;

/// The spoofed value of `key`: the value of its first entry in `props`.
pub fn spoofed_value<'a>(props: &'a Vec<(String, String)>, key: &str) -> (r: Option<&'a str>)
    ensures
        match r {
            Some(v) => lookup(entries_view(props@), key@) == Some(v@),
            None => lookup(entries_view(props@), key@) is None,
        },
{
    let ghost ks = crate::config::keys(entries_view(props@));
    let name = key.to_owned();
    let mut i: usize = 0;
    while i < props.len()
        invariant
            i <= props@.len(),
            ks == crate::config::keys(entries_view(props@)),
            ks.len() == props@.len(),
            name@ == key@,
            forall|j: int| 0 <= j < i ==> ks[j] != key@,
        decreases props@.len() - i,
    {
        if props[i].0 == name {
            proof {
                lemma_index_of_first_at(ks, key@, i as int);
            }
            return Some(props[i].1.as_str());
        }
        i = i + 1;
    }
    proof {
        lemma_index_of_first_absent(ks, key@);
    }
    None
}

/// An ASCII decimal digit.
pub open spec fn is_digit(c: char) -> bool {
    '0' <= c && c <= '9'
}

/// The value of an ASCII decimal digit.
pub open spec fn digit_value(c: char) -> int {
    (c as u32) - 48
}

/// The value of a run of decimal digits, most significant first.
pub open spec fn digits_value(s: Seq<char>) -> int
    decreases s.len(),
{
    if s.len() == 0 {
        0
    } else {
        digits_value(s.drop_last()) * 10 + digit_value(s.last())
    }
}

/// A text starts with a `-` sign.
pub open spec fn sign_negative(s: Seq<char>) -> bool {
    s.len() > 0 && s[0] == '-'
}

/// A text without its leading sign, if any.
pub open spec fn unsigned_part(s: Seq<char>) -> Seq<char> {
    if s.len() > 0 && (s[0] == '-' || s[0] == '+') {
        s.drop_first()
    } else {
        s
    }
}

/// The integer a text denotes as `str::parse` reads one: an optional `+` or
/// `-` sign, then one or more ASCII digits and nothing else.
pub open spec fn decimal_value(s: Seq<char>) -> Option<int> {
    let ds = unsigned_part(s);
    if ds.len() > 0 && (forall|i: int| 0 <= i < ds.len() ==> is_digit(#[trigger] ds[i])) {
        Some(
            if sign_negative(s) {
                -digits_value(ds)
            } else {
                digits_value(ds)
            },
        )
    } else {
        None
    }
}

/// `c` reads as the lowercase letter or digit `l` when ASCII case is ignored.
pub open spec fn ascii_ieq(c: char, l: char) -> bool {
    c == l || (('A' <= c && c <= 'Z') && (c as u32) + 32 == (l as u32))
}

/// `s` spells `lit` (written in lowercase) when ASCII case is ignored, as
/// `to_ascii_lowercase` followed by a comparison decides it.
pub open spec fn ieq_lit(s: Seq<char>, lit: Seq<char>) -> bool {
    s.len() == lit.len() && forall|i: int| 0 <= i < s.len() ==> ascii_ieq(#[trigger] s[i], lit[i])
}

/// The flag a trimmed text denotes: `1`, `true`, `y`, `yes`, `on` are true;
/// `0`, `false`, `n`, `no`, `off` are false; ASCII case is ignored.
pub open spec fn bool_value(s: Seq<char>) -> Option<bool> {
    if ieq_lit(s, "1"@) || ieq_lit(s, "true"@) || ieq_lit(s, "y"@) || ieq_lit(s, "yes"@) || ieq_lit(
        s,
        "on"@,
    ) {
        Some(true)
    } else if ieq_lit(s, "0"@) || ieq_lit(s, "false"@) || ieq_lit(s, "n"@) || ieq_lit(s, "no"@)
        || ieq_lit(s, "off"@) {
        Some(false)
    } else {
        None
    }
}

proof fn lemma_digits_nonneg_monotone(s: Seq<char>, i: int)
    requires
        0 <= i <= s.len(),
        forall|j: int| 0 <= j < s.len() ==> is_digit(#[trigger] s[j]),
    ensures
        0 <= digits_value(s.take(i)) <= digits_value(s),
    decreases s.len(),
{
    if s.len() > 0 {
        if i == s.len() {
            assert(s.take(i) =~= s);
            lemma_digits_nonneg_monotone(s.drop_last(), s.len() - 1);
            assert(s.drop_last().take(s.len() - 1) =~= s.drop_last());
        } else {
            assert(s.drop_last().take(i) =~= s.take(i));
            assert forall|j: int| 0 <= j < s.drop_last().len() implies is_digit(
                #[trigger] s.drop_last()[j],
            ) by {
                assert(s.drop_last()[j] == s[j]);
            }
            lemma_digits_nonneg_monotone(s.drop_last(), i);
            lemma_digits_nonneg_monotone(s.drop_last(), s.len() - 1);
            assert(s.drop_last().take(s.len() - 1) =~= s.drop_last());
            assert(is_digit(s.last()));
        }
    } else {
        assert(s.take(i) =~= s);
    }
}

/// The integer the range `lo..hi` of `cs` denotes, when it lies in `min..=max`.
fn decimal_in_range(cs: &Vec<char>, lo: usize, hi: usize, min: i128, max: i128) -> (r: Option<i128>)
    requires
        lo <= hi <= cs@.len(),
        -0x8000_0000_0000_0000 <= min <= 0 <= max <= 0x7fff_ffff_ffff_ffff,
    ensures
        match r {
            Some(v) => decimal_value(cs@.subrange(lo as int, hi as int)) == Some(v as int) && min <= v
                <= max,
            None => match decimal_value(cs@.subrange(lo as int, hi as int)) {
                Some(v) => v < min || v > max,
                None => true,
            },
        },
{
    let ghost s = cs@.subrange(lo as int, hi as int);
    let mut neg = false;
    let mut start = lo;
    if lo < hi && cs[lo] == '-' {
        neg = true;
        start = lo + 1;
    } else if lo < hi && cs[lo] == '+' {
        start = lo + 1;
    }
    let ghost ds = cs@.subrange(start as int, hi as int);
    assert(ds =~= unsigned_part(s));
    assert(neg == sign_negative(s));
    if start == hi {
        return None;
    }
    let limit: i128 = 0x8000_0000_0000_0000;
    let mut acc: i128 = 0;
    let mut i = start;
    while i < hi
        invariant
            lo <= start < hi <= cs@.len(),
            start <= i <= hi,
            s == cs@.subrange(lo as int, hi as int),
            ds == cs@.subrange(start as int, hi as int),
            ds == unsigned_part(s),
            neg == sign_negative(s),
            -0x8000_0000_0000_0000 <= min <= 0 <= max <= 0x7fff_ffff_ffff_ffff,
            forall|j: int| 0 <= j < i - start ==> is_digit(#[trigger] ds[j]),
            acc == digits_value(ds.take(i - start)),
            0 <= acc <= limit,
            limit == 0x8000_0000_0000_0000,
        decreases hi - i,
    {
        let c = cs[i];
        assert(ds[i - start] == c);
        if !('0' <= c && c <= '9') {
            assert(!is_digit(ds[i - start]));
            return None;
        }
        let d = (c as u32 - 48) as i128;
        assert(ds.take(i - start + 1).drop_last() =~= ds.take(i - start));
        assert(ds.take(i - start + 1).last() == c);
        acc = acc * 10 + d;
        if acc > limit {
            proof {
                if forall|j: int| 0 <= j < ds.len() ==> is_digit(#[trigger] ds[j]) {
                    lemma_digits_nonneg_monotone(ds, i - start + 1);
                }
            }
            return None;
        }
        i = i + 1;
    }
    assert(ds.take(ds.len() as int) =~= ds);
    if neg {
        if -acc < min {
            return None;
        }
        Some(-acc)
    } else {
        if acc > max {
            return None;
        }
        Some(acc)
    }
}

/// The `int` a spoofed value denotes, trimmed; `None` when it is not a
/// decimal integer in the `i32` range.
pub fn parse_int(value: &str) -> (r: Option<i32>)
    ensures
        match r {
            Some(v) => decimal_value(trim(value@)) == Some(v as int),
            None => match decimal_value(trim(value@)) {
                Some(v) => v < i32::MIN || v > i32::MAX,
                None => true,
            },
        },
{
    let cs = chars_of(value);
    assert(cs@.subrange(0, cs@.len() as int) =~= cs@);
    let (a, b) = trim_bounds(&cs, 0, cs.len());
    match decimal_in_range(&cs, a, b, i32::MIN as i128, i32::MAX as i128) {
        Some(v) => Some(v as i32),
        None => None,
    }
}

/// The `long` a spoofed value denotes, trimmed; `None` when it is not a
/// decimal integer in the `i64` range.
pub fn parse_long(value: &str) -> (r: Option<i64>)
    ensures
        match r {
            Some(v) => decimal_value(trim(value@)) == Some(v as int),
            None => match decimal_value(trim(value@)) {
                Some(v) => v < i64::MIN || v > i64::MAX,
                None => true,
            },
        },
{
    let cs = chars_of(value);
    assert(cs@.subrange(0, cs@.len() as int) =~= cs@);
    let (a, b) = trim_bounds(&cs, 0, cs.len());
    match decimal_in_range(&cs, a, b, i64::MIN as i128, i64::MAX as i128) {
        Some(v) => Some(v as i64),
        None => None,
    }
}

/// Whether the range `lo..hi` of `cs` spells the lowercase `lit` ignoring ASCII case.
fn range_ieq(cs: &Vec<char>, lo: usize, hi: usize, lit: &Vec<char>) -> (r: bool)
    requires
        lo <= hi <= cs@.len(),
    ensures
        r == ieq_lit(cs@.subrange(lo as int, hi as int), lit@),
{
    let ghost s = cs@.subrange(lo as int, hi as int);
    if hi - lo != lit.len() {
        return false;
    }
    let mut i: usize = 0;
    while i < lit.len()
        invariant
            lo <= hi <= cs@.len(),
            hi - lo == lit@.len(),
            s == cs@.subrange(lo as int, hi as int),
            i <= lit@.len(),
            forall|j: int| 0 <= j < i ==> ascii_ieq(#[trigger] s[j], lit@[j]),
        decreases lit@.len() - i,
    {
        let c = cs[lo + i];
        let l = lit[i];
        assert(s[i as int] == c);
        if !(c == l || ('A' <= c && c <= 'Z' && (c as u32) + 32 == (l as u32))) {
            assert(!ascii_ieq(s[i as int], lit@[i as int]));
            return false;
        }
        i = i + 1;
    }
    true
}

/// The flag a spoofed value denotes, trimmed and ignoring ASCII case.
pub fn parse_bool(value: &str) -> (r: Option<bool>)
    ensures
        r == bool_value(trim(value@)),
{
    let cs = chars_of(value);
    assert(cs@.subrange(0, cs@.len() as int) =~= cs@);
    let (a, b) = trim_bounds(&cs, 0, cs.len());
    if range_ieq(&cs, a, b, &chars_of("1")) || range_ieq(&cs, a, b, &chars_of("true")) || range_ieq(
        &cs,
        a,
        b,
        &chars_of("y"),
    ) || range_ieq(&cs, a, b, &chars_of("yes")) || range_ieq(&cs, a, b, &chars_of("on")) {
        Some(true)
    } else if range_ieq(&cs, a, b, &chars_of("0")) || range_ieq(&cs, a, b, &chars_of("false"))
        || range_ieq(&cs, a, b, &chars_of("n")) || range_ieq(&cs, a, b, &chars_of("no")) || range_ieq(
        &cs,
        a,
        b,
        &chars_of("off"),
    ) {
        Some(false)
    } else {
        None
    }
}

/// How many distinct property keys are remembered at most.
pub const MAX_OBSERVED: usize = 256;

/// The distinct property keys that apps asked for, in first-asked order, up
/// to `MAX_OBSERVED` of them.
pub struct KeyObserver {
    keys: Vec<String>,
}

/// Remembered keys are distinct and at most `MAX_OBSERVED` of them.
pub open spec fn observed_wf(keys: Seq<Seq<char>>) -> bool {
    keys.no_duplicates() && keys.len() <= MAX_OBSERVED
}

impl KeyObserver {
    #[verifier::type_invariant]
    spec fn bounded(&self) -> bool {
        observed_wf(self.keys@.map_values(|k: String| k@))
    }
}

impl View for KeyObserver {
    type V = Seq<Seq<char>>;

    closed spec fn view(&self) -> Seq<Seq<char>> {
        self.keys@.map_values(|k: String| k@)
    }
}

/// The remembered keys after `key` is asked for: it is added at the end
/// unless already present or the list is full.
pub open spec fn observe_spec(keys: Seq<Seq<char>>, key: Seq<char>) -> Seq<Seq<char>> {
    if keys.contains(key) || keys.len() >= MAX_OBSERVED {
        keys
    } else {
        keys.push(key)
    }
}

impl KeyObserver {
    pub fn new() -> (r: KeyObserver)
        ensures
            r@ == Seq::<Seq<char>>::empty(),
            observed_wf(r@),
    {
        let v: Vec<String> = Vec::new();
        assert(v@.map_values(|k: String| k@) =~= Seq::<Seq<char>>::empty());
        let r = KeyObserver { keys: v };
        assert(r@ =~= Seq::<Seq<char>>::empty());
        r
    }

    /// Remember that `key` was asked for.
    pub fn observe_key(&mut self, key: &str)
        ensures
            final(self)@ == observe_spec(old(self)@, key@),
            observed_wf(final(self)@),
    {
        proof {
            use_type_invariant(&*self);
        }
        let name = key.to_owned();
        let mut i: usize = 0;
        while i < self.keys.len()
            invariant
                i <= self.keys@.len(),
                self@ == old(self)@,
                observed_wf(self@),
                self@.len() == self.keys@.len(),
                name@ == key@,
                forall|j: int| 0 <= j < i ==> self@[j] != key@,
            decreases self.keys@.len() - i,
        {
            if self.keys[i] == name {
                assert(self@[i as int] == key@);
                return;
            }
            i = i + 1;
        }
        if self.keys.len() >= MAX_OBSERVED {
            return;
        }
        let ghost before = self@;
        proof {
            assert(!before.contains(key@));
            lemma_observe_bounded(before, key@);
        }
        let mut keys: Vec<String> = Vec::new();
        std::mem::swap(&mut keys, &mut self.keys);
        keys.push(name);
        assert(keys@.map_values(|k: String| k@) =~= before.push(key@));
        self.keys = keys;
        assert(self@ =~= before.push(key@));
    }

    /// Remember that `key` was asked for, when observation is `enabled`.
    pub fn observe_if_enabled(&mut self, enabled: bool, key: &str)
        ensures
            final(self)@ == (if enabled {
                observe_spec(old(self)@, key@)
            } else {
                old(self)@
            }),
            observed_wf(final(self)@),
    {
        proof {
            use_type_invariant(&*self);
        }
        if enabled {
            self.observe_key(key);
        }
    }

    /// The remembered keys.
    pub fn keys(&self) -> (r: &Vec<String>)
        ensures
            r@.map_values(|k: String| k@) == self@,
            observed_wf(self@),
    {
        proof {
            use_type_invariant(self);
        }
        &self.keys
    }
}

/// Asking for keys keeps the remembered keys distinct and never more than `MAX_OBSERVED`.
pub proof fn lemma_observe_bounded(keys: Seq<Seq<char>>, key: Seq<char>)
    requires
        keys.no_duplicates(),
        keys.len() <= MAX_OBSERVED,
    ensures
        observe_spec(keys, key).no_duplicates(),
        observe_spec(keys, key).len() <= MAX_OBSERVED,
{
    if !(keys.contains(key) || keys.len() >= MAX_OBSERVED) {
        let k2 = keys.push(key);
        assert forall|a: int, b: int| 0 <= a < k2.len() && 0 <= b < k2.len() && a != b implies k2[a]
            != k2[b] by {
            if a < keys.len() && b < keys.len() {
            } else if a < keys.len() {
                if keys[a] == key {
                    assert(keys.contains(key));
                }
            } else {
                if keys[b] == key {
                    assert(keys.contains(key));
                }
            }
        }
    }
}

/// How many spoofed values can be given handles.
pub const MAX_HANDLES: usize = 256;

/// The spoofed values handed out through handles: handle `h` (from 1) stands
/// for the `h`-th value; 0 is no handle.
pub struct HandleTable {
    values: Vec<String>,
}

impl HandleTable {
    #[verifier::type_invariant]
    spec fn bounded(&self) -> bool {
        self.values@.len() <= MAX_HANDLES
    }
}

impl View for HandleTable {
    type V = Seq<Seq<char>>;

    closed spec fn view(&self) -> Seq<Seq<char>> {
        self.values@.map_values(|k: String| k@)
    }
}

/// The table and the handle after asking for `value`'s handle: the existing
/// handle of its first entry; else a new entry at the end and its handle;
/// else, when the table is full, the table unchanged and handle 0.
pub open spec fn handle_for(values: Seq<Seq<char>>, value: Seq<char>) -> (Seq<Seq<char>>, int) {
    match values.index_of_first(value) {
        Some(i) => (values, i + 1),
        None => if values.len() >= MAX_HANDLES {
            (values, 0)
        } else {
            (values.push(value), values.len() + 1 as int)
        },
    }
}

/// The value a handle stands for.
pub open spec fn handle_value(values: Seq<Seq<char>>, handle: int) -> Option<Seq<char>> {
    if 0 < handle <= values.len() {
        Some(values[handle - 1])
    } else {
        None
    }
}

impl HandleTable {
    pub fn new() -> (r: HandleTable)
        ensures
            r@ == Seq::<Seq<char>>::empty(),
    {
        let r = HandleTable { values: Vec::new() };
        assert(r@ =~= Seq::<Seq<char>>::empty());
        r
    }

    /// The handle of a spoofed value (see `handle_for`).
    pub fn find_or_insert(&mut self, value: &str) -> (h: i64)
        ensures
            (final(self)@, h as int) == handle_for(old(self)@, value@),
    {
        proof {
            use_type_invariant(&*self);
        }
        let ghost vs = self@;
        let name = value.to_owned();
        let mut i: usize = 0;
        while i < self.values.len()
            invariant
                i <= self.values@.len(),
                self.values@.len() <= MAX_HANDLES,
                self@ == old(self)@,
                vs == self@,
                self@.len() == self.values@.len(),
                name@ == value@,
                forall|j: int| 0 <= j < i ==> vs[j] != value@,
            decreases self.values@.len() - i,
        {
            if self.values[i] == name {
                proof {
                    lemma_index_of_first_at(vs, value@, i as int);
                }
                return (i + 1) as i64;
            }
            i = i + 1;
        }
        proof {
            lemma_index_of_first_absent(vs, value@);
        }
        if self.values.len() >= MAX_HANDLES {
            return 0;
        }
        let ghost before = self@;
        let mut values: Vec<String> = Vec::new();
        std::mem::swap(&mut values, &mut self.values);
        values.push(name);
        self.values = values;
        assert(self@ =~= before.push(value@));
        self.values.len() as i64
    }

    /// The value `handle` stands for, if any.
    pub fn get(&self, handle: i64) -> (r: Option<&str>)
        ensures
            match r {
                Some(v) => handle_value(self@, handle as int) == Some(v@),
                None => handle_value(self@, handle as int) is None,
            },
    {
        if handle <= 0 || handle as u64 > self.values.len() as u64 {
            return None;
        }
        let i = (handle - 1) as usize;
        Some(self.values[i].as_str())
    }
}

/// A handle handed out reads back as its value, and every handle handed out
/// earlier keeps its value.
pub proof fn lemma_handle_roundtrip(values: Seq<Seq<char>>, value: Seq<char>, old_handle: int)
    ensures
        handle_for(values, value).1 != 0 ==> handle_value(
            handle_for(values, value).0,
            handle_for(values, value).1,
        ) == Some(value),
        handle_value(values, old_handle) is Some ==> handle_value(
            handle_for(values, value).0,
            old_handle,
        ) == handle_value(values, old_handle),
{
    values.index_of_first_ensures(value);
}

} // verus!

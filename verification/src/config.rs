//! The device configuration (`device.conf`): a global device in three
//! property categories plus optional per-package patches, its parser, and the
//! properties a package is spoofed with.
use vstd::prelude::*;
use vstd::string::StrSliceExecFns;
use crate::defaults::{default_props, default_spoof_props, xmsf_package, xmsf_props, xmsf_spoof_props};
use crate::text::{
    bounds_match, chars_of, find_first, find_last, is_ws, join_lines, lemma_index_of_first_absent,
    lemma_index_of_first_at, lemma_index_of_last_at, lemma_lines_of_join, lemma_trim_fixed,
    lemma_trimmed_ends, line_bounds, lines_of, range_eq, rsplit_once, split_once, str_eq, trim,
    trim_bounds,
};

verus! {

broadcast use vstd::string::group_string_axioms;

/// `key=value` pairs, in the order their keys first appeared.
pub type Entries = Seq<(Seq<char>, Seq<char>)>;

/// The three spoof categories: `SystemProperties` values, `android.os.Build`
/// fields and `android.os.Build.VERSION` fields.
#[derive(Debug, Clone, Copy, PartialEq, Eq, Structural)]
pub enum Category {
    System,
    Build,
    BuildVersion,
}

/// Properties by category, as the contracts see them.
#[verifier::ext_equal]
pub struct PropModel {
    pub system: Entries,
    pub build: Entries,
    pub build_version: Entries,
}

/// A device configuration, as the contracts see it.
#[verifier::ext_equal]
pub struct DeviceModel {
    pub global: PropModel,
    pub packages: Seq<(Seq<char>, PropModel)>,
}

/// Which `[section]` the parser is filling.
#[derive(Debug, Clone, Copy, PartialEq, Eq, Structural)]
pub enum Section {
    Skip,
    Global(Category),
    Package(usize, Category),
}

/// The parser's state between lines.
#[verifier::ext_equal]
pub struct ParseState {
    pub config: DeviceModel,
    pub section: Section,
}

/// A group of device properties split by category.
pub struct PropSet {
    pub system: Vec<(String, String)>,
    pub build: Vec<(String, String)>,
    pub build_version: Vec<(String, String)>,
}

/// A parsed device configuration: the global device plus per-package patches.
pub struct DeviceConfig {
    pub global: PropSet,
    pub packages: Vec<(String, PropSet)>,
}

/// The properties one app process is spoofed with.
pub struct SpoofProps {
    pub system_properties: Vec<(String, String)>,
    pub build_properties: Vec<(String, String)>,
    pub build_version_properties: Vec<(String, String)>,
}

/// The character view of owned `key=value` pairs.
pub open spec fn entries_view(v: Seq<(String, String)>) -> Entries {
    v.map_values(|e: (String, String)| (e.0@, e.1@))
}

impl View for PropSet {
    type V = PropModel;

    open spec fn view(&self) -> PropModel {
        PropModel {
            system: entries_view(self.system@),
            build: entries_view(self.build@),
            build_version: entries_view(self.build_version@),
        }
    }
}

impl View for DeviceConfig {
    type V = DeviceModel;

    open spec fn view(&self) -> DeviceModel {
        DeviceModel {
            global: self.global@,
            packages: self.packages@.map_values(|p: (String, PropSet)| (p.0@, p.1@)),
        }
    }
}

impl View for SpoofProps {
    type V = PropModel;

    open spec fn view(&self) -> PropModel {
        PropModel {
            system: entries_view(self.system_properties@),
            build: entries_view(self.build_properties@),
            build_version: entries_view(self.build_version_properties@),
        }
    }
}

/// The keys of `s`, in order.
pub open spec fn keys(s: Entries) -> Seq<Seq<char>> {
    s.map_values(|e: (Seq<char>, Seq<char>)| e.0)
}

/// `s` with `k` set to `v`: the first entry of `k` replaced in place, or a
/// new entry at the end.
pub open spec fn upsert_spec(s: Entries, k: Seq<char>, v: Seq<char>) -> Entries {
    match keys(s).index_of_first(k) {
        Some(i) => s.update(i, (k, v)),
        None => s.push((k, v)),
    }
}

/// The value of `k` in `s`, from its first entry.
pub open spec fn lookup(s: Entries, k: Seq<char>) -> Option<Seq<char>> {
    match keys(s).index_of_first(k) {
        Some(i) => Some(s[i].1),
        None => None,
    }
}

/// No category holds an entry.
pub open spec fn props_empty(p: PropModel) -> bool {
    p.system.len() == 0 && p.build.len() == 0 && p.build_version.len() == 0
}

pub open spec fn empty_props() -> PropModel {
    PropModel { system: Seq::empty(), build: Seq::empty(), build_version: Seq::empty() }
}

pub open spec fn empty_device() -> DeviceModel {
    DeviceModel { global: empty_props(), packages: Seq::empty() }
}

/// No global entry and no entry in any package patch.
pub open spec fn device_empty(d: DeviceModel) -> bool {
    &&& props_empty(d.global)
    &&& forall|i: int| 0 <= i < d.packages.len() ==> props_empty(#[trigger] d.packages[i].1)
}

pub open spec fn category_entries(p: PropModel, c: Category) -> Entries {
    match c {
        Category::System => p.system,
        Category::Build => p.build,
        Category::BuildVersion => p.build_version,
    }
}

pub open spec fn with_category(p: PropModel, c: Category, e: Entries) -> PropModel {
    match c {
        Category::System => PropModel { system: e, ..p },
        Category::Build => PropModel { build: e, ..p },
        Category::BuildVersion => PropModel { build_version: e, ..p },
    }
}

/// The names of the package patches, in order.
pub open spec fn package_names(d: DeviceModel) -> Seq<Seq<char>> {
    d.packages.map_values(|p: (Seq<char>, PropModel)| p.0)
}

/// The configuration with a patch for `name` (a new empty one at the end
/// when there was none) and that patch's position.
pub open spec fn with_package(d: DeviceModel, name: Seq<char>) -> (DeviceModel, int) {
    match package_names(d).index_of_first(name) {
        Some(i) => (d, i),
        None => (
            DeviceModel { packages: d.packages.push((name, empty_props())), ..d },
            d.packages.len() as int,
        ),
    }
}

/// The category a section name selects.
pub open spec fn category_named(name: Seq<char>) -> Option<Category> {
    if name == "system"@ {
        Some(Category::System)
    } else if name == "build"@ {
        Some(Category::Build)
    } else if name == "build.version"@ {
        Some(Category::BuildVersion)
    } else {
        None
    }
}

/// The effect of a `[header]` line: a global category, or `package:category`
/// (which creates the package's patch even when the category is unknown),
/// or nothing to fill.
pub open spec fn header_effect(h: Seq<char>, d: DeviceModel) -> ParseState {
    match category_named(h) {
        Some(c) => ParseState { config: d, section: Section::Global(c) },
        None => match rsplit_once(h, ':') {
            None => ParseState { config: d, section: Section::Skip },
            Some((p, sub)) => {
                let p = trim(p);
                if p.len() == 0 {
                    ParseState { config: d, section: Section::Skip }
                } else {
                    let (d2, idx) = with_package(d, p);
                    ParseState {
                        config: d2,
                        section: match category_named(trim(sub)) {
                            Some(c) => Section::Package(idx as usize, c),
                            None => Section::Skip,
                        },
                    }
                }
            },
        },
    }
}

/// The configuration with `k` set to `v` in the section being filled.
pub open spec fn assign(d: DeviceModel, section: Section, k: Seq<char>, v: Seq<char>) -> DeviceModel {
    match section {
        Section::Skip => d,
        Section::Global(c) => DeviceModel {
            global: with_category(d.global, c, upsert_spec(category_entries(d.global, c), k, v)),
            ..d
        },
        Section::Package(i, c) => {
            let (name, set) = d.packages[i as int];
            DeviceModel {
                packages: d.packages.update(
                    i as int,
                    (name, with_category(set, c, upsert_spec(category_entries(set, c), k, v))),
                ),
                ..d
            }
        },
    }
}

/// The effect of one line of `device.conf`: blank lines and `#` comments do
/// nothing, `[header]` lines select a section, `key=value` lines (key and
/// value trimmed, key non-empty) set a key in the selected section, and
/// anything else is ignored.
pub open spec fn parse_line(st: ParseState, line: Seq<char>) -> ParseState {
    let t = trim(line);
    if t.len() == 0 || t[0] == '#' {
        st
    } else if t.len() >= 2 && t[0] == '[' && t.last() == ']' {
        header_effect(trim(t.subrange(1, t.len() - 1)), st.config)
    } else {
        match split_once(t, '=') {
            None => st,
            Some((k, v)) => {
                let k = trim(k);
                if k.len() == 0 {
                    st
                } else {
                    ParseState { config: assign(st.config, st.section, k, trim(v)), ..st }
                }
            },
        }
    }
}

/// The state after the lines `ls`, from an empty configuration and no section.
pub open spec fn parse_lines(ls: Seq<Seq<char>>) -> ParseState
    decreases ls.len(),
{
    if ls.len() == 0 {
        ParseState { config: empty_device(), section: Section::Skip }
    } else {
        parse_line(parse_lines(ls.drop_last()), ls.last())
    }
}

/// The configuration that `device.conf` text describes.
pub open spec fn parse_config(content: Seq<char>) -> DeviceModel {
    parse_lines(lines_of(content)).config
}

/// The section being filled, if a package one, names an existing patch.
pub open spec fn section_ok(st: ParseState) -> bool {
    match st.section {
        Section::Package(i, _) => i < st.config.packages.len(),
        _ => true,
    }
}

/// Set `key` to `value` in `target`: replace the first entry of `key`, or
/// add one at the end, so later lines override earlier ones.
pub fn upsert(target: &mut Vec<(String, String)>, key: String, value: String)
    ensures
        entries_view(final(target)@) == upsert_spec(entries_view(old(target)@), key@, value@),
{
    let ghost ks = keys(entries_view(target@));
    proof {
        ks.index_of_first_ensures(key@);
    }
    let mut i: usize = 0;
    while i < target.len()
        invariant
            i <= target@.len(),
            target@ == old(target)@,
            ks == keys(entries_view(target@)),
            ks.len() == target@.len(),
            forall|j: int| 0 <= j < i ==> ks[j] != key@,
        decreases target@.len() - i,
    {
        if target[i].0 == key {
            proof {
                assert(ks[i as int] == key@);
                assert(ks.contains(key@));
                ks.index_of_first_ensures(key@);
                let idx = ks.index_of_first(key@).unwrap();
                assert(ks[idx] == key@);
            }
            let ghost before = target@;
            let k = target[i].0.clone();
            target.set(i, (k, value));
            assert(entries_view(target@) =~= entries_view(before).update(
                i as int,
                (key@, value@),
            ));
            return;
        }
        i = i + 1;
    }
    assert(!ks.contains(key@));
    let ghost before = target@;
    target.push((key, value));
    assert(entries_view(target@) =~= entries_view(before).push((key@, value@)));
}

impl PropSet {
    pub fn new() -> (r: PropSet)
        ensures
            r@ == empty_props(),
    {
        let r = PropSet { system: Vec::new(), build: Vec::new(), build_version: Vec::new() };
        assert(r@ =~= empty_props());
        r
    }

    /// Whether no category holds an entry.
    pub fn is_empty(&self) -> (r: bool)
        ensures
            r == props_empty(self@),
    {
        self.system.len() == 0 && self.build.len() == 0 && self.build_version.len() == 0
    }

    /// Set `key` to `value` in category `c`.
    fn upsert_in(&mut self, c: Category, key: String, value: String)
        ensures
            final(self)@ == with_category(
                old(self)@,
                c,
                upsert_spec(category_entries(old(self)@, c), key@, value@),
            ),
    {
        match c {
            Category::System => upsert(&mut self.system, key, value),
            Category::Build => upsert(&mut self.build, key, value),
            Category::BuildVersion => upsert(&mut self.build_version, key, value),
        }
        assert(final(self)@ =~= with_category(
            old(self)@,
            c,
            upsert_spec(category_entries(old(self)@, c), key@, value@),
        ));
    }
}

impl DeviceConfig {
    /// Whether neither the global device nor any patch holds an entry.
    pub fn is_empty(&self) -> (r: bool)
        ensures
            r == device_empty(self@),
    {
        if !self.global.is_empty() {
            return false;
        }
        let mut i: usize = 0;
        while i < self.packages.len()
            invariant
                i <= self.packages@.len(),
                forall|j: int| 0 <= j < i ==> props_empty(#[trigger] self@.packages[j].1),
            decreases self.packages@.len() - i,
        {
            if !self.packages[i].1.is_empty() {
                assert(!props_empty(self@.packages[i as int].1));
                return false;
            }
            i = i + 1;
        }
        true
    }
}

/// The position of the patch for the package `name`, creating an empty one
/// at the end when there is none.
fn package_index(config: &mut DeviceConfig, name: String) -> (r: usize)
    ensures
        final(config)@ == with_package(old(config)@, name@).0,
        r == with_package(old(config)@, name@).1,
        r < final(config)@.packages.len(),
{
    let ghost ns = package_names(config@);
    proof {
        ns.index_of_first_ensures(name@);
    }
    let mut i: usize = 0;
    while i < config.packages.len()
        invariant
            i <= config@.packages.len(),
            config@ == old(config)@,
            ns == package_names(config@),
            ns.len() == config@.packages.len(),
            forall|j: int| 0 <= j < i ==> ns[j] != name@,
        decreases config@.packages.len() - i,
    {
        if config.packages[i].0 == name {
            proof {
                assert(ns[i as int] == name@);
                assert(ns.contains(name@));
                ns.index_of_first_ensures(name@);
                let idx = ns.index_of_first(name@).unwrap();
                assert(ns[idx] == name@);
            }
            return i;
        }
        i = i + 1;
    }
    assert(!ns.contains(name@));
    let ghost before = config@;
    let n = config.packages.len();
    config.packages.push((name, PropSet::new()));
    assert(config@ =~= with_package(before, name@).0);
    n
}

/// The category the range `lo..hi` of `cs` names.
fn category_in(cs: &Vec<char>, lo: usize, hi: usize) -> (r: Option<Category>)
    requires
        lo <= hi <= cs@.len(),
    ensures
        r == category_named(cs@.subrange(lo as int, hi as int)),
{
    if range_eq(cs, lo, hi, &chars_of("system")) {
        Some(Category::System)
    } else if range_eq(cs, lo, hi, &chars_of("build")) {
        Some(Category::Build)
    } else if range_eq(cs, lo, hi, &chars_of("build.version")) {
        Some(Category::BuildVersion)
    } else {
        None
    }
}

/// The section a `[header]` (the trimmed range `lo..hi` of `cs`, the
/// characters of `content`) selects, creating the package's patch for a
/// `package:category` header. Unknown headers select nothing.
fn resolve_section(content: &str, cs: &Vec<char>, lo: usize, hi: usize, config: &mut DeviceConfig) -> (r:
    Section)
    requires
        cs@ == content@,
        lo <= hi <= cs@.len(),
    ensures
        (ParseState { config: final(config)@, section: r }) == header_effect(
            cs@.subrange(lo as int, hi as int),
            old(config)@,
        ),
        section_ok(ParseState { config: final(config)@, section: r }),
        final(config)@.packages.len() >= old(config)@.packages.len(),
{
    let ghost h = cs@.subrange(lo as int, hi as int);
    if let Some(c) = category_in(cs, lo, hi) {
        return Section::Global(c);
    }
    match find_last(cs, lo, hi, ':') {
        None => Section::Skip,
        Some(colon) => {
            assert(h.take(colon - lo) =~= cs@.subrange(lo as int, colon as int));
            assert(h.skip(colon - lo + 1) =~= cs@.subrange(colon + 1, hi as int));
            let (pa, pb) = trim_bounds(cs, lo, colon);
            if pa == pb {
                return Section::Skip;
            }
            let name = content.substring_char(pa, pb).to_owned();
            let idx = package_index(config, name);
            let (sa, sb) = trim_bounds(cs, colon + 1, hi);
            match category_in(cs, sa, sb) {
                Some(c) => Section::Package(idx, c),
                None => Section::Skip,
            }
        },
    }
}

/// Apply one line (the range `lo..hi` of `cs`, the characters of `content`).
fn parse_line_into(
    content: &str,
    cs: &Vec<char>,
    lo: usize,
    hi: usize,
    config: &mut DeviceConfig,
    section: &mut Section,
)
    requires
        cs@ == content@,
        lo <= hi <= cs@.len(),
        section_ok(ParseState { config: old(config)@, section: *old(section) }),
    ensures
        (ParseState { config: final(config)@, section: *final(section) }) == parse_line(
            ParseState { config: old(config)@, section: *old(section) },
            cs@.subrange(lo as int, hi as int),
        ),
        section_ok(ParseState { config: final(config)@, section: *final(section) }),
{
    let (a, b) = trim_bounds(cs, lo, hi);
    let ghost t = cs@.subrange(a as int, b as int);
    if a == b || cs[a] == '#' {
        return;
    }
    if b - a >= 2 && cs[a] == '[' && cs[b - 1] == ']' {
        assert(t.subrange(1, t.len() - 1) =~= cs@.subrange(a + 1, b - 1));
        let (ha, hb) = trim_bounds(cs, a + 1, b - 1);
        *section = resolve_section(content, cs, ha, hb, config);
        return;
    }
    match find_first(cs, a, b, '=') {
        None => {},
        Some(e) => {
            assert(t.take(e - a) =~= cs@.subrange(a as int, e as int));
            assert(t.skip(e - a + 1) =~= cs@.subrange(e + 1, b as int));
            let (ka, kb) = trim_bounds(cs, a, e);
            if ka == kb {
                return;
            }
            let (va, vb) = trim_bounds(cs, e + 1, b);
            let key = content.substring_char(ka, kb).to_owned();
            let value = content.substring_char(va, vb).to_owned();
            match *section {
                Section::Skip => {},
                Section::Global(c) => {
                    config.global.upsert_in(c, key, value);
                    assert(config@ =~= assign(old(config)@, *section, key@, value@));
                },
                Section::Package(i, c) => {
                    let ghost before = config@;
                    config.packages[i].1.upsert_in(c, key, value);
                    assert(config@.packages =~= assign(before, *section, key@, value@).packages);
                },
            }
        },
    }
}

/// Parse `device.conf` text (see `parse_line` for the line forms). Keys
/// repeated within a section keep their first position and take the last
/// value; a package's patch is created by its first header.
pub fn parse_device_config(content: &str) -> (r: DeviceConfig)
    ensures
        r@ == parse_config(content@),
{
    let cs = chars_of(content);
    let bounds = line_bounds(&cs);
    let ghost ls = lines_of(cs@);
    let mut config = DeviceConfig { global: PropSet::new(), packages: Vec::new() };
    let mut section = Section::Skip;
    assert(config@ =~= empty_device());
    assert(ls.take(0) =~= Seq::<Seq<char>>::empty());
    let mut i: usize = 0;
    while i < bounds.len()
        invariant
            cs@ == content@,
            ls == lines_of(cs@),
            bounds@.len() == ls.len(),
            bounds_match(cs@, bounds@, ls, bounds@.len() as int),
            i <= bounds@.len(),
            (ParseState { config: config@, section }) == parse_lines(ls.take(i as int)),
            section_ok(ParseState { config: config@, section }),
        decreases bounds@.len() - i,
    {
        let (lo, hi) = bounds[i];
        assert(cs@.subrange(lo as int, hi as int) == ls[i as int]);
        parse_line_into(content, &cs, lo, hi, &mut config, &mut section);
        assert(ls.take(i + 1).drop_last() =~= ls.take(i as int));
        assert(ls.take(i + 1).last() == ls[i as int]);
        i = i + 1;
    }
    assert(ls.take(ls.len() as int) =~= ls);
    config
}

/// `g` with every entry of `patch` set in turn: patch keys win, global
/// keys are inherited.
pub open spec fn merge_entries(g: Entries, patch: Entries) -> Entries
    decreases patch.len(),
{
    if patch.len() == 0 {
        g
    } else {
        upsert_spec(merge_entries(g, patch.drop_last()), patch.last().0, patch.last().1)
    }
}

/// The global device with a package's patch applied category by category.
pub open spec fn merge_props(g: PropModel, patch: Option<PropModel>) -> PropModel {
    match patch {
        None => g,
        Some(p) => PropModel {
            system: merge_entries(g.system, p.system),
            build: merge_entries(g.build, p.build),
            build_version: merge_entries(g.build_version, p.build_version),
        },
    }
}

/// The patch of the first package entry named `pkg`.
pub open spec fn patch_for(d: DeviceModel, pkg: Seq<char>) -> Option<PropModel> {
    match package_names(d).index_of_first(pkg) {
        Some(i) => Some(d.packages[i].1),
        None => None,
    }
}

/// The properties the process of package `pkg` is spoofed with:
/// MiPushFramework's own marker; else the built-in device when there is no
/// device configuration; else the configured global device with the
/// package's patch applied.
pub open spec fn properties_for(pkg: Seq<char>, device: Option<DeviceModel>) -> PropModel {
    if pkg == xmsf_package() {
        xmsf_props()
    } else {
        match device {
            None => default_props(),
            Some(d) => merge_props(d.global, patch_for(d, pkg)),
        }
    }
}

/// An owned copy of `v`.
fn copy_entries(v: &Vec<(String, String)>) -> (r: Vec<(String, String)>)
    ensures
        entries_view(r@) == entries_view(v@),
{
    let mut r: Vec<(String, String)> = Vec::new();
    let mut i: usize = 0;
    while i < v.len()
        invariant
            i <= v@.len(),
            entries_view(r@) == entries_view(v@.take(i as int)),
        decreases v@.len() - i,
    {
        let k = v[i].0.clone();
        let x = v[i].1.clone();
        let ghost before = r@;
        r.push((k, x));
        assert(entries_view(r@) =~= entries_view(before).push((v@[i as int].0@, v@[i as int].1@)));
        assert(v@.take(i + 1) =~= v@.take(i as int).push(v@[i as int]));
        assert(entries_view(v@.take(i + 1)) =~= entries_view(v@.take(i as int)).push(
            (v@[i as int].0@, v@[i as int].1@),
        ));
        i = i + 1;
    }
    assert(v@.take(v@.len() as int) =~= v@);
    r
}

/// Merge a global category with an optional package patch: patch keys win,
/// global keys are inherited.
pub fn merge_section(global: &Vec<(String, String)>, patch: Option<&Vec<(String, String)>>) -> (r: Vec<
    (String, String),
>)
    ensures
        entries_view(r@) == match patch {
            None => entries_view(global@),
            Some(p) => merge_entries(entries_view(global@), entries_view(p@)),
        },
{
    let mut out = copy_entries(global);
    match patch {
        None => out,
        Some(p) => {
            let ghost pv = entries_view(p@);
            let mut i: usize = 0;
            while i < p.len()
                invariant
                    i <= p@.len(),
                    pv == entries_view(p@),
                    entries_view(out@) == merge_entries(entries_view(global@), pv.take(i as int)),
                decreases p@.len() - i,
            {
                let k = p[i].0.clone();
                let x = p[i].1.clone();
                upsert(&mut out, k, x);
                assert(pv.take(i + 1).drop_last() =~= pv.take(i as int));
                assert(pv.take(i + 1).last() == pv[i as int]);
                i = i + 1;
            }
            assert(pv.take(pv.len() as int) =~= pv);
            out
        },
    }
}

/// The patch of the first package entry named `pkg`.
fn find_patch<'a>(config: &'a DeviceConfig, pkg: &str) -> (r: Option<&'a PropSet>)
    ensures
        match r {
            Some(p) => patch_for(config@, pkg@) == Some(p@),
            None => patch_for(config@, pkg@) is None,
        },
{
    let ghost ns = package_names(config@);
    let name = pkg.to_owned();
    let mut i: usize = 0;
    while i < config.packages.len()
        invariant
            i <= config@.packages.len(),
            ns == package_names(config@),
            ns.len() == config@.packages.len(),
            name@ == pkg@,
            forall|j: int| 0 <= j < i ==> ns[j] != pkg@,
        decreases config@.packages.len() - i,
    {
        if config.packages[i].0 == name {
            proof {
                lemma_index_of_first_at(ns, pkg@, i as int);
            }
            return Some(&config.packages[i].1);
        }
        i = i + 1;
    }
    proof {
        lemma_index_of_first_absent(ns, pkg@);
    }
    None
}

/// The properties the process of package `pkg` is spoofed with, given the
/// device configuration in force (`None` when there is none).
pub fn get_properties_for_package(pkg: &str, device: Option<&DeviceConfig>) -> (r: SpoofProps)
    ensures
        r@ == properties_for(
            pkg@,
            match device {
                Some(d) => Some(d@),
                None => None,
            },
        ),
{
    if str_eq(pkg, "com.xiaomi.xmsf") {
        return xmsf_spoof_props();
    }
    let config = match device {
        None => return default_spoof_props(),
        Some(d) => d,
    };
    let patch = find_patch(config, pkg);
    let r = match patch {
        None => SpoofProps {
            system_properties: merge_section(&config.global.system, None),
            build_properties: merge_section(&config.global.build, None),
            build_version_properties: merge_section(&config.global.build_version, None),
        },
        Some(p) => SpoofProps {
            system_properties: merge_section(&config.global.system, Some(&p.system)),
            build_properties: merge_section(&config.global.build, Some(&p.build)),
            build_version_properties: merge_section(
                &config.global.build_version,
                Some(&p.build_version),
            ),
        },
    };
    assert(r@ =~= properties_for(pkg@, Some(config@)));
    r
}

/// The device configuration in force given the text of `device.conf`
/// (`None` when the file could not be read): none when the text yields no
/// property at all, so that the built-in device applies.
pub fn device_config(content: Option<&str>) -> (r: Option<DeviceConfig>)
    ensures
        match content {
            None => r is None,
            Some(c) => if device_empty(parse_config(c@)) {
                r is None
            } else {
                r matches Some(d) && d@ == parse_config(c@)
            },
        },
{
    match content {
        None => None,
        Some(c) => {
            let parsed = parse_device_config(c);
            if parsed.is_empty() {
                None
            } else {
                Some(parsed)
            }
        },
    }
}

/// Keys of `e` are distinct and non-empty, and keys and values are trimmed.
pub open spec fn entries_wf(e: Entries) -> bool {
    &&& keys(e).no_duplicates()
    &&& forall|i: int|
        0 <= i < e.len() ==> (#[trigger] e[i]).0.len() > 0 && trim(e[i].0) == e[i].0 && trim(e[i].1)
            == e[i].1
}

pub open spec fn props_wf(p: PropModel) -> bool {
    entries_wf(p.system) && entries_wf(p.build) && entries_wf(p.build_version)
}

/// Every category holds distinct, non-empty, trimmed keys with trimmed
/// values, and package patches have distinct, non-empty, trimmed names.
pub open spec fn device_wf(d: DeviceModel) -> bool {
    &&& props_wf(d.global)
    &&& package_names(d).no_duplicates()
    &&& forall|i: int|
        0 <= i < d.packages.len() ==> (#[trigger] d.packages[i]).0.len() > 0 && trim(
            d.packages[i].0,
        ) == d.packages[i].0 && props_wf(d.packages[i].1)
}

proof fn lemma_upsert_keys(s: Entries, k: Seq<char>, v: Seq<char>)
    ensures
        keys(upsert_spec(s, k, v)) == (if keys(s).contains(k) {
            keys(s)
        } else {
            keys(s).push(k)
        }),
{
    let ks = keys(s);
    ks.index_of_first_ensures(k);
    match ks.index_of_first(k) {
        Some(i) => {
            assert(keys(s.update(i, (k, v))) =~= ks);
        },
        None => {
            assert(keys(s.push((k, v))) =~= ks.push(k));
        },
    }
}

/// Where `x` first stands in `s.push(y)`: where it first stands in `s`, else
/// at the end when `x` is `y`.
proof fn lemma_index_of_first_push(s: Seq<Seq<char>>, y: Seq<char>, x: Seq<char>)
    ensures
        s.push(y).index_of_first(x) == (match s.index_of_first(x) {
            Some(i) => Some(i),
            None => if x == y {
                Some(s.len() as int)
            } else {
                None
            },
        }),
{
    s.index_of_first_ensures(x);
    let t = s.push(y);
    match s.index_of_first(x) {
        Some(i) => {
            assert(t[i] == s[i]);
            assert forall|j: int| 0 <= j < i implies t[j] != x by {
                assert(t[j] == s[j]);
            }
            lemma_index_of_first_at(t, x, i);
        },
        None => {
            assert forall|j: int| 0 <= j < s.len() implies t[j] != x by {
                assert(t[j] == s[j]);
                assert(!s.contains(x));
                if s[j] == x {
                    assert(s.contains(x));
                }
            }
            if x == y {
                lemma_index_of_first_at(t, x, s.len() as int);
            } else {
                lemma_index_of_first_absent(t, x);
            }
        },
    }
}

/// Setting a key makes it read back as the new value and leaves every other
/// key's value as it was.
pub proof fn lemma_upsert_lookup(s: Entries, k: Seq<char>, v: Seq<char>, q: Seq<char>)
    ensures
        lookup(upsert_spec(s, k, v), q) == (if q == k {
            Some(v)
        } else {
            lookup(s, q)
        }),
{
    let ks = keys(s);
    let t = upsert_spec(s, k, v);
    lemma_upsert_keys(s, k, v);
    ks.index_of_first_ensures(k);
    ks.index_of_first_ensures(q);
    match ks.index_of_first(k) {
        Some(i) => {
            assert(ks.contains(k));
            assert(keys(t) == ks);
            match ks.index_of_first(q) {
                Some(j) => {
                    if q != k {
                        assert(ks[j] == q && ks[i] == k);
                        assert(j != i);
                        assert(t[j] == s[j]);
                    }
                },
                None => {
                    if q == k {
                        assert(ks[i] == k);
                        assert(ks.contains(q));
                    }
                },
            }
        },
        None => {
            assert(!ks.contains(k));
            lemma_index_of_first_push(ks, k, q);
            match ks.index_of_first(q) {
                Some(j) => {
                    if q == k {
                        assert(ks[j] == q);
                        assert(ks.contains(k));
                    }
                    assert(t[j] == s[j]);
                },
                None => {},
            }
        },
    }
}

/// Setting a non-empty trimmed key to a trimmed value keeps keys distinct,
/// non-empty and trimmed, and values trimmed.
pub proof fn lemma_upsert_wf(s: Entries, k: Seq<char>, v: Seq<char>)
    requires
        entries_wf(s),
        k.len() > 0,
        trim(k) == k,
        trim(v) == v,
    ensures
        entries_wf(upsert_spec(s, k, v)),
{
    let ks = keys(s);
    let t = upsert_spec(s, k, v);
    lemma_upsert_keys(s, k, v);
    ks.index_of_first_ensures(k);
    match ks.index_of_first(k) {
        Some(i) => {
            assert forall|j: int| 0 <= j < t.len() implies (#[trigger] t[j]).0.len() > 0 && trim(
                t[j].0,
            ) == t[j].0 && trim(t[j].1) == t[j].1 by {
                if j != i {
                    assert(t[j] == s[j]);
                }
            }
        },
        None => {
            assert(!ks.contains(k));
            let kt = ks.push(k);
            assert forall|a: int, b: int| 0 <= a < kt.len() && 0 <= b < kt.len() && a != b implies kt[a]
                != kt[b] by {
                if a < ks.len() && b < ks.len() {
                    assert(kt[a] == ks[a] && kt[b] == ks[b]);
                } else if a < ks.len() {
                    assert(kt[a] == ks[a]);
                    if ks[a] == k {
                        assert(ks.contains(k));
                    }
                } else {
                    assert(kt[b] == ks[b]);
                    if ks[b] == k {
                        assert(ks.contains(k));
                    }
                }
            }
            assert forall|j: int| 0 <= j < t.len() implies (#[trigger] t[j]).0.len() > 0 && trim(
                t[j].0,
            ) == t[j].0 && trim(t[j].1) == t[j].1 by {
                if j < s.len() {
                    assert(t[j] == s[j]);
                }
            }
        },
    }
}

proof fn lemma_lookup_push(s: Entries, e: (Seq<char>, Seq<char>), q: Seq<char>)
    ensures
        lookup(s.push(e), q) == (match lookup(s, q) {
            Some(x) => Some(x),
            None => if q == e.0 {
                Some(e.1)
            } else {
                None
            },
        }),
{
    assert(keys(s.push(e)) =~= keys(s).push(e.0));
    lemma_index_of_first_push(keys(s), e.0, q);
    keys(s).index_of_first_ensures(q);
    match keys(s).index_of_first(q) {
        Some(j) => {
            assert(s.push(e)[j] == s[j]);
        },
        None => {},
    }
}

/// Merging a patch: a key the patch sets reads as the patch's value, every
/// other key as the global value.
pub proof fn lemma_merge_lookup(g: Entries, patch: Entries, q: Seq<char>)
    requires
        keys(patch).no_duplicates(),
    ensures
        lookup(merge_entries(g, patch), q) == (match lookup(patch, q) {
            Some(v) => Some(v),
            None => lookup(g, q),
        }),
    decreases patch.len(),
{
    keys(patch).index_of_first_ensures(q);
    if patch.len() > 0 {
        let p0 = patch.drop_last();
        let e = patch.last();
        assert(patch =~= p0.push(e));
        assert(keys(p0) =~= keys(patch).drop_last());
        assert(keys(p0).no_duplicates()) by {
            assert forall|a: int, b: int|
                0 <= a < keys(p0).len() && 0 <= b < keys(p0).len() && a != b implies keys(p0)[a]
                != keys(p0)[b] by {
                assert(keys(p0)[a] == keys(patch)[a] && keys(p0)[b] == keys(patch)[b]);
            }
        }
        lemma_merge_lookup(g, p0, q);
        lemma_upsert_lookup(merge_entries(g, p0), e.0, e.1, q);
        lemma_lookup_push(p0, e, q);
        let m = merge_entries(g, p0);
        assert(merge_entries(g, patch) == upsert_spec(m, e.0, e.1));
        if q == e.0 {
            keys(p0).index_of_first_ensures(q);
            if keys(p0).contains(q) {
                let j = choose|j: int| 0 <= j < keys(p0).len() && keys(p0)[j] == q;
                assert(keys(patch)[j] == q && keys(patch)[patch.len() - 1] == q);
            }
            assert(lookup(p0, q) is None);
            assert(lookup(patch, q) == Some(e.1));
        } else {
            assert(lookup(merge_entries(g, patch), q) == lookup(m, q));
        }
    }
}

/// The spoofed value of a key for a package with a patch: the patch's value
/// when the patch sets it, else the global one.
pub proof fn lemma_patch_wins(d: DeviceModel, pkg: Seq<char>, c: Category, q: Seq<char>)
    requires
        device_wf(d),
        pkg != xmsf_package(),
        patch_for(d, pkg) is Some,
    ensures
        lookup(category_entries(properties_for(pkg, Some(d)), c), q) == (match lookup(
            category_entries(patch_for(d, pkg).unwrap(), c),
            q,
        ) {
            Some(v) => Some(v),
            None => lookup(category_entries(d.global, c), q),
        }),
{
    let p = patch_for(d, pkg).unwrap();
    package_names(d).index_of_first_ensures(pkg);
    let i = package_names(d).index_of_first(pkg).unwrap();
    assert(d.packages[i].1 == p);
    assert(props_wf(p));
    lemma_merge_lookup(category_entries(d.global, c), category_entries(p, c), q);
}

proof fn lemma_with_category_wf(p: PropModel, c: Category, k: Seq<char>, v: Seq<char>)
    requires
        props_wf(p),
        k.len() > 0,
        trim(k) == k,
        trim(v) == v,
    ensures
        props_wf(with_category(p, c, upsert_spec(category_entries(p, c), k, v))),
{
    lemma_upsert_wf(category_entries(p, c), k, v);
}

proof fn lemma_header_wf(h: Seq<char>, d: DeviceModel)
    requires
        device_wf(d),
    ensures
        device_wf(header_effect(h, d).config),
        section_ok(header_effect(h, d)),
{
    if category_named(h) is None {
        if let Some((p, sub)) = rsplit_once(h, ':') {
            let p0 = p;
            let p = trim(p);
            if p.len() > 0 {
                crate::text::lemma_trim_idempotent(p0);
                let ns = package_names(d);
                ns.index_of_first_ensures(p);
                if !ns.contains(p) {
                    let d2 = with_package(d, p).0;
                    assert(package_names(d2) =~= ns.push(p));
                    assert forall|a: int, b: int|
                        0 <= a < ns.len() + 1 && 0 <= b < ns.len() + 1 && a != b implies ns.push(
                        p,
                    )[a] != ns.push(p)[b] by {
                        if a < ns.len() && b < ns.len() {
                        } else if a < ns.len() {
                            if ns[a] == p {
                                assert(ns.contains(p));
                            }
                        } else {
                            if ns[b] == p {
                                assert(ns.contains(p));
                            }
                        }
                    }
                    assert forall|i: int| 0 <= i < d2.packages.len() implies (
                    #[trigger] d2.packages[i]).0.len() > 0 && trim(d2.packages[i].0)
                        == d2.packages[i].0 && props_wf(d2.packages[i].1) by {
                        if i < d.packages.len() {
                            assert(d2.packages[i] == d.packages[i]);
                        } else {
                            assert(keys(Seq::<(Seq<char>, Seq<char>)>::empty()) =~= Seq::<
                                Seq<char>,
                            >::empty());
                        }
                    }
                }
            }
        }
    }
}

proof fn lemma_parse_line_wf(st: ParseState, line: Seq<char>)
    requires
        device_wf(st.config),
        section_ok(st),
    ensures
        device_wf(parse_line(st, line).config),
        section_ok(parse_line(st, line)),
{
    let t = trim(line);
    if t.len() == 0 || t[0] == '#' {
    } else if t.len() >= 2 && t[0] == '[' && t.last() == ']' {
        lemma_header_wf(trim(t.subrange(1, t.len() - 1)), st.config);
    } else {
        if let Some((k0, v)) = split_once(t, '=') {
            let k = trim(k0);
            if k.len() > 0 {
                crate::text::lemma_trim_idempotent(k0);
                crate::text::lemma_trim_idempotent(v);
                let d = st.config;
                match st.section {
                    Section::Skip => {},
                    Section::Global(c) => {
                        lemma_with_category_wf(d.global, c, k, trim(v));
                    },
                    Section::Package(i, c) => {
                        let d2 = assign(d, st.section, k, trim(v));
                        lemma_with_category_wf(d.packages[i as int].1, c, k, trim(v));
                        assert(package_names(d2) =~= package_names(d));
                        assert forall|j: int| 0 <= j < d2.packages.len() implies (
                        #[trigger] d2.packages[j]).0.len() > 0 && trim(d2.packages[j].0)
                            == d2.packages[j].0 && props_wf(d2.packages[j].1) by {
                            if j != i {
                                assert(d2.packages[j] == d.packages[j]);
                            }
                        }
                    },
                }
            }
        }
    }
}

proof fn lemma_parse_lines_wf(ls: Seq<Seq<char>>)
    ensures
        device_wf(parse_lines(ls).config),
        section_ok(parse_lines(ls)),
    decreases ls.len(),
{
    if ls.len() == 0 {
        assert(keys(Seq::<(Seq<char>, Seq<char>)>::empty()) =~= Seq::<Seq<char>>::empty());
        assert(package_names(empty_device()) =~= Seq::<Seq<char>>::empty());
    } else {
        lemma_parse_lines_wf(ls.drop_last());
        lemma_parse_line_wf(parse_lines(ls.drop_last()), ls.last());
    }
}

/// Whatever the text, a parsed device configuration has distinct,
/// non-empty, trimmed keys with trimmed values in every category, and
/// distinct, non-empty, trimmed package names.
pub proof fn lemma_parse_wf(content: Seq<char>)
    ensures
        device_wf(parse_config(content)),
{
    lemma_parse_lines_wf(lines_of(content));
}

/// The text of a `[package:category]` header followed by one `key=value` line.
pub open spec fn package_section_text(p: Seq<char>, n: Seq<char>, k: Seq<char>, v: Seq<char>) -> Seq<char> {
    seq!['['] + p + seq![':'] + n + seq![']', '\n'] + k + seq!['='] + v + seq!['\n']
}

/// `s` holds no `c`.
proof fn lemma_lacks(s: Seq<char>, c: char)
    requires
        forall|i: int| 0 <= i < s.len() ==> s[i] != c,
    ensures
        !s.contains(c),
{
}

/// A `[package:category]` header selects that category of that package's
/// patch: the `key=value` line after it sets the key there, for each of the
/// three category names.
pub proof fn lemma_package_section_sets(p: Seq<char>, n: Seq<char>, c: Category, k: Seq<char>, v: Seq<char>)
    requires
        (n == "system"@ && c == Category::System) || (n == "build"@ && c == Category::Build) || (n
            == "build.version"@ && c == Category::BuildVersion),
        p.len() > 0,
        trim(p) == p,
        !p.contains('\n'),
        k.len() > 0,
        trim(k) == k,
        k[0] != '#',
        k[0] != '[',
        !k.contains('='),
        !k.contains('\n'),
        trim(v) == v,
        !v.contains('\n'),
    ensures
        patch_for(parse_config(package_section_text(p, n, k, v)), p) is Some,
        lookup(
            category_entries(patch_for(parse_config(package_section_text(p, n, k, v)), p).unwrap(), c),
            k,
        ) == Some(v),
{
    reveal_strlit("system");
    reveal_strlit("build");
    reveal_strlit("build.version");
    let e = Seq::<char>::empty();
    let hp = p + seq![':'] + n;
    let h = seq!['['] + hp + seq![']'];
    let l = k + seq!['='] + v;
    let ls = seq![h, l, e];
    let text = package_section_text(p, n, k, v);
    // The text is the three lines `[p:n]`, `k=v` and an empty one.
    assert(!n.contains(':') && !n.contains('\n') && !n.contains(']'));
    assert(n.len() > 0 && !is_ws(n[0]) && !is_ws(n.last()));
    assert(!h.contains('\n')) by {
        assert forall|i: int| 0 <= i < h.len() implies h[i] != '\n' by {
            if 1 <= i < p.len() + 1 {
                assert(h[i] == p[i - 1]);
            } else if p.len() + 2 <= i < h.len() - 1 {
                assert(h[i] == n[i - p.len() - 2]);
            }
        }
        lemma_lacks(h, '\n');
    }
    assert(!l.contains('\n')) by {
        assert forall|i: int| 0 <= i < l.len() implies l[i] != '\n' by {
            if i < k.len() {
                assert(l[i] == k[i]);
            } else if i > k.len() {
                assert(l[i] == v[i - k.len() - 1]);
            }
        }
        lemma_lacks(l, '\n');
    }
    assert(ls.drop_last() =~= seq![h, l]);
    assert(seq![h, l].drop_last() =~= seq![h]);
    assert(join_lines(seq![h]) == h);
    assert(join_lines(seq![h, l]) == h + seq!['\n'] + l);
    assert(join_lines(ls) == h + seq!['\n'] + l + seq!['\n'] + e);
    assert(text =~= join_lines(ls));
    assert forall|i: int| 0 <= i < ls.len() implies !(#[trigger] ls[i]).contains('\n') by {}
    lemma_lines_of_join(ls);
    assert(lines_of(text) == ls);
    // The header line.
    lemma_trimmed_ends(p);
    lemma_trim_fixed(h);
    assert(h.subrange(1, h.len() - 1) =~= hp);
    lemma_trim_fixed(hp);
    let cp = p.len() as int;
    assert(hp[cp] == ':');
    assert(!hp.contains(':') == false);
    assert(category_named(hp) is None) by {
        assert("system"@ != hp) by {
            if "system"@ == hp {
                assert(hp.contains(':'));
            }
        }
        assert("build"@ != hp) by {
            if "build"@ == hp {
                assert(hp.contains(':'));
            }
        }
        assert("build.version"@ != hp) by {
            if "build.version"@ == hp {
                assert(hp.contains(':'));
            }
        }
    }
    assert forall|j: int| cp < j < hp.len() implies hp[j] != ':' by {
        assert(hp[j] == n[j - cp - 1]);
    }
    lemma_index_of_last_at(hp, ':', cp);
    assert(hp.take(cp) =~= p);
    assert(hp.skip(cp + 1) =~= n);
    lemma_trim_fixed(n);
    let d0 = empty_device();
    assert(package_names(d0) =~= Seq::<Seq<char>>::empty());
    lemma_index_of_first_absent(package_names(d0), p);
    let d1 = DeviceModel { packages: seq![(p, empty_props())], ..d0 };
    assert(with_package(d0, p).0 =~= d1);
    assert(category_named(n) == Some(c));
    let st0 = ParseState { config: d0, section: Section::Skip };
    let st1 = ParseState { config: d1, section: Section::Package(0, c) };
    assert(parse_lines(seq![h]) == parse_line(parse_lines(Seq::<Seq<char>>::empty()), h)) by {
        assert(seq![h].drop_last() =~= Seq::<Seq<char>>::empty());
    }
    assert(parse_line(st0, h) == st1);
    // The `key=value` line.
    lemma_trimmed_ends(k);
    if v.len() > 0 {
        lemma_trimmed_ends(v);
        assert(l.last() == v.last());
    }
    lemma_trim_fixed(l);
    let ck = k.len() as int;
    assert forall|j: int| 0 <= j < ck implies l[j] != '=' by {
        assert(l[j] == k[j]);
        if l[j] == '=' {
            assert(k.contains('='));
        }
    }
    lemma_index_of_first_at(l, '=', ck);
    assert(l.take(ck) =~= k);
    assert(l.skip(ck + 1) =~= v);
    let no_entries = Seq::<(Seq<char>, Seq<char>)>::empty();
    assert(keys(no_entries) =~= Seq::<Seq<char>>::empty());
    lemma_index_of_first_absent(keys(no_entries), k);
    assert(upsert_spec(no_entries, k, v) == seq![(k, v)]);
    let set1 = with_category(empty_props(), c, seq![(k, v)]);
    let d2 = DeviceModel { packages: seq![(p, set1)], ..d0 };
    assert(assign(d1, Section::Package(0, c), k, v) =~= d2) by {
        assert(category_entries(empty_props(), c) == no_entries);
        assert(d1.packages.update(0, (p, set1)) =~= seq![(p, set1)]);
    }
    let st2 = ParseState { config: d2, section: Section::Package(0, c) };
    assert(parse_line(st1, l) == st2);
    assert(parse_lines(seq![h, l]) == st2);
    // The empty last line changes nothing.
    assert(trim(e) =~= e);
    assert(parse_lines(ls) == st2);
    // The patch of `p` holds `k` set to `v`.
    assert(package_names(d2) =~= seq![p]);
    lemma_index_of_first_at(package_names(d2), p, 0);
    assert(category_entries(set1, c) == seq![(k, v)]);
    assert(keys(seq![(k, v)]) =~= seq![k]);
    lemma_index_of_first_at(keys(seq![(k, v)]), k, 0);
}

} // verus!

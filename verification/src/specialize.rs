//! Decisions taken before an app process specializes: which package the
//! process belongs to, whether it is MiPushFramework, and which hooks its
//! properties call for.
use vstd::prelude::*;
use vstd::string::StrSliceExecFns;
use crate::config::{PropModel, SpoofProps};
use crate::defaults::xmsf_package;
use crate::text::{chars_of, find_last, rsplit_once, str_eq};

verus! {

broadcast use vstd::string::group_string_axioms;

/// `s` without its trailing `/` characters.
pub open spec fn trim_end_slashes(s: Seq<char>) -> Seq<char>
    decreases s.len(),
{
    if s.len() > 0 && s.last() == '/' {
        trim_end_slashes(s.drop_last())
    } else {
        s
    }
}

/// The last non-empty `/`-separated segment of a data directory path, or
/// the empty text when there is none.
pub open spec fn last_segment(s: Seq<char>) -> Seq<char> {
    let t = trim_end_slashes(s);
    match rsplit_once(t, '/') {
        Some((_, last)) => last,
        None => t,
    }
}

/// The package an app process belongs to, from its data directory
/// (`/data/user/0/<package>`): the path's last non-empty segment.
pub fn parse_package_name(app_data_dir: &str) -> (r: &str)
    ensures
        r@ == last_segment(app_data_dir@),
{
    let cs = chars_of(app_data_dir);
    let mut end = cs.len();
    assert(cs@.take(end as int) =~= cs@);
    while end > 0 && cs[end - 1] == '/'
        invariant
            end <= cs@.len(),
            trim_end_slashes(cs@) == trim_end_slashes(cs@.take(end as int)),
        decreases end,
    {
        assert(cs@.take(end as int).drop_last() =~= cs@.take(end - 1));
        end = end - 1;
    }
    assert(trim_end_slashes(cs@.take(end as int)) == cs@.take(end as int));
    let ghost t = cs@.take(end as int);
    assert(t =~= cs@.subrange(0, end as int));
    match find_last(&cs, 0, end, '/') {
        Some(slash) => {
            assert(t.skip(slash + 1) =~= cs@.subrange(slash + 1, end as int));
            app_data_dir.substring_char(slash + 1, end)
        },
        None => app_data_dir.substring_char(0, end),
    }
}

/// Whether `package_name` is MiPushFramework, which is spoofed without asking the companion.
pub fn is_xmsf_package(package_name: &str) -> (r: bool)
    ensures
        r == (package_name@ == xmsf_package()),
{
    str_eq(package_name, "com.xiaomi.xmsf")
}

/// Which hooks a process's properties call for.
#[derive(Debug, Clone, Copy, PartialEq, Eq, Structural)]
pub struct HookPlan {
    /// Rewrite `android.os.Build` (and `Build.VERSION`) fields.
    pub build: bool,
    /// Replace the `SystemProperties` native getters.
    pub system_properties: bool,
}

/// The hooks for `props`: the `Build` hook when there is a `Build` or
/// `Build.VERSION` field to set, the `SystemProperties` hook when there is a
/// property to spoof.
pub open spec fn plan_for(p: PropModel) -> HookPlan {
    HookPlan {
        build: p.build.len() > 0 || p.build_version.len() > 0,
        system_properties: p.system.len() > 0,
    }
}

/// The hooks that `props` call for.
pub fn hook_plan(props: &SpoofProps) -> (r: HookPlan)
    ensures
        r == plan_for(props@),
        r.build == (props.build_properties@.len() > 0 || props.build_version_properties@.len() > 0),
        r.system_properties == (props.system_properties@.len() > 0),
{
    HookPlan {
        build: props.build_properties.len() > 0 || props.build_version_properties.len() > 0,
        system_properties: props.system_properties.len() > 0,
    }
}

/// The `Build` hook runs exactly when there is a `Build` or a
/// `Build.VERSION` field to set, and the `SystemProperties` hook exactly when
/// there is a property to spoof.
pub proof fn lemma_plan_covers_fields(p: PropModel)
    ensures
        p.build.len() > 0 ==> plan_for(p).build,
        p.build_version.len() > 0 ==> plan_for(p).build,
        plan_for(p).build ==> p.build.len() > 0 || p.build_version.len() > 0,
        plan_for(p).system_properties <==> p.system.len() > 0,
{
}

} // verus!

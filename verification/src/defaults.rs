//! The built-in Xiaomi device (a Redmi K30 5G on MIUI 13) used when no
//! device configuration is present, and the fixed properties of the
//! MiPushFramework package.
use vstd::prelude::*;
use crate::config::{entries_view, Entries, PropModel, SpoofProps};

verus! {

broadcast use vstd::string::group_string_axioms;

/// The package of MiPushFramework, which is always spoofed.
pub open spec fn xmsf_package() -> Seq<char> {
    "com.xiaomi.xmsf"@
}

/// The first half of the built-in `SystemProperties` values: other vendors' keys blanked, Xiaomi product keys.
pub open spec fn default_system_head() -> Entries {
    seq![
        ("ro.build.hw_emui_api_level"@, ""@),
        ("ro.build.version.emui"@, ""@),
        ("ro.vendor.build.emui"@, ""@),
        ("ro.huawei.build.display.id"@, ""@),
        ("ro.build.flyme.version"@, ""@),
        ("ro.flyme.version.id"@, ""@),
        ("ro.build.meizu.rom"@, ""@),
        ("ro.build.version.opporom"@, ""@),
        ("ro.build.version.oplusrom"@, ""@),
        ("ro.coloros.version"@, ""@),
        ("ro.vivo.os.name"@, ""@),
        ("ro.vivo.os.version"@, ""@),
        ("ro.funtouch.version"@, ""@),
        ("ro.oneplus.version"@, ""@),
        ("ro.oxygen.version"@, ""@),
        ("ro.samsung.smd.version"@, ""@),
        ("ro.build.scafe.version"@, ""@),
        ("persist.sys.oppo.region"@, ""@),
        ("ro.oppo.regionmark"@, ""@),
        ("ro.hw.country"@, ""@),
        ("ro.csc.countryiso_code"@, ""@),
        ("gsm.vivo.countrycode"@, ""@),
        ("persist.sys.oem.region"@, ""@),
        ("ro.product.brand"@, "Xiaomi"@),
        ("ro.product.manufacturer"@, "Xiaomi"@),
        ("ro.product.model"@, "Redmi K30 5G"@),
        ("ro.product.device"@, "picasso"@),
        ("ro.product.name"@, "picasso"@),
        ("ro.product.board"@, "picasso"@),
        ("ro.product.cpu.abi"@, "arm64-v8a"@),
        ("ro.product.cpu.abi2"@, "armeabi-v7a"@),
        ("ro.product.cpu.abilist"@, "arm64-v8a,armeabi-v7a,armeabi"@),
        ("ro.product.cpu.abilist32"@, "armeabi-v7a,armeabi"@),
        ("ro.product.cpu.abilist64"@, "arm64-v8a"@),
        ("ro.miui.ui.version.name"@, "V130"@),
        ("ro.miui.ui.version.code"@, "13"@),
        ("ro.miui.version.code_time"@, "1625587200"@),
        ("ro.miui.build.region"@, "cn"@),
    ]
}
/// The second half of the built-in `SystemProperties` values.
pub open spec fn default_system_tail() -> Entries {
    seq![
        ("ro.miui.internal.storage"@, "/sdcard/"@),
        ("ro.miui.cust_device"@, "picasso"@),
        ("ro.miui.cust_variant"@, "cn"@),
        ("ro.product.mod_device"@, "picasso"@),
        ("ro.miui.has_gmscore"@, "1"@),
        ("ro.miui.notch"@, "1"@),
        ("ro.miui.has_security_keyboard"@, "1"@),
        ("ro.fota.oem"@, "Xiaomi"@),
        ("ro.rom.zone"@, "1"@),
        ("ro.mi.development"@, "false"@),
        ("ro.build.display.id"@, "SKQ1.211006.001 test-keys"@),
        ("ro.build.id"@, "SKQ1.211006.001"@),
        ("ro.build.version.incremental"@, "V13.0.5.0.SGICNXM"@),
        ("ro.build.version.release"@, "12"@),
        ("ro.build.version.security_patch"@, "2022-02-01"@),
        ("ro.build.type"@, "user"@),
        ("ro.build.user"@, "builder"@),
        ("ro.build.host"@, "miui-build"@),
        ("ro.build.tags"@, "release-keys"@),
        ("ro.build.description"@, "picasso-user 12 SKQ1.211006.001 V13.0.5.0.SGICNXM release-keys"@),
        ("ro.build.product"@, "picasso"@),
        ("ro.product.property_source_order"@, "odm,vendor,product,system_ext,system"@),
        ("ro.product.system.manufacturer"@, "Xiaomi"@),
        ("ro.product.vendor.brand"@, "Xiaomi"@),
        ("ro.product.vendor.manufacturer"@, "Xiaomi"@),
        ("ro.miui.region"@, "CN"@),
        ("ro.vendor.miui.region"@, "CN"@),
        ("ro.product.locale"@, "zh-CN"@),
        ("ro.product.locale.region"@, "CN"@),
        ("ro.product.locale.language"@, "zh"@),
        ("ro.product.country.region"@, "CN"@),
        ("persist.sys.country"@, "CN"@),
        ("persist.sys.miconnect.running"@, "1"@),
        ("persist.sys.millet.handshake"@, "true"@),
        ("persist.sys.brightmillet.enable"@, "true"@),
        ("ro.miui.enable_cloud_verify"@, "true"@),
        ("ro.vendor.radio.build_region"@, "cn"@),
        ("ro.vendor.radio.build_profile"@, "miui"@),
        ("sys.boot_completed"@, "1"@),
    ]
}
/// The built-in `SystemProperties` values.
pub open spec fn default_system() -> Entries {
    default_system_head() + default_system_tail()
}

/// The built-in `android.os.Build` fields.
pub open spec fn default_build() -> Entries {
    seq![
        ("BOARD"@, "picasso"@),
        ("BRAND"@, "Xiaomi"@),
        ("MANUFACTURER"@, "Xiaomi"@),
        ("MODEL"@, "Redmi K30 5G"@),
        ("DEVICE"@, "picasso"@),
        ("PRODUCT"@, "picasso"@),
        ("DISPLAY"@, "SKQ1.211006.001 test-keys"@),
        ("CPU_ABI"@, "arm64-v8a"@),
        ("CPU_ABI2"@, "armeabi-v7a"@),
        ("FINGERPRINT"@, "Redmi/picasso/picasso:12/SKQ1.211006.001/V13.0.5.0.SGICNXM:user/release-keys"@),
        ("HOST"@, "miui-build"@),
        ("ID"@, "SKQ1.211006.001"@),
        ("TAGS"@, "release-keys"@),
        ("TYPE"@, "user"@),
        ("USER"@, "builder"@),
    ]
}
/// The built-in `android.os.Build.VERSION` fields.
pub open spec fn default_build_version() -> Entries {
    seq![
        ("INCREMENTAL"@, "V13.0.5.0.SGICNXM"@),
        ("RELEASE"@, "12"@),
        ("SECURITY_PATCH"@, "2022-02-01"@),
    ]
}
/// The built-in device.
pub open spec fn default_props() -> PropModel {
    PropModel { system: default_system(), build: default_build(), build_version: default_build_version() }
}

/// The properties of MiPushFramework: only the marker it detects the module by.
pub open spec fn xmsf_props() -> PropModel {
    PropModel {
        system: seq![("mipush.zygisk.enabled"@, "true"@)],
        build: Seq::empty(),
        build_version: Seq::empty(),
    }
}

fn entry(k: &str, v: &str) -> (r: (String, String))
    ensures
        r.0@ == k@,
        r.1@ == v@,
{
    (k.to_owned(), v.to_owned())
}

/// The first half of the built-in `SystemProperties` values.
fn default_system_head_entries() -> (r: Vec<(String, String)>)
    ensures
        entries_view(r@) == default_system_head(),
{
    let mut r: Vec<(String, String)> = Vec::new();
    r.push(entry("ro.build.hw_emui_api_level", ""));
    r.push(entry("ro.build.version.emui", ""));
    r.push(entry("ro.vendor.build.emui", ""));
    r.push(entry("ro.huawei.build.display.id", ""));
    r.push(entry("ro.build.flyme.version", ""));
    r.push(entry("ro.flyme.version.id", ""));
    r.push(entry("ro.build.meizu.rom", ""));
    r.push(entry("ro.build.version.opporom", ""));
    r.push(entry("ro.build.version.oplusrom", ""));
    r.push(entry("ro.coloros.version", ""));
    r.push(entry("ro.vivo.os.name", ""));
    r.push(entry("ro.vivo.os.version", ""));
    r.push(entry("ro.funtouch.version", ""));
    r.push(entry("ro.oneplus.version", ""));
    r.push(entry("ro.oxygen.version", ""));
    r.push(entry("ro.samsung.smd.version", ""));
    r.push(entry("ro.build.scafe.version", ""));
    r.push(entry("persist.sys.oppo.region", ""));
    r.push(entry("ro.oppo.regionmark", ""));
    r.push(entry("ro.hw.country", ""));
    r.push(entry("ro.csc.countryiso_code", ""));
    r.push(entry("gsm.vivo.countrycode", ""));
    r.push(entry("persist.sys.oem.region", ""));
    r.push(entry("ro.product.brand", "Xiaomi"));
    r.push(entry("ro.product.manufacturer", "Xiaomi"));
    r.push(entry("ro.product.model", "Redmi K30 5G"));
    r.push(entry("ro.product.device", "picasso"));
    r.push(entry("ro.product.name", "picasso"));
    r.push(entry("ro.product.board", "picasso"));
    r.push(entry("ro.product.cpu.abi", "arm64-v8a"));
    r.push(entry("ro.product.cpu.abi2", "armeabi-v7a"));
    r.push(entry("ro.product.cpu.abilist", "arm64-v8a,armeabi-v7a,armeabi"));
    r.push(entry("ro.product.cpu.abilist32", "armeabi-v7a,armeabi"));
    r.push(entry("ro.product.cpu.abilist64", "arm64-v8a"));
    r.push(entry("ro.miui.ui.version.name", "V130"));
    r.push(entry("ro.miui.ui.version.code", "13"));
    r.push(entry("ro.miui.version.code_time", "1625587200"));
    r.push(entry("ro.miui.build.region", "cn"));
    assert(entries_view(r@) =~= default_system_head());
    r
}
/// The second half of the built-in `SystemProperties` values.
fn default_system_tail_entries() -> (r: Vec<(String, String)>)
    ensures
        entries_view(r@) == default_system_tail(),
{
    let mut r: Vec<(String, String)> = Vec::new();
    r.push(entry("ro.miui.internal.storage", "/sdcard/"));
    r.push(entry("ro.miui.cust_device", "picasso"));
    r.push(entry("ro.miui.cust_variant", "cn"));
    r.push(entry("ro.product.mod_device", "picasso"));
    r.push(entry("ro.miui.has_gmscore", "1"));
    r.push(entry("ro.miui.notch", "1"));
    r.push(entry("ro.miui.has_security_keyboard", "1"));
    r.push(entry("ro.fota.oem", "Xiaomi"));
    r.push(entry("ro.rom.zone", "1"));
    r.push(entry("ro.mi.development", "false"));
    r.push(entry("ro.build.display.id", "SKQ1.211006.001 test-keys"));
    r.push(entry("ro.build.id", "SKQ1.211006.001"));
    r.push(entry("ro.build.version.incremental", "V13.0.5.0.SGICNXM"));
    r.push(entry("ro.build.version.release", "12"));
    r.push(entry("ro.build.version.security_patch", "2022-02-01"));
    r.push(entry("ro.build.type", "user"));
    r.push(entry("ro.build.user", "builder"));
    r.push(entry("ro.build.host", "miui-build"));
    r.push(entry("ro.build.tags", "release-keys"));
    r.push(entry("ro.build.description", "picasso-user 12 SKQ1.211006.001 V13.0.5.0.SGICNXM release-keys"));
    r.push(entry("ro.build.product", "picasso"));
    r.push(entry("ro.product.property_source_order", "odm,vendor,product,system_ext,system"));
    r.push(entry("ro.product.system.manufacturer", "Xiaomi"));
    r.push(entry("ro.product.vendor.brand", "Xiaomi"));
    r.push(entry("ro.product.vendor.manufacturer", "Xiaomi"));
    r.push(entry("ro.miui.region", "CN"));
    r.push(entry("ro.vendor.miui.region", "CN"));
    r.push(entry("ro.product.locale", "zh-CN"));
    r.push(entry("ro.product.locale.region", "CN"));
    r.push(entry("ro.product.locale.language", "zh"));
    r.push(entry("ro.product.country.region", "CN"));
    r.push(entry("persist.sys.country", "CN"));
    r.push(entry("persist.sys.miconnect.running", "1"));
    r.push(entry("persist.sys.millet.handshake", "true"));
    r.push(entry("persist.sys.brightmillet.enable", "true"));
    r.push(entry("ro.miui.enable_cloud_verify", "true"));
    r.push(entry("ro.vendor.radio.build_region", "cn"));
    r.push(entry("ro.vendor.radio.build_profile", "miui"));
    r.push(entry("sys.boot_completed", "1"));
    assert(entries_view(r@) =~= default_system_tail());
    r
}
/// The built-in `android.os.Build` fields.
fn default_build_entries() -> (r: Vec<(String, String)>)
    ensures
        entries_view(r@) == default_build(),
{
    let mut r: Vec<(String, String)> = Vec::new();
    r.push(entry("BOARD", "picasso"));
    r.push(entry("BRAND", "Xiaomi"));
    r.push(entry("MANUFACTURER", "Xiaomi"));
    r.push(entry("MODEL", "Redmi K30 5G"));
    r.push(entry("DEVICE", "picasso"));
    r.push(entry("PRODUCT", "picasso"));
    r.push(entry("DISPLAY", "SKQ1.211006.001 test-keys"));
    r.push(entry("CPU_ABI", "arm64-v8a"));
    r.push(entry("CPU_ABI2", "armeabi-v7a"));
    r.push(entry("FINGERPRINT", "Redmi/picasso/picasso:12/SKQ1.211006.001/V13.0.5.0.SGICNXM:user/release-keys"));
    r.push(entry("HOST", "miui-build"));
    r.push(entry("ID", "SKQ1.211006.001"));
    r.push(entry("TAGS", "release-keys"));
    r.push(entry("TYPE", "user"));
    r.push(entry("USER", "builder"));
    assert(entries_view(r@) =~= default_build());
    r
}
/// The built-in `android.os.Build.VERSION` fields.
fn default_build_version_entries() -> (r: Vec<(String, String)>)
    ensures
        entries_view(r@) == default_build_version(),
{
    let mut r: Vec<(String, String)> = Vec::new();
    r.push(entry("INCREMENTAL", "V13.0.5.0.SGICNXM"));
    r.push(entry("RELEASE", "12"));
    r.push(entry("SECURITY_PATCH", "2022-02-01"));
    assert(entries_view(r@) =~= default_build_version());
    r
}
/// The built-in device's properties, used when no device configuration applies.
pub fn default_spoof_props() -> (r: SpoofProps)
    ensures
        r@ == default_props(),
{
    let mut system = default_system_head_entries();
    let tail = default_system_tail_entries();
    let ghost head = system@;
    let mut i: usize = 0;
    while i < tail.len()
        invariant
            i <= tail@.len(),
            entries_view(head) == default_system_head(),
            entries_view(tail@) == default_system_tail(),
            system@ == head + tail@.take(i as int),
        decreases tail@.len() - i,
    {
        let k = tail[i].0.clone();
        let v = tail[i].1.clone();
        system.push((k, v));
        assert(tail@.take(i + 1) =~= tail@.take(i as int).push(tail@[i as int]));
        i = i + 1;
    }
    assert(tail@.take(tail@.len() as int) =~= tail@);
    assert(entries_view(system@) =~= default_system());
    let r = SpoofProps {
        system_properties: system,
        build_properties: default_build_entries(),
        build_version_properties: default_build_version_entries(),
    };
    assert(r@ =~= default_props());
    r
}

/// The properties of MiPushFramework.
pub fn xmsf_spoof_props() -> (r: SpoofProps)
    ensures
        r@ == xmsf_props(),
{
    let mut system: Vec<(String, String)> = Vec::new();
    system.push(entry("mipush.zygisk.enabled", "true"));
    let r = SpoofProps {
        system_properties: system,
        build_properties: Vec::new(),
        build_version_properties: Vec::new(),
    };
    assert(r@ =~= xmsf_props());
    r
}

} // verus!

//! What the built-in Xiaomi device is, stated key by key: without a device
//! configuration, every package but MiPushFramework is spoofed with exactly
//! this table, and each key reads as its value.
use vstd::prelude::*;
use crate::config::{keys, lookup, properties_for, Entries};
use crate::defaults::{default_system_head, default_system_tail, xmsf_package};
use crate::text::lemma_index_of_first_at;

verus! {

broadcast use vstd::string::group_string_axioms;

/// `k` first stands at position `i` of `s`, so it reads as that entry's value.
proof fn lemma_lookup_at(s: Entries, i: int)
    requires
        0 <= i < s.len(),
        forall|j: int| 0 <= j < i ==> s[j].0 != s[i].0,
    ensures
        lookup(s, s[i].0) == Some(s[i].1),
{
    assert forall|j: int| 0 <= j < i implies keys(s)[j] != s[i].0 by {
        assert(keys(s)[j] == s[j].0);
    }
    lemma_index_of_first_at(keys(s), s[i].0, i);
}

/// Without a device configuration, a package other than MiPushFramework is
/// spoofed with exactly the built-in Xiaomi device: these
/// `SystemProperties` values, `Build` fields and `Build.VERSION` fields, in
/// this order.
pub proof fn lemma_builtin_device(pkg: Seq<char>)
    requires
        pkg != xmsf_package(),
    ensures
        properties_for(pkg, None).system.len() == 77,
        properties_for(pkg, None).system.subrange(0, 10) =~= seq![
            ("ro.build.hw_emui_api_level"@, ""@),
            ("ro.build.version.emui"@, ""@),
            ("ro.vendor.build.emui"@, ""@),
            ("ro.huawei.build.display.id"@, ""@),
            ("ro.build.flyme.version"@, ""@),
            ("ro.flyme.version.id"@, ""@),
            ("ro.build.meizu.rom"@, ""@),
            ("ro.build.version.opporom"@, ""@),
            ("ro.build.version.oplusrom"@, ""@),
            ("ro.coloros.version"@, ""@),
        ],
        properties_for(pkg, None).system.subrange(10, 20) =~= seq![
            ("ro.vivo.os.name"@, ""@),
            ("ro.vivo.os.version"@, ""@),
            ("ro.funtouch.version"@, ""@),
            ("ro.oneplus.version"@, ""@),
            ("ro.oxygen.version"@, ""@),
            ("ro.samsung.smd.version"@, ""@),
            ("ro.build.scafe.version"@, ""@),
            ("persist.sys.oppo.region"@, ""@),
            ("ro.oppo.regionmark"@, ""@),
            ("ro.hw.country"@, ""@),
        ],
        properties_for(pkg, None).system.subrange(20, 30) =~= seq![
            ("ro.csc.countryiso_code"@, ""@),
            ("gsm.vivo.countrycode"@, ""@),
            ("persist.sys.oem.region"@, ""@),
            ("ro.product.brand"@, "Xiaomi"@),
            ("ro.product.manufacturer"@, "Xiaomi"@),
            ("ro.product.model"@, "Redmi K30 5G"@),
            ("ro.product.device"@, "picasso"@),
            ("ro.product.name"@, "picasso"@),
            ("ro.product.board"@, "picasso"@),
            ("ro.product.cpu.abi"@, "arm64-v8a"@),
        ],
        properties_for(pkg, None).system.subrange(30, 40) =~= seq![
            ("ro.product.cpu.abi2"@, "armeabi-v7a"@),
            ("ro.product.cpu.abilist"@, "arm64-v8a,armeabi-v7a,armeabi"@),
            ("ro.product.cpu.abilist32"@, "armeabi-v7a,armeabi"@),
            ("ro.product.cpu.abilist64"@, "arm64-v8a"@),
            ("ro.miui.ui.version.name"@, "V130"@),
            ("ro.miui.ui.version.code"@, "13"@),
            ("ro.miui.version.code_time"@, "1625587200"@),
            ("ro.miui.build.region"@, "cn"@),
            ("ro.miui.internal.storage"@, "/sdcard/"@),
            ("ro.miui.cust_device"@, "picasso"@),
        ],
        properties_for(pkg, None).system.subrange(40, 50) =~= seq![
            ("ro.miui.cust_variant"@, "cn"@),
            ("ro.product.mod_device"@, "picasso"@),
            ("ro.miui.has_gmscore"@, "1"@),
            ("ro.miui.notch"@, "1"@),
            ("ro.miui.has_security_keyboard"@, "1"@),
            ("ro.fota.oem"@, "Xiaomi"@),
            ("ro.rom.zone"@, "1"@),
            ("ro.mi.development"@, "false"@),
            ("ro.build.display.id"@, "SKQ1.211006.001 test-keys"@),
            ("ro.build.id"@, "SKQ1.211006.001"@),
        ],
        properties_for(pkg, None).system.subrange(50, 60) =~= seq![
            ("ro.build.version.incremental"@, "V13.0.5.0.SGICNXM"@),
            ("ro.build.version.release"@, "12"@),
            ("ro.build.version.security_patch"@, "2022-02-01"@),
            ("ro.build.type"@, "user"@),
            ("ro.build.user"@, "builder"@),
            ("ro.build.host"@, "miui-build"@),
            ("ro.build.tags"@, "release-keys"@),
            ("ro.build.description"@, "picasso-user 12 SKQ1.211006.001 V13.0.5.0.SGICNXM release-keys"@),
            ("ro.build.product"@, "picasso"@),
            ("ro.product.property_source_order"@, "odm,vendor,product,system_ext,system"@),
        ],
        properties_for(pkg, None).system.subrange(60, 70) =~= seq![
            ("ro.product.system.manufacturer"@, "Xiaomi"@),
            ("ro.product.vendor.brand"@, "Xiaomi"@),
            ("ro.product.vendor.manufacturer"@, "Xiaomi"@),
            ("ro.miui.region"@, "CN"@),
            ("ro.vendor.miui.region"@, "CN"@),
            ("ro.product.locale"@, "zh-CN"@),
            ("ro.product.locale.region"@, "CN"@),
            ("ro.product.locale.language"@, "zh"@),
            ("ro.product.country.region"@, "CN"@),
            ("persist.sys.country"@, "CN"@),
        ],
        properties_for(pkg, None).system.subrange(70, 77) =~= seq![
            ("persist.sys.miconnect.running"@, "1"@),
            ("persist.sys.millet.handshake"@, "true"@),
            ("persist.sys.brightmillet.enable"@, "true"@),
            ("ro.miui.enable_cloud_verify"@, "true"@),
            ("ro.vendor.radio.build_region"@, "cn"@),
            ("ro.vendor.radio.build_profile"@, "miui"@),
            ("sys.boot_completed"@, "1"@),
        ],
        properties_for(pkg, None).build == seq![
            ("BOARD"@, "picasso"@),
            ("BRAND"@, "Xiaomi"@),
            ("MANUFACTURER"@, "Xiaomi"@),
            ("MODEL"@, "Redmi K30 5G"@),
            ("DEVICE"@, "picasso"@),
            ("PRODUCT"@, "picasso"@),
            ("DISPLAY"@, "SKQ1.211006.001 test-keys"@),
            ("CPU_ABI"@, "arm64-v8a"@),
            ("CPU_ABI2"@, "armeabi-v7a"@),
            ("FINGERPRINT"@, "Redmi/picasso/picasso:12/SKQ1.211006.001/V13.0.5.0.SGICNXM:user/release-keys"@),
            ("HOST"@, "miui-build"@),
            ("ID"@, "SKQ1.211006.001"@),
            ("TAGS"@, "release-keys"@),
            ("TYPE"@, "user"@),
            ("USER"@, "builder"@),
        ],
        properties_for(pkg, None).build_version == seq![
            ("INCREMENTAL"@, "V13.0.5.0.SGICNXM"@),
            ("RELEASE"@, "12"@),
            ("SECURITY_PATCH"@, "2022-02-01"@),
        ],
{
    let s = properties_for(pkg, None).system;
    assert(s == default_system_head() + default_system_tail());
}

/// Without a device configuration, each built-in `Build` field reads as the Xiaomi device's value.
pub proof fn lemma_builtin_build(pkg: Seq<char>)
    requires
        pkg != xmsf_package(),
    ensures
        lookup(properties_for(pkg, None).build, "BOARD"@) == Some("picasso"@),
        lookup(properties_for(pkg, None).build, "BRAND"@) == Some("Xiaomi"@),
        lookup(properties_for(pkg, None).build, "MANUFACTURER"@) == Some("Xiaomi"@),
        lookup(properties_for(pkg, None).build, "MODEL"@) == Some("Redmi K30 5G"@),
        lookup(properties_for(pkg, None).build, "DEVICE"@) == Some("picasso"@),
        lookup(properties_for(pkg, None).build, "PRODUCT"@) == Some("picasso"@),
        lookup(properties_for(pkg, None).build, "DISPLAY"@) == Some("SKQ1.211006.001 test-keys"@),
        lookup(properties_for(pkg, None).build, "CPU_ABI"@) == Some("arm64-v8a"@),
        lookup(properties_for(pkg, None).build, "CPU_ABI2"@) == Some("armeabi-v7a"@),
        lookup(properties_for(pkg, None).build, "FINGERPRINT"@) == Some("Redmi/picasso/picasso:12/SKQ1.211006.001/V13.0.5.0.SGICNXM:user/release-keys"@),
        lookup(properties_for(pkg, None).build, "HOST"@) == Some("miui-build"@),
        lookup(properties_for(pkg, None).build, "ID"@) == Some("SKQ1.211006.001"@),
        lookup(properties_for(pkg, None).build, "TAGS"@) == Some("release-keys"@),
        lookup(properties_for(pkg, None).build, "TYPE"@) == Some("user"@),
        lookup(properties_for(pkg, None).build, "USER"@) == Some("builder"@),
{
    lemma_builtin_device(pkg);
    let s = properties_for(pkg, None).build;
    reveal_strlit("BOARD");
    assert("BOARD"@.len() == 5);
    reveal_strlit("BRAND");
    assert("BRAND"@.len() == 5);
    reveal_strlit("MANUFACTURER");
    assert("MANUFACTURER"@.len() == 12);
    reveal_strlit("MODEL");
    assert("MODEL"@.len() == 5);
    reveal_strlit("DEVICE");
    assert("DEVICE"@.len() == 6);
    reveal_strlit("PRODUCT");
    assert("PRODUCT"@.len() == 7);
    reveal_strlit("DISPLAY");
    assert("DISPLAY"@.len() == 7);
    reveal_strlit("CPU_ABI");
    assert("CPU_ABI"@.len() == 7);
    reveal_strlit("CPU_ABI2");
    assert("CPU_ABI2"@.len() == 8);
    reveal_strlit("FINGERPRINT");
    assert("FINGERPRINT"@.len() == 11);
    reveal_strlit("HOST");
    assert("HOST"@.len() == 4);
    reveal_strlit("ID");
    assert("ID"@.len() == 2);
    reveal_strlit("TAGS");
    assert("TAGS"@.len() == 4);
    reveal_strlit("TYPE");
    assert("TYPE"@.len() == 4);
    reveal_strlit("USER");
    assert("USER"@.len() == 4);
    assert("BOARD"@[1] != "BRAND"@[1]);
    assert("BOARD"@[0] != "MODEL"@[0]);
    assert("BRAND"@[0] != "MODEL"@[0]);
    assert("PRODUCT"@[0] != "DISPLAY"@[0]);
    assert("PRODUCT"@[0] != "CPU_ABI"@[0]);
    assert("DISPLAY"@[0] != "CPU_ABI"@[0]);
    assert("HOST"@[0] != "TAGS"@[0]);
    assert("HOST"@[0] != "TYPE"@[0]);
    assert("TAGS"@[1] != "TYPE"@[1]);
    assert("HOST"@[0] != "USER"@[0]);
    assert("TAGS"@[0] != "USER"@[0]);
    assert("TYPE"@[0] != "USER"@[0]);
    lemma_lookup_at(s, 0);
    lemma_lookup_at(s, 1);
    lemma_lookup_at(s, 2);
    lemma_lookup_at(s, 3);
    lemma_lookup_at(s, 4);
    lemma_lookup_at(s, 5);
    lemma_lookup_at(s, 6);
    lemma_lookup_at(s, 7);
    lemma_lookup_at(s, 8);
    lemma_lookup_at(s, 9);
    lemma_lookup_at(s, 10);
    lemma_lookup_at(s, 11);
    lemma_lookup_at(s, 12);
    lemma_lookup_at(s, 13);
    lemma_lookup_at(s, 14);
}

/// Without a device configuration, each built-in `Build.VERSION` field reads as the Xiaomi device's value.
pub proof fn lemma_builtin_build_version(pkg: Seq<char>)
    requires
        pkg != xmsf_package(),
    ensures
        lookup(properties_for(pkg, None).build_version, "INCREMENTAL"@) == Some("V13.0.5.0.SGICNXM"@),
        lookup(properties_for(pkg, None).build_version, "RELEASE"@) == Some("12"@),
        lookup(properties_for(pkg, None).build_version, "SECURITY_PATCH"@) == Some("2022-02-01"@),
{
    lemma_builtin_device(pkg);
    let s = properties_for(pkg, None).build_version;
    reveal_strlit("INCREMENTAL");
    assert("INCREMENTAL"@.len() == 11);
    reveal_strlit("RELEASE");
    assert("RELEASE"@.len() == 7);
    reveal_strlit("SECURITY_PATCH");
    assert("SECURITY_PATCH"@.len() == 14);
    lemma_lookup_at(s, 0);
    lemma_lookup_at(s, 1);
    lemma_lookup_at(s, 2);
}

/// Without a device configuration, every built-in `SystemProperties` key
/// occurs once, so looking it up gives the value it stands with in the
/// built-in table.
pub proof fn lemma_builtin_system_lookup(pkg: Seq<char>, i: int)
    requires
        pkg != xmsf_package(),
        0 <= i < properties_for(pkg, None).system.len(),
    ensures
        lookup(properties_for(pkg, None).system, properties_for(pkg, None).system[i].0) == Some(
            properties_for(pkg, None).system[i].1,
        ),
{
    lemma_builtin_device(pkg);
    let s = properties_for(pkg, None).system;
    reveal_strlit("ro.build.hw_emui_api_level");
    assert("ro.build.hw_emui_api_level"@.len() == 26);
    reveal_strlit("ro.build.version.emui");
    assert("ro.build.version.emui"@.len() == 21);
    reveal_strlit("ro.vendor.build.emui");
    assert("ro.vendor.build.emui"@.len() == 20);
    reveal_strlit("ro.huawei.build.display.id");
    assert("ro.huawei.build.display.id"@.len() == 26);
    reveal_strlit("ro.build.flyme.version");
    assert("ro.build.flyme.version"@.len() == 22);
    reveal_strlit("ro.flyme.version.id");
    assert("ro.flyme.version.id"@.len() == 19);
    reveal_strlit("ro.build.meizu.rom");
    assert("ro.build.meizu.rom"@.len() == 18);
    reveal_strlit("ro.build.version.opporom");
    assert("ro.build.version.opporom"@.len() == 24);
    reveal_strlit("ro.build.version.oplusrom");
    assert("ro.build.version.oplusrom"@.len() == 25);
    reveal_strlit("ro.coloros.version");
    assert("ro.coloros.version"@.len() == 18);
    reveal_strlit("ro.vivo.os.name");
    assert("ro.vivo.os.name"@.len() == 15);
    reveal_strlit("ro.vivo.os.version");
    assert("ro.vivo.os.version"@.len() == 18);
    reveal_strlit("ro.funtouch.version");
    assert("ro.funtouch.version"@.len() == 19);
    reveal_strlit("ro.oneplus.version");
    assert("ro.oneplus.version"@.len() == 18);
    reveal_strlit("ro.oxygen.version");
    assert("ro.oxygen.version"@.len() == 17);
    reveal_strlit("ro.samsung.smd.version");
    assert("ro.samsung.smd.version"@.len() == 22);
    reveal_strlit("ro.build.scafe.version");
    assert("ro.build.scafe.version"@.len() == 22);
    reveal_strlit("persist.sys.oppo.region");
    assert("persist.sys.oppo.region"@.len() == 23);
    reveal_strlit("ro.oppo.regionmark");
    assert("ro.oppo.regionmark"@.len() == 18);
    reveal_strlit("ro.hw.country");
    assert("ro.hw.country"@.len() == 13);
    reveal_strlit("ro.csc.countryiso_code");
    assert("ro.csc.countryiso_code"@.len() == 22);
    reveal_strlit("gsm.vivo.countrycode");
    assert("gsm.vivo.countrycode"@.len() == 20);
    reveal_strlit("persist.sys.oem.region");
    assert("persist.sys.oem.region"@.len() == 22);
    reveal_strlit("ro.product.brand");
    assert("ro.product.brand"@.len() == 16);
    reveal_strlit("ro.product.manufacturer");
    assert("ro.product.manufacturer"@.len() == 23);
    reveal_strlit("ro.product.model");
    assert("ro.product.model"@.len() == 16);
    reveal_strlit("ro.product.device");
    assert("ro.product.device"@.len() == 17);
    reveal_strlit("ro.product.name");
    assert("ro.product.name"@.len() == 15);
    reveal_strlit("ro.product.board");
    assert("ro.product.board"@.len() == 16);
    reveal_strlit("ro.product.cpu.abi");
    assert("ro.product.cpu.abi"@.len() == 18);
    reveal_strlit("ro.product.cpu.abi2");
    assert("ro.product.cpu.abi2"@.len() == 19);
    reveal_strlit("ro.product.cpu.abilist");
    assert("ro.product.cpu.abilist"@.len() == 22);
    reveal_strlit("ro.product.cpu.abilist32");
    assert("ro.product.cpu.abilist32"@.len() == 24);
    reveal_strlit("ro.product.cpu.abilist64");
    assert("ro.product.cpu.abilist64"@.len() == 24);
    reveal_strlit("ro.miui.ui.version.name");
    assert("ro.miui.ui.version.name"@.len() == 23);
    reveal_strlit("ro.miui.ui.version.code");
    assert("ro.miui.ui.version.code"@.len() == 23);
    reveal_strlit("ro.miui.version.code_time");
    assert("ro.miui.version.code_time"@.len() == 25);
    reveal_strlit("ro.miui.build.region");
    assert("ro.miui.build.region"@.len() == 20);
    reveal_strlit("ro.miui.internal.storage");
    assert("ro.miui.internal.storage"@.len() == 24);
    reveal_strlit("ro.miui.cust_device");
    assert("ro.miui.cust_device"@.len() == 19);
    reveal_strlit("ro.miui.cust_variant");
    assert("ro.miui.cust_variant"@.len() == 20);
    reveal_strlit("ro.product.mod_device");
    assert("ro.product.mod_device"@.len() == 21);
    reveal_strlit("ro.miui.has_gmscore");
    assert("ro.miui.has_gmscore"@.len() == 19);
    reveal_strlit("ro.miui.notch");
    assert("ro.miui.notch"@.len() == 13);
    reveal_strlit("ro.miui.has_security_keyboard");
    assert("ro.miui.has_security_keyboard"@.len() == 29);
    reveal_strlit("ro.fota.oem");
    assert("ro.fota.oem"@.len() == 11);
    reveal_strlit("ro.rom.zone");
    assert("ro.rom.zone"@.len() == 11);
    reveal_strlit("ro.mi.development");
    assert("ro.mi.development"@.len() == 17);
    reveal_strlit("ro.build.display.id");
    assert("ro.build.display.id"@.len() == 19);
    reveal_strlit("ro.build.id");
    assert("ro.build.id"@.len() == 11);
    reveal_strlit("ro.build.version.incremental");
    assert("ro.build.version.incremental"@.len() == 28);
    reveal_strlit("ro.build.version.release");
    assert("ro.build.version.release"@.len() == 24);
    reveal_strlit("ro.build.version.security_patch");
    assert("ro.build.version.security_patch"@.len() == 31);
    reveal_strlit("ro.build.type");
    assert("ro.build.type"@.len() == 13);
    reveal_strlit("ro.build.user");
    assert("ro.build.user"@.len() == 13);
    reveal_strlit("ro.build.host");
    assert("ro.build.host"@.len() == 13);
    reveal_strlit("ro.build.tags");
    assert("ro.build.tags"@.len() == 13);
    reveal_strlit("ro.build.description");
    assert("ro.build.description"@.len() == 20);
    reveal_strlit("ro.build.product");
    assert("ro.build.product"@.len() == 16);
    reveal_strlit("ro.product.property_source_order");
    assert("ro.product.property_source_order"@.len() == 32);
    reveal_strlit("ro.product.system.manufacturer");
    assert("ro.product.system.manufacturer"@.len() == 30);
    reveal_strlit("ro.product.vendor.brand");
    assert("ro.product.vendor.brand"@.len() == 23);
    reveal_strlit("ro.product.vendor.manufacturer");
    assert("ro.product.vendor.manufacturer"@.len() == 30);
    reveal_strlit("ro.miui.region");
    assert("ro.miui.region"@.len() == 14);
    reveal_strlit("ro.vendor.miui.region");
    assert("ro.vendor.miui.region"@.len() == 21);
    reveal_strlit("ro.product.locale");
    assert("ro.product.locale"@.len() == 17);
    reveal_strlit("ro.product.locale.region");
    assert("ro.product.locale.region"@.len() == 24);
    reveal_strlit("ro.product.locale.language");
    assert("ro.product.locale.language"@.len() == 26);
    reveal_strlit("ro.product.country.region");
    assert("ro.product.country.region"@.len() == 25);
    reveal_strlit("persist.sys.country");
    assert("persist.sys.country"@.len() == 19);
    reveal_strlit("persist.sys.miconnect.running");
    assert("persist.sys.miconnect.running"@.len() == 29);
    reveal_strlit("persist.sys.millet.handshake");
    assert("persist.sys.millet.handshake"@.len() == 28);
    reveal_strlit("persist.sys.brightmillet.enable");
    assert("persist.sys.brightmillet.enable"@.len() == 31);
    reveal_strlit("ro.miui.enable_cloud_verify");
    assert("ro.miui.enable_cloud_verify"@.len() == 27);
    reveal_strlit("ro.vendor.radio.build_region");
    assert("ro.vendor.radio.build_region"@.len() == 28);
    reveal_strlit("ro.vendor.radio.build_profile");
    assert("ro.vendor.radio.build_profile"@.len() == 29);
    reveal_strlit("sys.boot_completed");
    assert("sys.boot_completed"@.len() == 18);
    assert("ro.build.hw_emui_api_level"@[3] != "ro.huawei.build.display.id"@[3]);
    assert("ro.build.meizu.rom"@[3] != "ro.coloros.version"@[3]);
    assert("ro.build.meizu.rom"@[3] != "ro.vivo.os.version"@[3]);
    assert("ro.coloros.version"@[3] != "ro.vivo.os.version"@[3]);
    assert("ro.flyme.version.id"@[4] != "ro.funtouch.version"@[4]);
    assert("ro.build.meizu.rom"@[3] != "ro.oneplus.version"@[3]);
    assert("ro.coloros.version"@[3] != "ro.oneplus.version"@[3]);
    assert("ro.vivo.os.version"@[3] != "ro.oneplus.version"@[3]);
    assert("ro.build.flyme.version"@[3] != "ro.samsung.smd.version"@[3]);
    assert("ro.build.flyme.version"@[9] != "ro.build.scafe.version"@[9]);
    assert("ro.samsung.smd.version"@[3] != "ro.build.scafe.version"@[3]);
    assert("ro.build.meizu.rom"@[3] != "ro.oppo.regionmark"@[3]);
    assert("ro.coloros.version"@[3] != "ro.oppo.regionmark"@[3]);
    assert("ro.vivo.os.version"@[3] != "ro.oppo.regionmark"@[3]);
    assert("ro.oneplus.version"@[4] != "ro.oppo.regionmark"@[4]);
    assert("ro.build.flyme.version"@[3] != "ro.csc.countryiso_code"@[3]);
    assert("ro.samsung.smd.version"@[3] != "ro.csc.countryiso_code"@[3]);
    assert("ro.build.scafe.version"@[3] != "ro.csc.countryiso_code"@[3]);
    assert("ro.vendor.build.emui"@[0] != "gsm.vivo.countrycode"@[0]);
    assert("ro.build.flyme.version"@[0] != "persist.sys.oem.region"@[0]);
    assert("ro.samsung.smd.version"@[0] != "persist.sys.oem.region"@[0]);
    assert("ro.build.scafe.version"@[0] != "persist.sys.oem.region"@[0]);
    assert("ro.csc.countryiso_code"@[0] != "persist.sys.oem.region"@[0]);
    assert("persist.sys.oppo.region"@[0] != "ro.product.manufacturer"@[0]);
    assert("ro.product.brand"@[11] != "ro.product.model"@[11]);
    assert("ro.oxygen.version"@[3] != "ro.product.device"@[3]);
    assert("ro.vivo.os.name"@[3] != "ro.product.name"@[3]);
    assert("ro.product.brand"@[12] != "ro.product.board"@[12]);
    assert("ro.product.model"@[11] != "ro.product.board"@[11]);
    assert("ro.build.meizu.rom"@[3] != "ro.product.cpu.abi"@[3]);
    assert("ro.coloros.version"@[3] != "ro.product.cpu.abi"@[3]);
    assert("ro.vivo.os.version"@[3] != "ro.product.cpu.abi"@[3]);
    assert("ro.oneplus.version"@[3] != "ro.product.cpu.abi"@[3]);
    assert("ro.oppo.regionmark"@[3] != "ro.product.cpu.abi"@[3]);
    assert("ro.flyme.version.id"@[3] != "ro.product.cpu.abi2"@[3]);
    assert("ro.funtouch.version"@[3] != "ro.product.cpu.abi2"@[3]);
    assert("ro.build.flyme.version"@[3] != "ro.product.cpu.abilist"@[3]);
    assert("ro.samsung.smd.version"@[3] != "ro.product.cpu.abilist"@[3]);
    assert("ro.build.scafe.version"@[3] != "ro.product.cpu.abilist"@[3]);
    assert("ro.csc.countryiso_code"@[3] != "ro.product.cpu.abilist"@[3]);
    assert("persist.sys.oem.region"@[0] != "ro.product.cpu.abilist"@[0]);
    assert("ro.build.version.opporom"@[3] != "ro.product.cpu.abilist32"@[3]);
    assert("ro.build.version.opporom"@[3] != "ro.product.cpu.abilist64"@[3]);
    assert("ro.product.cpu.abilist32"@[22] != "ro.product.cpu.abilist64"@[22]);
    assert("persist.sys.oppo.region"@[0] != "ro.miui.ui.version.name"@[0]);
    assert("ro.product.manufacturer"@[3] != "ro.miui.ui.version.name"@[3]);
    assert("persist.sys.oppo.region"@[0] != "ro.miui.ui.version.code"@[0]);
    assert("ro.product.manufacturer"@[3] != "ro.miui.ui.version.code"@[3]);
    assert("ro.miui.ui.version.name"@[19] != "ro.miui.ui.version.code"@[19]);
    assert("ro.build.version.oplusrom"@[3] != "ro.miui.version.code_time"@[3]);
    assert("ro.vendor.build.emui"@[3] != "ro.miui.build.region"@[3]);
    assert("gsm.vivo.countrycode"@[0] != "ro.miui.build.region"@[0]);
    assert("ro.build.version.opporom"@[3] != "ro.miui.internal.storage"@[3]);
    assert("ro.product.cpu.abilist32"@[3] != "ro.miui.internal.storage"@[3]);
    assert("ro.product.cpu.abilist64"@[3] != "ro.miui.internal.storage"@[3]);
    assert("ro.flyme.version.id"@[3] != "ro.miui.cust_device"@[3]);
    assert("ro.funtouch.version"@[3] != "ro.miui.cust_device"@[3]);
    assert("ro.product.cpu.abi2"@[3] != "ro.miui.cust_device"@[3]);
    assert("ro.vendor.build.emui"@[3] != "ro.miui.cust_variant"@[3]);
    assert("gsm.vivo.countrycode"@[0] != "ro.miui.cust_variant"@[0]);
    assert("ro.miui.build.region"@[8] != "ro.miui.cust_variant"@[8]);
    assert("ro.build.version.emui"@[3] != "ro.product.mod_device"@[3]);
    assert("ro.flyme.version.id"@[3] != "ro.miui.has_gmscore"@[3]);
    assert("ro.funtouch.version"@[3] != "ro.miui.has_gmscore"@[3]);
    assert("ro.product.cpu.abi2"@[3] != "ro.miui.has_gmscore"@[3]);
    assert("ro.miui.cust_device"@[8] != "ro.miui.has_gmscore"@[8]);
    assert("ro.hw.country"@[3] != "ro.miui.notch"@[3]);
    assert("ro.fota.oem"@[3] != "ro.rom.zone"@[3]);
    assert("ro.oxygen.version"@[3] != "ro.mi.development"@[3]);
    assert("ro.product.device"@[3] != "ro.mi.development"@[3]);
    assert("ro.flyme.version.id"@[3] != "ro.build.display.id"@[3]);
    assert("ro.funtouch.version"@[3] != "ro.build.display.id"@[3]);
    assert("ro.product.cpu.abi2"@[3] != "ro.build.display.id"@[3]);
    assert("ro.miui.cust_device"@[3] != "ro.build.display.id"@[3]);
    assert("ro.miui.has_gmscore"@[3] != "ro.build.display.id"@[3]);
    assert("ro.fota.oem"@[3] != "ro.build.id"@[3]);
    assert("ro.rom.zone"@[3] != "ro.build.id"@[3]);
    assert("ro.build.version.opporom"@[17] != "ro.build.version.release"@[17]);
    assert("ro.product.cpu.abilist32"@[3] != "ro.build.version.release"@[3]);
    assert("ro.product.cpu.abilist64"@[3] != "ro.build.version.release"@[3]);
    assert("ro.miui.internal.storage"@[3] != "ro.build.version.release"@[3]);
    assert("ro.hw.country"@[3] != "ro.build.type"@[3]);
    assert("ro.miui.notch"@[3] != "ro.build.type"@[3]);
    assert("ro.hw.country"@[3] != "ro.build.user"@[3]);
    assert("ro.miui.notch"@[3] != "ro.build.user"@[3]);
    assert("ro.build.type"@[9] != "ro.build.user"@[9]);
    assert("ro.hw.country"@[3] != "ro.build.host"@[3]);
    assert("ro.miui.notch"@[3] != "ro.build.host"@[3]);
    assert("ro.build.type"@[9] != "ro.build.host"@[9]);
    assert("ro.build.user"@[9] != "ro.build.host"@[9]);
    assert("ro.hw.country"@[3] != "ro.build.tags"@[3]);
    assert("ro.miui.notch"@[3] != "ro.build.tags"@[3]);
    assert("ro.build.type"@[10] != "ro.build.tags"@[10]);
    assert("ro.build.user"@[9] != "ro.build.tags"@[9]);
    assert("ro.build.host"@[9] != "ro.build.tags"@[9]);
    assert("ro.vendor.build.emui"@[3] != "ro.build.description"@[3]);
    assert("gsm.vivo.countrycode"@[0] != "ro.build.description"@[0]);
    assert("ro.miui.build.region"@[3] != "ro.build.description"@[3]);
    assert("ro.miui.cust_variant"@[3] != "ro.build.description"@[3]);
    assert("ro.product.brand"@[3] != "ro.build.product"@[3]);
    assert("ro.product.model"@[3] != "ro.build.product"@[3]);
    assert("ro.product.board"@[3] != "ro.build.product"@[3]);
    assert("persist.sys.oppo.region"@[0] != "ro.product.vendor.brand"@[0]);
    assert("ro.product.manufacturer"@[11] != "ro.product.vendor.brand"@[11]);
    assert("ro.miui.ui.version.name"@[3] != "ro.product.vendor.brand"@[3]);
    assert("ro.miui.ui.version.code"@[3] != "ro.product.vendor.brand"@[3]);
    assert("ro.product.system.manufacturer"@[11] != "ro.product.vendor.manufacturer"@[11]);
    assert("ro.build.version.emui"@[3] != "ro.vendor.miui.region"@[3]);
    assert("ro.product.mod_device"@[3] != "ro.vendor.miui.region"@[3]);
    assert("ro.oxygen.version"@[3] != "ro.product.locale"@[3]);
    assert("ro.product.device"@[11] != "ro.product.locale"@[11]);
    assert("ro.mi.development"@[3] != "ro.product.locale"@[3]);
    assert("ro.build.version.opporom"@[3] != "ro.product.locale.region"@[3]);
    assert("ro.product.cpu.abilist32"@[11] != "ro.product.locale.region"@[11]);
    assert("ro.product.cpu.abilist64"@[11] != "ro.product.locale.region"@[11]);
    assert("ro.miui.internal.storage"@[3] != "ro.product.locale.region"@[3]);
    assert("ro.build.version.release"@[3] != "ro.product.locale.region"@[3]);
    assert("ro.build.hw_emui_api_level"@[3] != "ro.product.locale.language"@[3]);
    assert("ro.huawei.build.display.id"@[3] != "ro.product.locale.language"@[3]);
    assert("ro.build.version.oplusrom"@[3] != "ro.product.country.region"@[3]);
    assert("ro.miui.version.code_time"@[3] != "ro.product.country.region"@[3]);
    assert("ro.flyme.version.id"@[0] != "persist.sys.country"@[0]);
    assert("ro.funtouch.version"@[0] != "persist.sys.country"@[0]);
    assert("ro.product.cpu.abi2"@[0] != "persist.sys.country"@[0]);
    assert("ro.miui.cust_device"@[0] != "persist.sys.country"@[0]);
    assert("ro.miui.has_gmscore"@[0] != "persist.sys.country"@[0]);
    assert("ro.build.display.id"@[0] != "persist.sys.country"@[0]);
    assert("ro.miui.has_security_keyboard"@[0] != "persist.sys.miconnect.running"@[0]);
    assert("ro.build.version.incremental"@[0] != "persist.sys.millet.handshake"@[0]);
    assert("ro.build.version.security_patch"@[0] != "persist.sys.brightmillet.enable"@[0]);
    assert("ro.build.version.incremental"@[3] != "ro.vendor.radio.build_region"@[3]);
    assert("persist.sys.millet.handshake"@[0] != "ro.vendor.radio.build_region"@[0]);
    assert("ro.miui.has_security_keyboard"@[3] != "ro.vendor.radio.build_profile"@[3]);
    assert("persist.sys.miconnect.running"@[0] != "ro.vendor.radio.build_profile"@[0]);
    assert("ro.build.meizu.rom"@[0] != "sys.boot_completed"@[0]);
    assert("ro.coloros.version"@[0] != "sys.boot_completed"@[0]);
    assert("ro.vivo.os.version"@[0] != "sys.boot_completed"@[0]);
    assert("ro.oneplus.version"@[0] != "sys.boot_completed"@[0]);
    assert("ro.oppo.regionmark"@[0] != "sys.boot_completed"@[0]);
    assert("ro.product.cpu.abi"@[0] != "sys.boot_completed"@[0]);
    lemma_lookup_at(s, 0);
    lemma_lookup_at(s, 1);
    lemma_lookup_at(s, 2);
    lemma_lookup_at(s, 3);
    lemma_lookup_at(s, 4);
    lemma_lookup_at(s, 5);
    lemma_lookup_at(s, 6);
    lemma_lookup_at(s, 7);
    lemma_lookup_at(s, 8);
    lemma_lookup_at(s, 9);
    lemma_lookup_at(s, 10);
    lemma_lookup_at(s, 11);
    lemma_lookup_at(s, 12);
    lemma_lookup_at(s, 13);
    lemma_lookup_at(s, 14);
    lemma_lookup_at(s, 15);
    lemma_lookup_at(s, 16);
    lemma_lookup_at(s, 17);
    lemma_lookup_at(s, 18);
    lemma_lookup_at(s, 19);
    lemma_lookup_at(s, 20);
    lemma_lookup_at(s, 21);
    lemma_lookup_at(s, 22);
    lemma_lookup_at(s, 23);
    lemma_lookup_at(s, 24);
    lemma_lookup_at(s, 25);
    lemma_lookup_at(s, 26);
    lemma_lookup_at(s, 27);
    lemma_lookup_at(s, 28);
    lemma_lookup_at(s, 29);
    lemma_lookup_at(s, 30);
    lemma_lookup_at(s, 31);
    lemma_lookup_at(s, 32);
    lemma_lookup_at(s, 33);
    lemma_lookup_at(s, 34);
    lemma_lookup_at(s, 35);
    lemma_lookup_at(s, 36);
    lemma_lookup_at(s, 37);
    lemma_lookup_at(s, 38);
    lemma_lookup_at(s, 39);
    lemma_lookup_at(s, 40);
    lemma_lookup_at(s, 41);
    lemma_lookup_at(s, 42);
    lemma_lookup_at(s, 43);
    lemma_lookup_at(s, 44);
    lemma_lookup_at(s, 45);
    lemma_lookup_at(s, 46);
    lemma_lookup_at(s, 47);
    lemma_lookup_at(s, 48);
    lemma_lookup_at(s, 49);
    lemma_lookup_at(s, 50);
    lemma_lookup_at(s, 51);
    lemma_lookup_at(s, 52);
    lemma_lookup_at(s, 53);
    lemma_lookup_at(s, 54);
    lemma_lookup_at(s, 55);
    lemma_lookup_at(s, 56);
    lemma_lookup_at(s, 57);
    lemma_lookup_at(s, 58);
    lemma_lookup_at(s, 59);
    lemma_lookup_at(s, 60);
    lemma_lookup_at(s, 61);
    lemma_lookup_at(s, 62);
    lemma_lookup_at(s, 63);
    lemma_lookup_at(s, 64);
    lemma_lookup_at(s, 65);
    lemma_lookup_at(s, 66);
    lemma_lookup_at(s, 67);
    lemma_lookup_at(s, 68);
    lemma_lookup_at(s, 69);
    lemma_lookup_at(s, 70);
    lemma_lookup_at(s, 71);
    lemma_lookup_at(s, 72);
    lemma_lookup_at(s, 73);
    lemma_lookup_at(s, 74);
    lemma_lookup_at(s, 75);
    lemma_lookup_at(s, 76);
    assert(
        i == 0 || i == 1 || i == 2 || i == 3 || i == 4 || i == 5 || i == 6 || i == 7 || i == 8 || i == 9
            || i == 10 || i == 11 || i == 12 || i == 13 || i == 14 || i == 15 || i == 16 || i == 17 || i == 18 || i == 19
            || i == 20 || i == 21 || i == 22 || i == 23 || i == 24 || i == 25 || i == 26 || i == 27 || i == 28 || i == 29
            || i == 30 || i == 31 || i == 32 || i == 33 || i == 34 || i == 35 || i == 36 || i == 37 || i == 38 || i == 39
            || i == 40 || i == 41 || i == 42 || i == 43 || i == 44 || i == 45 || i == 46 || i == 47 || i == 48 || i == 49
            || i == 50 || i == 51 || i == 52 || i == 53 || i == 54 || i == 55 || i == 56 || i == 57 || i == 58 || i == 59
            || i == 60 || i == 61 || i == 62 || i == 63 || i == 64 || i == 65 || i == 66 || i == 67 || i == 68 || i == 69
            || i == 70 || i == 71 || i == 72 || i == 73 || i == 74 || i == 75 || i == 76
    );
}

} // verus!

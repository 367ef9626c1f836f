use mipush_zygisk::config::get_properties_for_package;
use mipush_zygisk::specialize::{hook_plan, is_xmsf_package, parse_package_name, HookPlan};

#[test]
fn package_name_is_last_nonempty_segment() {
    assert_eq!(parse_package_name("/data/user/0/com.example.app"), "com.example.app");
    assert_eq!(parse_package_name("/data/data/com.example.app//"), "com.example.app");
    assert_eq!(parse_package_name("com.example.app"), "com.example.app");
    assert_eq!(parse_package_name("///"), "");
    assert_eq!(parse_package_name(""), "");
}

#[test]
fn xmsf_is_recognised() {
    assert!(is_xmsf_package("com.xiaomi.xmsf"));
    assert!(!is_xmsf_package("com.xiaomi.xmsf2"));
}

#[test]
fn hook_plan_follows_properties() {
    let xmsf = get_properties_for_package("com.xiaomi.xmsf", None);
    assert_eq!(hook_plan(&xmsf), HookPlan { build: false, system_properties: true });
    let builtin = get_properties_for_package("com.example.app", None);
    assert_eq!(hook_plan(&builtin), HookPlan { build: true, system_properties: true });
}

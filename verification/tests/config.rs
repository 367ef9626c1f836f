use mipush_zygisk::config::{
    device_config, get_properties_for_package, merge_section, parse_device_config, DeviceConfig,
};
use mipush_zygisk::names::{is_managed_package, is_valid_process_name};

fn find<'a>(props: &'a [(String, String)], key: &str) -> Option<&'a str> {
    props
        .iter()
        .find(|(k, _)| k == key)
        .map(|(_, v)| v.as_str())
}

fn pairs(items: &[(&str, &str)]) -> Vec<(String, String)> {
    items
        .iter()
        .map(|(k, v)| (k.to_string(), v.to_string()))
        .collect()
}

#[test]
fn parses_global_sections_by_category() {
    let config = parse_device_config(
        "\
[system]
ro.product.model=Redmi K30 5G
ro.product.brand=Xiaomi
[build]
MODEL=Redmi K30 5G
[build.version]
RELEASE=12
",
    );
    assert_eq!(
        find(&config.global.system, "ro.product.model"),
        Some("Redmi K30 5G")
    );
    assert_eq!(
        find(&config.global.system, "ro.product.brand"),
        Some("Xiaomi")
    );
    assert_eq!(find(&config.global.build, "MODEL"), Some("Redmi K30 5G"));
    assert_eq!(find(&config.global.build_version, "RELEASE"), Some("12"));
    assert!(config.packages.is_empty());
}

#[test]
fn parses_per_package_patch_sections() {
    let config = parse_device_config(
        "\
[system]
ro.product.model=Redmi K30 5G
[com.example.app:system]
ro.product.model=Pixel 8
[com.example.app:build]
MODEL=Pixel 8
",
    );
    assert_eq!(config.packages.len(), 1);
    let (name, set) = &config.packages[0];
    assert_eq!(name, "com.example.app");
    assert_eq!(find(&set.system, "ro.product.model"), Some("Pixel 8"));
    assert_eq!(find(&set.build, "MODEL"), Some("Pixel 8"));
    // global stays untouched by the patch
    assert_eq!(
        find(&config.global.system, "ro.product.model"),
        Some("Redmi K30 5G")
    );
}

#[test]
fn ignores_comments_blank_lines_and_unknown_sections() {
    let config = parse_device_config(
        "\
# a comment

[bogus]
ignored=1
[system]
ro.product.model=Redmi K30 5G
malformed line without equals
=novalue
",
    );
    assert_eq!(
        find(&config.global.system, "ro.product.model"),
        Some("Redmi K30 5G")
    );
    assert_eq!(config.global.system.len(), 1);
    assert!(config.global.build.is_empty());
}

#[test]
fn later_duplicate_keys_override_earlier_ones() {
    let config = parse_device_config(
        "\
[system]
ro.product.model=First
ro.product.model=Second
",
    );
    assert_eq!(
        find(&config.global.system, "ro.product.model"),
        Some("Second")
    );
    assert_eq!(config.global.system.len(), 1);
}

#[test]
fn empty_content_yields_empty_config() {
    let config = parse_device_config("# only comments\n\n");
    assert!(config.is_empty());
}

#[test]
fn rejects_system_and_xiaomi_family_packages() {
    assert!(!is_managed_package("android"));
    assert!(!is_managed_package("com.android.settings"));
    assert!(!is_managed_package("com.miui.securitycenter"));
    assert!(!is_managed_package("com.xiaomi.smarthome"));
    assert!(!is_managed_package("com.mipay.wallet"));
    assert!(is_managed_package("com.example.app"));
}

#[test]
fn validates_process_names_for_package() {
    assert!(is_valid_process_name("com.example.app", "com.example.app"));
    assert!(is_valid_process_name(
        "com.example.app",
        "com.example.app:push"
    ));
    assert!(!is_valid_process_name(
        "com.example.app",
        "com.other.app:push"
    ));
}

#[test]
fn trims_keys_values_and_headers_with_crlf() {
    let config = parse_device_config("  [ system ]  \r\n  ro.a  =  b c \r\n[ com.x.y : build ]\r\nK= v\r\n");
    assert_eq!(config.global.system, pairs(&[("ro.a", "b c")]));
    assert_eq!(config.packages.len(), 1);
    assert_eq!(config.packages[0].0, "com.x.y");
    assert_eq!(config.packages[0].1.build, pairs(&[("K", "v")]));
}

#[test]
fn value_keeps_later_equals_signs_and_last_line_without_newline() {
    let config = parse_device_config("[system]\nro.a=b=c\nro.b=");
    assert_eq!(config.global.system, pairs(&[("ro.a", "b=c"), ("ro.b", "")]));
}

#[test]
fn lines_before_any_header_are_ignored() {
    let config = parse_device_config("ro.a=1\n[system]\nro.b=2\n");
    assert_eq!(config.global.system, pairs(&[("ro.b", "2")]));
}

#[test]
fn package_header_with_unknown_category_still_creates_patch() {
    let config = parse_device_config("[com.x.y:bogus]\nk=v\n[:system]\nq=1\n");
    assert_eq!(config.packages.len(), 1);
    assert_eq!(config.packages[0].0, "com.x.y");
    assert!(config.packages[0].1.is_empty());
    assert!(config.is_empty());
}

#[test]
fn package_header_splits_at_last_colon() {
    let config = parse_device_config("[a:b:system]\nk=v\n[a:b:build]\nM=1\n");
    assert_eq!(config.packages.len(), 1);
    assert_eq!(config.packages[0].0, "a:b");
    assert_eq!(config.packages[0].1.system, pairs(&[("k", "v")]));
    assert_eq!(config.packages[0].1.build, pairs(&[("M", "1")]));
}

#[test]
fn duplicate_key_keeps_first_position() {
    let config = parse_device_config("[system]\na=1\nb=2\na=3\n");
    assert_eq!(config.global.system, pairs(&[("a", "3"), ("b", "2")]));
}

#[test]
fn merge_patch_wins_and_global_is_inherited() {
    let global = pairs(&[("a", "1"), ("b", "2")]);
    let patch = pairs(&[("b", "20"), ("c", "30")]);
    assert_eq!(
        merge_section(&global, Some(&patch)),
        pairs(&[("a", "1"), ("b", "20"), ("c", "30")])
    );
    assert_eq!(merge_section(&global, None), global);
}

#[test]
fn xmsf_gets_only_the_marker_property() {
    let config = parse_device_config("[system]\nro.a=1\n");
    let props = get_properties_for_package("com.xiaomi.xmsf", Some(&config));
    assert_eq!(props.system_properties, pairs(&[("mipush.zygisk.enabled", "true")]));
    assert!(props.build_properties.is_empty());
    assert!(props.build_version_properties.is_empty());
}

#[test]
fn without_device_config_the_builtin_device_applies() {
    let props = get_properties_for_package("com.example.app", None);
    assert_eq!(props.system_properties.len(), 77);
    assert_eq!(find(&props.system_properties, "ro.product.model"), Some("Redmi K30 5G"));
    assert_eq!(find(&props.system_properties, "ro.build.version.emui"), Some(""));
    assert_eq!(find(&props.build_properties, "MODEL"), Some("Redmi K30 5G"));
    assert_eq!(find(&props.build_version_properties, "RELEASE"), Some("12"));
    assert_eq!(props.build_properties.len(), 15);
    assert_eq!(props.build_version_properties.len(), 3);
}

#[test]
fn configured_device_is_merged_with_package_patch() {
    let config = parse_device_config(
        "[system]\nro.product.model=Redmi K30 5G\nro.product.brand=Xiaomi\n[com.example.app:system]\nro.product.model=Pixel 8\nextra=1\n",
    );
    let patched = get_properties_for_package("com.example.app", Some(&config));
    assert_eq!(
        patched.system_properties,
        pairs(&[
            ("ro.product.model", "Pixel 8"),
            ("ro.product.brand", "Xiaomi"),
            ("extra", "1")
        ])
    );
    let plain = get_properties_for_package("com.other.app", Some(&config));
    assert_eq!(
        plain.system_properties,
        pairs(&[("ro.product.model", "Redmi K30 5G"), ("ro.product.brand", "Xiaomi")])
    );
    assert!(plain.build_properties.is_empty());
}

#[test]
fn device_config_is_none_when_missing_or_empty() {
    assert!(device_config(None).is_none());
    assert!(device_config(Some("# nothing\n[system]\n")).is_none());
    let some: Option<DeviceConfig> = device_config(Some("[build]\nMODEL=X\n"));
    let config = some.expect("configuration with a property");
    assert_eq!(config.global.build, pairs(&[("MODEL", "X")]));
}

#[test]
fn managed_package_edge_cases() {
    assert!(is_managed_package("  com.example.app  "));
    assert!(!is_managed_package("com"));
    assert!(!is_managed_package("com..app"));
    assert!(!is_managed_package("com.app."));
    assert!(!is_managed_package("1com.app"));
    assert!(!is_managed_package("com.ex-ample.app"));
    assert!(!is_managed_package("miui.app"));
    assert!(!is_managed_package("com.google.android.gms"));
    assert!(is_managed_package("com.google.app"));
    assert!(is_managed_package("com.miuix.app"));
    assert!(!is_managed_package(""));
}

#[test]
fn process_name_edge_cases() {
    assert!(is_valid_process_name("com.example.app", "  com.example.app:push.a-b_1  "));
    assert!(!is_valid_process_name("com.example.app", "com.example.app:"));
    assert!(!is_valid_process_name("com.example.app", "com.example.app:bad name"));
    assert!(!is_valid_process_name("com.example.app", "com.example.appx"));
}

#[test]
fn parsed_names_keys_and_values_are_trimmed() {
    let config = parse_device_config("[ com.x.y :system]\n\t k \u{3000}=\u{a0} v \n");
    assert_eq!(config.packages[0].0, "com.x.y");
    assert_eq!(config.packages[0].1.system, pairs(&[("k", "v")]));
}

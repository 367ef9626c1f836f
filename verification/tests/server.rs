use mipush_zygisk::server::{check_config, matches_line, resolve_rule};

#[test]
fn package_only_matches_all_processes() {
    assert!(matches_line(
        "com.example.app",
        "com.example.app",
        "com.example.app"
    ));
    assert!(matches_line(
        "com.example.app",
        "com.example.app",
        "com.example.app:push"
    ));
}

#[test]
fn process_specific_line_matches_only_that_process() {
    assert!(matches_line(
        "com.example.app|com.example.app:push",
        "com.example.app",
        "com.example.app:push",
    ));
    assert!(!matches_line(
        "com.example.app|com.example.app:push",
        "com.example.app",
        "com.example.app",
    ));
}

#[test]
fn syntactically_valid_vendor_lines_match() {
    assert!(matches_line(
        "com.xiaomi.smarthome",
        "com.xiaomi.smarthome",
        "com.xiaomi.smarthome"
    ));
    assert!(matches_line(
        "com.android.settings",
        "com.android.settings",
        "com.android.settings"
    ));
}

#[test]
fn deny_rule_wins_over_allow_rule() {
    assert!(!resolve_rule(
        "com.example.app\n-com.example.app|com.example.app:push",
        "com.example.app",
        "com.example.app:push"
    ));
    assert!(resolve_rule(
        "com.example.app\n-com.example.app|com.example.app:other",
        "com.example.app",
        "com.example.app:push"
    ));
}

#[test]
fn deny_before_allow_still_wins() {
    assert!(!resolve_rule(
        "-com.example.app\ncom.example.app|com.example.app:push\n",
        "com.example.app",
        "com.example.app:push"
    ));
}

#[test]
fn settings_comments_and_blank_lines_hold_no_rule() {
    let content = "# com.example.app\n\nprofile=com.example.app\nobserve=1\nauto_scan=1\n";
    assert!(!resolve_rule(content, "com.example.app", "com.example.app"));
    assert!(resolve_rule(
        "profile=x\n  com.example.app  \n",
        "com.example.app",
        "com.example.app"
    ));
}

#[test]
fn empty_process_part_matches_every_process() {
    assert!(matches_line("com.example.app|", "com.example.app", "com.example.app:any"));
    assert!(matches_line(" com.example.app | ", "com.example.app", "com.example.app"));
}

#[test]
fn lines_never_match_unmanaged_or_other_packages() {
    assert!(!matches_line("android", "android", "android"));
    assert!(!matches_line("com.other.app", "com.example.app", "com.example.app"));
    assert!(!matches_line("# com.example.app", "com.example.app", "com.example.app"));
    assert!(!matches_line(
        "com.example.app|com.other.app:push",
        "com.example.app",
        "com.other.app:push"
    ));
    assert!(!resolve_rule("android\n", "android", "android"));
}

#[test]
fn check_config_without_file_is_false() {
    assert!(!check_config(None, "com.example.app", "com.example.app"));
    assert!(check_config(Some("com.example.app\n"), "com.example.app", "com.example.app"));
}

#[test]
fn rule_line_order_does_not_matter() {
    let lines = [
        "com.example.app",
        "-com.example.app|com.example.app:push",
        "# comment",
        "com.other.app",
    ];
    let forward = lines.join("\n");
    let mut reversed = lines.to_vec();
    reversed.reverse();
    let backward = reversed.join("\n");
    for process in ["com.example.app", "com.example.app:push"] {
        assert_eq!(
            resolve_rule(&forward, "com.example.app", process),
            resolve_rule(&backward, "com.example.app", process)
        );
    }
    assert!(resolve_rule(&backward, "com.example.app", "com.example.app"));
    assert!(!resolve_rule(&backward, "com.example.app", "com.example.app:push"));
}

#[test]
fn verdict_ignores_line_endings_blank_lines_and_order() {
    let unix = "com.example.app\n-com.example.app|com.example.app:push\n";
    let windows = "\r\n  -com.example.app|com.example.app:push\r\n\r\ncom.example.app  \r\n";
    for process in ["com.example.app", "com.example.app:push", "com.example.app:other"] {
        assert_eq!(
            resolve_rule(unix, "com.example.app", process),
            resolve_rule(windows, "com.example.app", process)
        );
    }
}

use alacritty_ipc::endpoint::{is_socket_file, join_path, sanitize, socket_file_name, socket_path, socket_prefix};
use alacritty_ipc::text::{parse_i128, push_decimal, push_i128};

#[test]
fn prefix_prefers_wayland_display() {
    let p = socket_prefix(Some("wayland-1".to_string()), Some(":0".to_string()));
    assert_eq!(p, "Alacritty-wayland-1");
}

#[test]
fn prefix_falls_back_to_x_display() {
    assert_eq!(socket_prefix(None, Some(":0".to_string())), "Alacritty-:0");
}

#[test]
fn prefix_without_display_is_base() {
    assert_eq!(socket_prefix(None, None), "Alacritty-");
}

#[test]
fn prefix_replaces_path_separators() {
    let p = socket_prefix(Some("/tmp/wayland/0".to_string()), None);
    assert_eq!(p, "Alacritty--tmp-wayland-0");
    assert_eq!(sanitize("a/b/"), "a-b-");
    assert_eq!(sanitize("ünï/cödé"), "ünï-cödé");
}

#[test]
fn file_name_embeds_pid() {
    assert_eq!(socket_file_name("Alacritty-:0", 4242), "Alacritty-:0-4242.sock");
    assert_eq!(socket_file_name("Alacritty-", 0), "Alacritty--0.sock");
    assert_eq!(socket_file_name("P", u32::MAX), "P-4294967295.sock");
}

#[test]
fn join_inserts_one_separator() {
    assert_eq!(join_path("/run/user/1000", "a.sock"), "/run/user/1000/a.sock");
    assert_eq!(join_path("/tmp/", "a.sock"), "/tmp/a.sock");
    assert_eq!(join_path("", "a.sock"), "a.sock");
}

#[test]
fn endpoint_path_uses_explicit_or_dir() {
    assert_eq!(socket_path(Some("/x/y.sock".to_string()), "/tmp", "Alacritty-:0", 7), "/x/y.sock");
    assert_eq!(socket_path(None, "/tmp", "Alacritty-:0", 7), "/tmp/Alacritty-:0-7.sock");
}

#[test]
fn candidate_names_need_prefix_and_suffix() {
    assert!(is_socket_file("Alacritty-:0-12.sock", "Alacritty-:0"));
    assert!(!is_socket_file("Alacritty-:0-12.sok", "Alacritty-:0"));
    assert!(!is_socket_file("Alacritty-:1-12.sock", "Alacritty-:0"));
    assert!(!is_socket_file("sock", "Alacritty-:0"));
    assert!(is_socket_file(".sock", ""));
}

#[test]
fn sessions_do_not_see_each_other() {
    let p1 = socket_prefix(None, Some(":1".to_string()));
    let p2 = socket_prefix(None, Some(":2".to_string()));
    let f1 = socket_file_name(&p1, 100);
    let f2 = socket_file_name(&p2, 100);
    assert!(is_socket_file(&f1, &p1));
    assert!(is_socket_file(&f2, &p2));
    assert!(!is_socket_file(&f1, &p2));
    assert!(!is_socket_file(&f2, &p1));
}

#[test]
fn sessions_with_prefix_displays_can_alias() {
    // ":1" is a prefix of ":10": the isolation law leaves such pairs out.
    let p1 = socket_prefix(None, Some(":1".to_string()));
    let p10 = socket_prefix(None, Some(":10".to_string()));
    assert!(is_socket_file(&socket_file_name(&p10, 5), &p1));
}

#[test]
fn decimal_numerals() {
    let mut s = String::from("n=");
    push_decimal(&mut s, 0);
    assert_eq!(s, "n=0");
    let mut s = String::new();
    push_decimal(&mut s, u128::MAX);
    assert_eq!(s, u128::MAX.to_string());
    let mut s = String::new();
    push_i128(&mut s, i128::MIN);
    assert_eq!(s, i128::MIN.to_string());
    let mut s = String::new();
    push_i128(&mut s, -1);
    assert_eq!(s, "-1");
}

#[test]
fn integer_numerals_are_read() {
    assert_eq!(parse_i128("0"), Some(0));
    assert_eq!(parse_i128("-1"), Some(-1));
    assert_eq!(parse_i128("007"), Some(7));
    assert_eq!(parse_i128(&i128::MAX.to_string()), Some(i128::MAX));
    assert_eq!(parse_i128(&i128::MIN.to_string()), Some(i128::MIN));
    assert_eq!(parse_i128("170141183460469231731687303715884105728"), None);
    assert_eq!(parse_i128("-170141183460469231731687303715884105729"), None);
    assert_eq!(parse_i128("99999999999999999999999999999999999999999"), None);
    assert_eq!(parse_i128(""), None);
    assert_eq!(parse_i128("-"), None);
    assert_eq!(parse_i128("1.0"), None);
    assert_eq!(parse_i128("1e3"), None);
    assert_eq!(parse_i128("+1"), None);
}

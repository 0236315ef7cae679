use git_url::GitUrl;

#[test]
fn round_trip_scp_like() {
    let u = "git@example.com:a/b".parse::<GitUrl>().expect("parse failed");
    assert_eq!(u.host(), "git@example.com");
    assert_eq!(u.path(), "a/b");
    assert_eq!(u.to_text(), "git@example.com:a/b");
}

#[test]
fn round_trip_http_changes_separator() {
    let u = "http://example.com/a/b".parse::<GitUrl>().expect("parse failed");
    assert_eq!(u.host(), "http://example.com");
    assert_eq!(u.path(), "a/b");
    assert_eq!(u.to_text(), "http://example.com:a/b");
}

#[test]
fn round_trip_https_changes_separator() {
    let u = "https://example.com/a/b".parse::<GitUrl>().expect("parse failed");
    assert_eq!(u.host(), "https://example.com");
    assert_eq!(u.path(), "a/b");
    assert_eq!(u.to_text(), "https://example.com:a/b");
}

#[test]
fn parse_without_separator_fails() {
    let e = "nocolon".parse::<GitUrl>().expect_err("parse succeeded");
    assert_eq!(e.0, "nocolon");

    let e = "http://onlyhost".parse::<GitUrl>().expect_err("parse succeeded");
    assert_eq!(e.0, "http://onlyhost");

    let e = "https://onlyhost".parse::<GitUrl>().expect_err("parse succeeded");
    assert_eq!(e.0, "https://onlyhost");
}

#[test]
fn parse_empty_path() {
    let u = "git@example.com:".parse::<GitUrl>().expect("parse failed");
    assert_eq!(u.host(), "git@example.com");
    assert_eq!(u.path(), "");
    assert_eq!(u.to_text(), "git@example.com");
    assert!(u.pop().is_none());

    let joined = u.join("aaa").expect("join failed");
    assert_eq!(joined.to_text(), "git@example.com:aaa");
}

#[test]
fn pop_exhausts_two_segments() {
    let mut u = "h:a/b".parse::<GitUrl>().expect("parse failed");
    assert!(u.pop_mut());
    assert_eq!(u.path(), "a");
    assert!(u.pop_mut());
    assert_eq!(u.path(), "");
    assert!(!u.pop_mut());
    assert_eq!(u.path(), "");
    assert_eq!(u.host(), "h");
}

#[test]
fn pop_with_doubled_slash() {
    let mut u = "h:a//b".parse::<GitUrl>().expect("parse failed");
    assert!(u.pop_mut());
    assert_eq!(u.path(), "a/");
    assert!(u.pop_mut());
    assert_eq!(u.path(), "a");
    assert!(u.pop_mut());
    assert_eq!(u.path(), "");
    assert!(!u.pop_mut());
}

#[test]
fn join_dot_is_a_no_op() {
    let u = "h:a/b".parse::<GitUrl>().expect("parse failed");
    let same = u.join(".").expect("join failed");
    assert_eq!(same.path(), "a/b");
    assert_eq!(same.to_text(), "h:a/b");

    let root = "h:".parse::<GitUrl>().expect("parse failed");
    let still_root = root.join(".").expect("join failed");
    assert_eq!(still_root.path(), "");
}

#[test]
fn join_up_dir_equals_pop() {
    let u = "h:a/b/c".parse::<GitUrl>().expect("parse failed");
    let via_join = u.join("..").expect("join failed");
    let via_pop = u.pop().expect("pop failed");
    assert_eq!(via_join.path(), via_pop.path());
    assert_eq!(via_join.to_text(), via_pop.to_text());

    let root = "h:".parse::<GitUrl>().expect("parse failed");
    assert!(root.join("..").is_none());
    assert!(root.pop().is_none());
}

#[test]
fn join_with_empty_piece_fails() {
    let u = "h:a/b".parse::<GitUrl>().expect("parse failed");
    assert!(u.join("").is_none());
    assert!(u.join("/aaa").is_none());
    assert!(u.join("aaa//bbb").is_none());
    assert!(u.join("aaa/").is_none());
}

#[test]
fn failed_join_mut_changes_nothing() {
    let mut u = "h:a/b".parse::<GitUrl>().expect("parse failed");
    assert!(!u.join_mut("x//y"));
    assert_eq!(u.host(), "h");
    assert_eq!(u.path(), "a/b");
    assert!(!u.join_mut("../../../x"));
    assert_eq!(u.path(), "a/b");
}

#[test]
fn join_past_root_fails_outright() {
    let u = "git@example.com:user/foo".parse::<GitUrl>().expect("parse failed");
    assert!(u.join("../../../x").is_none());
    assert!(u.join("../../..").is_none());

    let at_root = u.join("../..").expect("join failed");
    assert_eq!(at_root.path(), "");
    assert_eq!(at_root.to_text(), "git@example.com");
}

use cometty::procinfo::{exe_name, name_from_trimmed, shorten_home_with};

#[test]
fn shortens_home_prefix_only() {
    assert_eq!(shorten_home_with("/Users/x/dev", Some("/Users/x")), "~/dev");
    assert_eq!(shorten_home_with("/Users/x", Some("/Users/x")), "~");
    assert_eq!(shorten_home_with("/Users/x/", Some("/Users/x/")), "~/");
    // Prefix that isn't a path boundary is untouched.
    assert_eq!(
        shorten_home_with("/Users/xavier/dev", Some("/Users/x")),
        "/Users/xavier/dev"
    );
    assert_eq!(shorten_home_with("/tmp/x", Some("/Users/x")), "/tmp/x");
    assert_eq!(shorten_home_with("/tmp/x", None), "/tmp/x");
    assert_eq!(shorten_home_with("/tmp/x", Some("")), "/tmp/x");
}

#[test]
fn exe_name_takes_basename() {
    assert_eq!(exe_name("/usr/bin/python3"), Some("python3".to_string()));
    assert_eq!(exe_name("/usr/bin/foo (deleted)"), Some("foo".to_string()));
    assert_eq!(exe_name("zsh"), Some("zsh".to_string()));
    assert_eq!(exe_name("/usr/bin/"), None);
    assert_eq!(exe_name(""), None);
}

#[test]
fn home_with_only_slashes_shortens_nothing() {
    assert_eq!(shorten_home_with("/etc", Some("///")), "/etc");
    assert_eq!(shorten_home_with("/home/me/ü/x", Some("/home/me/ü")), "~/x");
    assert_eq!(exe_name("/opt/app/ tool "), Some("tool".to_string()));
}

#[test]
fn names_from_trimmed_segments() {
    assert_eq!(name_from_trimmed("bash"), Some("bash".to_string()));
    assert_eq!(name_from_trimmed(""), None);
}

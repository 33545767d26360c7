use cometty::title::{TitleVars, format_title, label_from_trimmed, window_title_for};

/// The title settings of the tab bar: the template and the label limit.
#[derive(Clone)]
struct TitleConfig {
    title_format: String,
    max_label_chars: usize,
}

impl Default for TitleConfig {
    fn default() -> Self {
        TitleConfig { title_format: "$command | $cwd".to_string(), max_label_chars: 32 }
    }
}

fn cfg() -> TitleConfig {
    TitleConfig::default()
}

fn title(vars: &TitleVars, cfg: &TitleConfig) -> String {
    format_title(vars, &cfg.title_format, cfg.max_label_chars)
}

fn vars<'a>(
    title: &'a str,
    command: Option<&'a str>,
    cwd: Option<&'a str>,
    tab: usize,
) -> TitleVars<'a> {
    TitleVars {
        title,
        command,
        cwd,
        tab,
    }
}

#[test]
fn default_format_uses_command_and_cwd() {
    let cfg = cfg();
    assert_eq!(
        title(&vars("", Some("zsh"), Some("~/dev"), 0), &cfg),
        "zsh | ~/dev"
    );
    assert_eq!(
        title(&vars("", Some("cargo"), Some("~/dev/cometty"), 1), &cfg),
        "cargo | ~/dev/cometty"
    );
}

#[test]
fn title_falls_back_to_tab_number() {
    // Templates that render to nothing fall back: `$title` alone on a
    // shell that never sets one, or a blank template.
    let cfg = TitleConfig {
        title_format: "$title".to_string(),
        ..TitleConfig::default()
    };
    assert_eq!(title(&vars("", None, None, 0), &cfg), "Tab 1");
    assert_eq!(title(&vars("", None, None, 2), &cfg), "Tab 3");
}

#[test]
fn osc_title_is_opt_in() {
    // The default template doesn't mention `$title`, so it's ignored.
    let cfg = cfg();
    assert_eq!(
        title(&vars("nvim | ~/dev", Some("nvim"), Some("~/dev"), 0), &cfg),
        "nvim | ~/dev"
    );
    // ...but it can be composed explicitly.
    let cfg = TitleConfig {
        title_format: "$title | $command | $cwd".to_string(),
        ..TitleConfig::default()
    };
    assert_eq!(
        title(&vars("nvim | ~/dev", Some("nvim"), Some("~/dev"), 0), &cfg),
        "nvim | ~/dev | nvim | ~/dev"
    );
}

#[test]
fn literal_text_is_preserved() {
    let brackets = TitleConfig {
        title_format: "$command [$cwd] ($tab)".to_string(),
        ..TitleConfig::default()
    };
    assert_eq!(
        title(&vars("", Some("zsh"), Some("~/dev"), 1), &brackets),
        "zsh [~/dev] (2)"
    );
    // A template without variables is its own label, verbatim.
    let literal = TitleConfig {
        title_format: "my terminal".to_string(),
        ..TitleConfig::default()
    };
    assert_eq!(
        title(&vars("", None, None, 0), &literal),
        "my terminal"
    );
}

#[test]
fn all_empty_variables_fall_back_to_tab_number() {
    // Nothing resolved yet (fresh tab, unsupported platform): the
    // stock `$command | $cwd` shows the tab number rather than a bare
    // separator, and surrounding literals don't keep an empty label.
    let stock = cfg();
    assert_eq!(title(&vars("", None, None, 0), &stock), "Tab 1");
    assert_eq!(title(&vars("", None, None, 2), &stock), "Tab 3");
    let wrapped = TitleConfig {
        title_format: "a[$command]b".to_string(),
        ..TitleConfig::default()
    };
    assert_eq!(title(&vars("", None, None, 0), &wrapped), "Tab 1");
    // Any one non-empty variable is enough to render the template.
    assert_eq!(
        title(&vars("", None, Some("~/dev"), 0), &stock),
        "| ~/dev"
    );
}

#[test]
fn braced_variables_delimit_names() {
    let cfg = TitleConfig {
        title_format: "${command}s ${tab}!".to_string(),
        ..TitleConfig::default()
    };
    assert_eq!(
        title(&vars("", Some("zsh"), None, 1), &cfg),
        "zshs 2!"
    );
    // Unterminated brace stays literal.
    let cfg = TitleConfig {
        title_format: "${command".to_string(),
        ..TitleConfig::default()
    };
    assert_eq!(
        title(&vars("", Some("zsh"), None, 0), &cfg),
        "${command"
    );
}

#[test]
fn dollar_literals_and_unknown_names_stay_visible() {
    let cfg = TitleConfig {
        title_format: "$$5 $5 $nope $ $cwd".to_string(),
        ..TitleConfig::default()
    };
    assert_eq!(
        title(&vars("", None, Some("/tmp"), 0), &cfg),
        "$5 $5 $nope $ /tmp"
    );
}

#[test]
fn values_are_not_rescanned() {
    let cfg = TitleConfig {
        title_format: "[$cwd]".to_string(),
        ..TitleConfig::default()
    };
    assert_eq!(
        title(&vars("", None, Some("/tmp/$weird/$cwd"), 0), &cfg),
        "[/tmp/$weird/$cwd]"
    );
}

#[test]
fn blank_template_falls_back_to_tab_number() {
    for template in ["", "   ", "$command", "$command $cwd"] {
        let cfg = TitleConfig {
            title_format: template.to_string(),
            ..TitleConfig::default()
        };
        assert_eq!(
            title(&vars("", None, None, 1), &cfg),
            "Tab 2",
            "template {template:?}"
        );
    }
}

#[test]
fn long_composed_label_truncates_with_ellipsis() {
    let cfg = cfg();
    let long = "a".repeat(100);
    let label = title(&vars("", Some(&long), None, 0), &cfg);
    assert_eq!(label.chars().count(), cfg.max_label_chars);
    assert!(label.ends_with('…'));
    // Truncation happens after interpolation, at the final char count.
    let cfg = TitleConfig {
        max_label_chars: 3,
        title_format: "x $tab y".to_string(),
        ..TitleConfig::default()
    };
    assert_eq!(title(&vars("", None, None, 0), &cfg), "x …");
}

#[test]
fn tab_numbers_have_all_their_digits() {
    let cfg = cfg();
    assert_eq!(title(&vars("", None, None, 9), &cfg), "Tab 10");
    assert_eq!(title(&vars("", None, None, 1233), &cfg), "Tab 1234");
    let numbered = TitleConfig { title_format: "#$tab: $_x ${}".to_string(), ..cfg.clone() };
    assert_eq!(title(&vars("", None, None, 41), &numbered), "#42: $_x ${}");
}

#[test]
fn window_title_falls_back_to_app_name() {
    assert_eq!(window_title_for("", "cometty"), "cometty");
    assert_eq!(window_title_for("nvim | ~/dev", "cometty"), "nvim | ~/dev");
}

#[test]
fn labels_from_trimmed_text() {
    assert_eq!(label_from_trimmed("vim", 1, 1, 0, 32), "vim");
    assert_eq!(label_from_trimmed("", 0, 0, 2, 32), "Tab 3");
    assert_eq!(label_from_trimmed("text", 2, 0, 0, 32), "Tab 1");
    assert_eq!(label_from_trimmed("abcdef", 0, 0, 0, 4), "abc\u{2026}");
}

use cometty::theme::{Rgb, Theme};
#[test]
fn ansi_falls_back_to_foreground() {
    let theme = Theme::vscode();
    assert_eq!(theme.ansi(1), theme.palette[1]);
    assert_eq!(theme.ansi(200), theme.foreground);
}

#[test]
fn vscode_matches_upstream_dark_defaults() {
    let theme = Theme::vscode();
    assert_eq!(theme.foreground, Rgb::new(0xCC, 0xCC, 0xCC));
    assert_eq!(theme.background, Rgb::new(0x1E, 0x1E, 0x1E));
    assert_eq!(theme.palette[0], Rgb::new(0x00, 0x00, 0x00));
    assert_eq!(theme.palette[1], Rgb::new(0xCD, 0x31, 0x31));
    assert_eq!(theme.palette[2], Rgb::new(0x0D, 0xBC, 0x79));
    assert_eq!(theme.palette[9], Rgb::new(0xF1, 0x4C, 0x4C));
}

#[test]
fn default_is_tokyo_night() {
    assert_eq!(Theme::default(), Theme::tokyo_night());
}

#[test]
fn from_name_resolves_builtins() {
    assert_eq!(Theme::from_name("vscode"), Some(Theme::vscode()));
    assert_eq!(Theme::from_name("default"), Some(Theme::tokyo_night()));
    assert_eq!(Theme::from_name("tokyo-night"), Some(Theme::tokyo_night()));
    assert_eq!(
        Theme::from_name("tomorrow-night"),
        Some(Theme::tomorrow_night())
    );
    assert_eq!(Theme::from_name("nope"), None);
}

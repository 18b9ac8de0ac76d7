use fp_appimage_updater::output::styling::{bold, bracketed, colorize, dim, status_text, strip_ansi, style, Color};

#[test]
fn styles_wrap_text_only_with_colors() {
    assert_eq!(style("hi", "1", false), "hi");
    assert_eq!(style("hi", "1", true), "\u{1b}[1mhi\u{1b}[0m");
    assert_eq!(bold("b", true), "\u{1b}[1mb\u{1b}[0m");
    assert_eq!(dim("d", true), "\u{1b}[2md\u{1b}[0m");
    assert_eq!(colorize("c", Color::Cyan, true), "\u{1b}[36mc\u{1b}[0m");
    assert_eq!(colorize("c", Color::Magenta, false), "c");
    assert_eq!(status_text("ok", Color::Green), "\u{1b}[32mok\u{1b}[0m");
}

#[test]
fn ansi_sequences_are_removed_when_colors_are_off() {
    let colored = colorize("text", Color::Red, true);
    assert_eq!(strip_ansi(&colored), "text");
    assert_eq!(strip_ansi("plain [x]"), "plain [x]");
    assert_eq!(bracketed(&colored, false), "[text]");
    assert_eq!(bracketed(&colored, true), format!("[{}]", colored));
}

#[test]
fn stripping_undoes_every_style() {
    for color in [Color::Red, Color::Green, Color::Yellow, Color::Blue, Color::Cyan, Color::Magenta, Color::White] {
        assert_eq!(strip_ansi(&colorize("v1.2 [ok]", color, true)), "v1.2 [ok]");
    }
    assert_eq!(strip_ansi(&bold("name", true)), "name");
    assert_eq!(strip_ansi(&dim("note", true)), "note");
}

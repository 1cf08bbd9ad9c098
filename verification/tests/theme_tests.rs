use blink_md::cli::theme::{parse_hex, Color, Theme, WindowsTerminalScheme};

fn dracula() -> WindowsTerminalScheme {
    let s = |v: &str| v.to_string();
    WindowsTerminalScheme {
        name: s("Dracula"),
        foreground: s("#F8F8F2"),
        background: s("#282A36"),
        cursor_color: None,
        selection_background: None,
        black: s("#21222C"),
        red: s("#FF5555"),
        green: s("#50FA7B"),
        yellow: s("#F1FA8C"),
        blue: s("#BD93F9"),
        purple: s("#FF79C6"),
        cyan: s("#8BE9FD"),
        white: s("#F8F8F2"),
        bright_black: s("#6272A4"),
        bright_red: s("#FF6E6E"),
        bright_green: s("#69FF94"),
        bright_yellow: s("#FFFFA5"),
        bright_blue: s("#D6ACFF"),
        bright_purple: s("#FF92DF"),
        bright_cyan: s("#A4FFFF"),
        bright_white: s("#FFFFFF"),
    }
}

#[test]
fn test_parse_hex() {
    assert_eq!(parse_hex("#FFFFFF"), Some(Color::Rgb(255, 255, 255)));
    assert_eq!(parse_hex("000000"), Some(Color::Rgb(0, 0, 0)));
    assert_eq!(parse_hex("#2383E2"), Some(Color::Rgb(35, 131, 226)));
    assert_eq!(parse_hex("invalid"), None);
    assert_eq!(parse_hex("#123"), None);
}

#[test]
fn parse_hex_edge_cases() {
    assert_eq!(parse_hex("##a0b0c0"), Some(Color::Rgb(160, 176, 192)));
    assert_eq!(parse_hex("+f+f+f"), Some(Color::Rgb(15, 15, 15)));
    assert_eq!(parse_hex("-fffff"), None);
    assert_eq!(parse_hex("éé"), None);
    assert_eq!(parse_hex("#GG0000"), None);
}

#[test]
fn test_dracula_theme_load() {
    let theme = Theme::from_windows_terminal(&dracula());
    assert_eq!(theme.error, Color::Rgb(255, 85, 85));
}

#[test]
fn unreadable_scheme_colours_fall_back() {
    let mut scheme = dracula();
    scheme.blue = "blue".to_string();
    scheme.bright_white = String::new();
    let theme = Theme::from_windows_terminal(&scheme);
    assert_eq!(theme.accent, Color::Blue);
    assert_eq!(theme.blue, Color::Blue);
    assert_eq!(theme.border, Color::Indexed(250));
    assert_eq!(theme.surface, Color::Rgb(0x28, 0x2A, 0x36));
}

#[test]
fn notion_palette_colours() {
    let t = Theme::notion_palette();
    assert_eq!(t.accent, Color::Rgb(35, 131, 226));
    assert_eq!(t.surface, Color::White);
}

#[test]
fn hex_pairs_take_either_case_and_a_plus() {
    assert_eq!(parse_hex("aBcDeF"), Some(Color::Rgb(171, 205, 239)));
    assert_eq!(parse_hex("+a0b0c"), Some(Color::Rgb(10, 11, 12)));
    assert_eq!(parse_hex("-a0b0c"), None);
    assert_eq!(parse_hex("0g0000"), None);
}

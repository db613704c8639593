use nu_ansi_term::Color as AnsiColor;
use nu_ansi_term::Style as AnsiStyle;
use starship_jj::config::on_timeout;
use starship_jj::config::timeout_output;
use starship_jj::config::util::Color;
use starship_jj::config::util::Style;
use starship_jj::config::util::TextAttributess;

fn plain() -> Style {
    Style::default()
}

fn colored(color: Color) -> Style {
    Style { color: Some(color), ..Style::default() }
}

#[test]
fn merge_prefers_own_fields() {
    let own = Style {
        color: Some(Color::Red),
        bg_color: None,
        attributes: TextAttributess { bold: Some(false), ..TextAttributess::default() },
    };
    let fallback = Style {
        color: Some(Color::Blue),
        bg_color: Some(Color::Black),
        attributes: TextAttributess {
            bold: Some(true),
            italic: Some(true),
            ..TextAttributess::default()
        },
    };
    let merged = own.merge_with_fallback(Some(fallback));
    assert_eq!(merged.color, Some(Color::Red));
    assert_eq!(merged.bg_color, Some(Color::Black));
    assert_eq!(merged.attributes.bold, Some(false));
    assert_eq!(merged.attributes.italic, Some(true));
    assert_eq!(merged.attributes.underline, None);
}

#[test]
fn merge_without_fallback_changes_nothing() {
    let own = colored(Color::Cyan);
    assert_eq!(own.merge_with_fallback(None), own);
    assert_eq!(plain().merge_with_fallback(None), plain());
}

#[test]
fn merge_fills_every_attribute() {
    let fallback = Style {
        color: Some(Color::White),
        bg_color: Some(Color::BrightBlue),
        attributes: TextAttributess {
            bold: Some(true),
            dimmed: Some(false),
            italic: Some(true),
            underline: Some(false),
            blink: Some(true),
            reverse: Some(false),
            hidden: Some(true),
            strikethrough: Some(false),
        },
    };
    assert_eq!(plain().merge_with_fallback(Some(fallback)), fallback);
}

#[test]
fn merge_twice_is_merge_once() {
    let own = Style {
        color: None,
        bg_color: Some(Color::TrueColor { r: 1, g: 2, b: 3 }),
        attributes: TextAttributess { underline: Some(true), ..TextAttributess::default() },
    };
    let fallback = Style {
        color: Some(Color::Green),
        bg_color: Some(Color::Red),
        attributes: TextAttributess { blink: Some(true), ..TextAttributess::default() },
    };
    let once = own.merge_with_fallback(Some(fallback));
    let twice = once.merge_with_fallback(Some(fallback));
    assert_eq!(once, twice);
}

#[test]
fn default_style_has_nothing_set() {
    let style = Style::default();
    assert_eq!(style.color, None);
    assert_eq!(style.bg_color, None);
    assert_eq!(style.attributes, TextAttributess::default());
    assert_eq!(style.attributes.bold, None);
    assert_eq!(style.attributes.strikethrough, None);
}

#[test]
fn colors_map_to_terminal_colors() {
    assert_eq!(AnsiColor::from(Color::Black), AnsiColor::Black);
    assert_eq!(AnsiColor::from(Color::Red), AnsiColor::Red);
    assert_eq!(AnsiColor::from(Color::Green), AnsiColor::Green);
    assert_eq!(AnsiColor::from(Color::Yellow), AnsiColor::Yellow);
    assert_eq!(AnsiColor::from(Color::Blue), AnsiColor::Blue);
    assert_eq!(AnsiColor::from(Color::Magenta), AnsiColor::Magenta);
    assert_eq!(AnsiColor::from(Color::Cyan), AnsiColor::Cyan);
    assert_eq!(AnsiColor::from(Color::White), AnsiColor::White);
    assert_eq!(AnsiColor::from(Color::BrightBlack), AnsiColor::DarkGray);
    assert_eq!(AnsiColor::from(Color::BrightRed), AnsiColor::LightRed);
    assert_eq!(AnsiColor::from(Color::BrightGreen), AnsiColor::LightGreen);
    assert_eq!(AnsiColor::from(Color::BrightYellow), AnsiColor::LightYellow);
    assert_eq!(AnsiColor::from(Color::BrightBlue), AnsiColor::LightBlue);
    assert_eq!(AnsiColor::from(Color::BrightMagenta), AnsiColor::LightMagenta);
    assert_eq!(AnsiColor::from(Color::BrightCyan), AnsiColor::LightCyan);
    assert_eq!(AnsiColor::from(Color::BrightWhite), AnsiColor::LightGray);
    assert_eq!(
        AnsiColor::from(Color::TrueColor { r: 10, g: 20, b: 30 }),
        AnsiColor::Rgb(10, 20, 30)
    );
}

#[test]
fn style_resolves_to_terminal_style() {
    let style = Style {
        color: Some(Color::BrightRed),
        bg_color: Some(Color::Blue),
        attributes: TextAttributess {
            bold: Some(true),
            dimmed: Some(false),
            italic: None,
            underline: Some(true),
            blink: None,
            reverse: None,
            hidden: None,
            strikethrough: Some(true),
        },
    };
    let resolved = AnsiStyle::from(&style);
    assert_eq!(resolved.foreground, Some(AnsiColor::LightRed));
    assert_eq!(resolved.background, Some(AnsiColor::Blue));
    assert!(resolved.is_bold);
    assert!(!resolved.is_dimmed);
    assert!(!resolved.is_italic);
    assert!(resolved.is_underline);
    assert!(!resolved.is_blink);
    assert!(!resolved.is_reverse);
    assert!(!resolved.is_hidden);
    assert!(resolved.is_strikethrough);
    assert!(resolved.prefix_with_reset);
    assert_eq!(AnsiStyle::from(style), resolved);
}

#[test]
fn first_style_is_written_in_full() {
    let mut prev = None;
    let codes = colored(Color::Magenta).format(None, &mut prev);
    assert_eq!(codes, "\u{1b}[0m\u{1b}[35m");
    assert_eq!(prev, Some(AnsiStyle::from(colored(Color::Magenta))));
}

#[test]
fn first_style_with_background_and_attributes() {
    let style = Style {
        color: Some(Color::Red),
        bg_color: Some(Color::Blue),
        attributes: TextAttributess {
            bold: Some(true),
            underline: Some(true),
            ..TextAttributess::default()
        },
    };
    let mut prev = None;
    assert_eq!(style.format(None, &mut prev), "\u{1b}[0m\u{1b}[1;4;44;31m");
}

#[test]
fn true_color_is_written_as_rgb() {
    let mut prev = None;
    let codes = colored(Color::TrueColor { r: 1, g: 2, b: 3 }).format(None, &mut prev);
    assert_eq!(codes, "\u{1b}[0m\u{1b}[38;2;1;2;3m");
}

#[test]
fn bright_black_is_dark_gray() {
    let mut prev = None;
    assert_eq!(colored(Color::BrightBlack).format(None, &mut prev), "\u{1b}[0m\u{1b}[90m");
}

#[test]
fn same_style_again_writes_nothing() {
    let style = Style {
        color: Some(Color::Green),
        bg_color: None,
        attributes: TextAttributess { italic: Some(true), ..TextAttributess::default() },
    };
    let mut prev = None;
    let first = style.format(None, &mut prev);
    assert_ne!(first, "");
    let second = style.format(None, &mut prev);
    assert_eq!(second, "");
    assert_eq!(prev, Some(AnsiStyle::from(style)));
}

#[test]
fn same_resolved_style_from_fallback_writes_nothing() {
    let mut prev = None;
    colored(Color::Magenta).format(None, &mut prev);
    let codes = plain().format(Some(colored(Color::Magenta)), &mut prev);
    assert_eq!(codes, "");
}

#[test]
fn added_attribute_is_written_alone() {
    let mut prev = None;
    colored(Color::Green).format(None, &mut prev);
    let bold_green = Style {
        color: Some(Color::Green),
        bg_color: None,
        attributes: TextAttributess { bold: Some(true), ..TextAttributess::default() },
    };
    assert_eq!(bold_green.format(None, &mut prev), "\u{1b}[1m");
}

#[test]
fn changed_color_is_written_alone() {
    let mut prev = None;
    colored(Color::Red).format(None, &mut prev);
    assert_eq!(colored(Color::Yellow).format(None, &mut prev), "\u{1b}[33m");
}

#[test]
fn dropped_color_needs_a_reset() {
    let mut prev = None;
    colored(Color::Magenta).format(None, &mut prev);
    assert_eq!(plain().format(None, &mut prev), "\u{1b}[0m\u{1b}[0m\u{1b}[m");
    assert_eq!(prev, Some(AnsiStyle::from(plain())));
}

#[test]
fn fallback_fills_the_color() {
    let mut prev = None;
    let codes = plain().format(Some(colored(Color::Blue)), &mut prev);
    assert_eq!(codes, "\u{1b}[0m\u{1b}[34m");
}

#[test]
fn print_appends_to_the_buffer() {
    let mut out = String::from("abc");
    let mut prev = None;
    colored(Color::Cyan).print(&mut out, None, &mut prev);
    assert_eq!(out, "abc\u{1b}[0m\u{1b}[36m");
    colored(Color::Cyan).print(&mut out, None, &mut prev);
    assert_eq!(out, "abc\u{1b}[0m\u{1b}[36m");
}

#[test]
fn timeout_writes_reset_and_space() {
    assert_eq!(timeout_output(), "\u{1b}[0m\u{1b}[m ");
}

#[test]
fn watchdog_is_silent_once_the_prompt_is_complete() {
    assert_eq!(on_timeout(true), None);
    assert_eq!(on_timeout(false), Some("\u{1b}[0m\u{1b}[m ".to_string()));
}

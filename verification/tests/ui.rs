use govee::ui::{
    brightness_bar, category_color, category_label, color_swatch, color_swatch_full,
    segment_blocks, theme_list_help, TermColor,
};

/// Removes ANSI escape sequences: `colored` adds them only on a terminal.
fn strip(s: &str) -> String {
    let mut out = String::new();
    let mut chars = s.chars();
    while let Some(c) = chars.next() {
        if c == '\u{1b}' {
            for d in chars.by_ref() {
                if d == 'm' {
                    break;
                }
            }
        } else {
            out.push(c);
        }
    }
    out
}

#[test]
fn brightness_bars() {
    assert_eq!(strip(&brightness_bar(0)), "░░░░░░░░░░ 0%");
    assert_eq!(strip(&brightness_bar(41)), "█████░░░░░ 41%");
    assert_eq!(strip(&brightness_bar(100)), "██████████ 100%");
    assert_eq!(strip(&brightness_bar(255)), "██████████ 255%");
}

#[test]
fn swatches() {
    assert_eq!(strip(&color_swatch(255, 16, 0)), "██ #FF1000");
    assert_eq!(strip(&color_swatch_full(1, 22, 255)), "██ #0116FF (1, 22, 255)");
}

#[test]
fn blocks_per_segment() {
    assert_eq!(strip(&segment_blocks(&[(1, 2, 3), (4, 5, 6), (7, 8, 9)])), "██████");
    assert_eq!(segment_blocks(&[]), "");
}

#[test]
fn category_styles() {
    assert_eq!(category_label("functional"), "FUNCTIONAL");
    assert_eq!(category_label("mine"), "mine");
    assert_eq!(category_color("static"), TermColor::Magenta);
    assert_eq!(category_color("seasonal"), TermColor::Red);
    assert_eq!(category_color("mine"), TermColor::White);
}

#[test]
fn theme_help_lists_custom_categories_last() {
    let themes = [("aurora", "nature"), ("mine", "zeta"), ("rain", "nature"), ("xmas", "seasonal")];
    assert_eq!(
        strip(&theme_list_help(&themes)),
        "THEMES\n│ NATURE\n│ aurora · rain\n│ SEASONAL\n│ xmas\n│ zeta\n│ mine\n"
    );
    assert_eq!(strip(&theme_list_help(&[])), "THEMES\n");
}

#[test]
fn blocks_are_painted_in_their_own_colour() {
    colored::control::set_override(true);
    let s = segment_blocks(&[(255, 16, 0), (0, 0, 0)]);
    let true_colour = "\u{1b}[38;2;255;16;0m██\u{1b}[0m\u{1b}[38;2;0;0;0m██\u{1b}[0m";
    let nearest = "\u{1b}[91m██\u{1b}[0m\u{1b}[30m██\u{1b}[0m";
    assert!(s == true_colour || s == nearest, "{s:?}");
    let w = color_swatch(255, 16, 0);
    assert!(
        w.starts_with("\u{1b}[38;2;255;16;0m██\u{1b}[0m ") || w.starts_with("\u{1b}[91m██\u{1b}[0m "),
        "{w:?}"
    );
}

use govee::themes::{
    builtin_categories, categories, get_delay, get_theme, load_all_themes, theme_list_display,
    Delay, ThemeDef,
};

fn theme(name: &str, category: &str, kind: u8) -> ThemeDef<u8> {
    ThemeDef { name: name.to_string(), category: category.to_string(), kind }
}

fn strip(s: &str) -> String {
    let mut out = String::new();
    let mut chars = s.chars();
    while let Some(c) = chars.next() {
        if c == '\u{1b}' {
            for d in chars.by_ref() {
                if d == 'm' {
                    break;
                }
            }
        } else {
            out.push(c);
        }
    }
    out
}

#[test]
fn fixed_and_random_delays() {
    assert_eq!(get_delay(&Delay::Fixed(80)), 80);
    for _ in 0..100 {
        let d = get_delay(&Delay::Random(100, 250));
        assert!((100..=250).contains(&d));
    }
    assert_eq!(get_delay(&Delay::Random(7, 7)), 7);
}

#[test]
fn category_lists() {
    assert_eq!(builtin_categories(), vec!["static", "nature", "vibes", "functional", "seasonal"]);
    assert_eq!(
        categories(),
        vec!["all", "static", "nature", "vibes", "functional", "seasonal", "custom"]
    );
}

#[test]
fn user_theme_overrides_builtin_of_same_name() {
    let builtins = vec![theme("movie", "static", 1), theme("ocean", "nature", 2)];
    let users = vec![theme("ocean", "mine", 9), theme("neon", "custom", 7)];
    let all = load_all_themes(builtins, users);
    let names: Vec<(&str, &str, u8)> =
        all.iter().map(|t| (t.name.as_str(), t.category.as_str(), t.kind)).collect();
    assert_eq!(names, vec![("movie", "static", 1), ("ocean", "mine", 9), ("neon", "custom", 7)]);
    assert_eq!(get_theme(&all, "ocean").map(|t| t.kind), Some(9));
    assert_eq!(get_theme(&all, "movie").map(|t| t.kind), Some(1));
    assert!(get_theme(&all, "lava").is_none());
}

#[test]
fn later_user_theme_of_same_name_wins() {
    let all = load_all_themes(vec![], vec![theme("x", "a", 1), theme("x", "b", 2)]);
    assert_eq!(all.len(), 1);
    assert_eq!(get_theme(&all, "x").map(|t| t.kind), Some(2));
}

#[test]
fn theme_list_groups_by_category() {
    let all = vec![
        theme("movie", "static", 0),
        theme("neon", "custom", 0),
        theme("chill", "static", 0),
        theme("ocean", "nature", 0),
    ];
    let text = strip(&theme_list_display(&all));
    assert_eq!(
        text,
        "THEMES\n│ STATIC\n│ movie · chill\n│ NATURE\n│ ocean\n│ custom\n│ neon\n"
    );
}

#[test]
fn builtin_registry_has_thirty_distinct_themes() {
    let entries = govee::themes::builtin_theme_entries();
    assert_eq!(entries.len(), 30);
    assert_eq!(entries[0], ("movie", "static"));
    assert_eq!(entries[11], ("northern-lights", "nature"));
    assert_eq!(entries[29], ("snowfall", "seasonal"));
    for (i, a) in entries.iter().enumerate() {
        for b in &entries[i + 1..] {
            assert_ne!(a.0, b.0);
        }
    }
    let kinds: Vec<usize> = (0..30).collect();
    let themes = govee::themes::builtin_themes(kinds);
    assert_eq!(themes[25].name, "gradient-wave");
    assert_eq!(themes[25].category, "functional");
    assert_eq!(themes[25].kind, 25);
}

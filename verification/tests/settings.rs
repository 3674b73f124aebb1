//! Settings, and the themes that they choose among.
use skyterm::layout::Layout;
use skyterm::settings::{
    bucket, bucket_members, build_css, cycle_theme, find_theme, in_order, initial_theme, sort_order,
    sort_themes, Bucket, Config, PaneSettings,
};
use skyterm::theme::{palette_of, CellColor, Color, Theme};
use skyterm::theme_file::{is_theme_file, parse_terminator_themes, TerminatorBlock};
use skyterm::theme_toml::{parse_toml_themes, theme_of_table, Setting};

fn named(name: &str) -> Theme {
    let mut t = Theme::skyterm_dark();
    t.name = name.to_string();
    t
}

fn names(themes: &[Theme]) -> Vec<&str> {
    themes.iter().map(|t| t.name.as_str()).collect()
}

#[test]
fn missing_settings_have_defaults() {
    let s = Config::default().settings();
    assert!(s.cursor_blink);
    assert!(s.click_word_select);
    assert!(!s.copy_on_select);
    assert_eq!(s.tab_max, 20);
    assert!(s.confirm_tab_close && s.confirm_pane_close && s.confirm_window_close);
    assert!(s.show_pane_toolbar);
    assert_eq!(s.layout, Layout::Single);
}

#[test]
fn settings_survive_being_written() {
    let mut c = Config::default();
    c.cursor_blink = Some(false);
    c.tab_max_number = Some(3);
    c.show_pane_toolbar = Some(false);
    c.default_layout = Some("3".to_string());
    let s = c.settings();
    assert_eq!(s.layout, Layout::Three);
    let pane = PaneSettings { font_size: 18, scrollback_lines: 0 };
    let written = Config::from_settings(s, "f".to_string(), "t".to_string(), Some(pane));
    assert_eq!(written.settings(), s);
    assert_eq!(written.font_size, Some(18));
    assert_eq!(written.scrollback_lines, Some(0));
    assert_eq!(written.theme_name.as_deref(), Some("t"));
    assert_eq!(written.font_path.as_deref(), Some("f"));
    let alone = Config::from_settings(s, "f".to_string(), "t".to_string(), None);
    assert_eq!((alone.font_size, alone.scrollback_lines), (None, None));
}

#[test]
fn themes_are_found_by_name() {
    let themes = Theme::presets();
    assert_eq!(themes.len(), 13);
    assert_eq!(find_theme(&themes, &themes[4].name), Some(4));
    assert_eq!(find_theme(&themes, "no such theme"), None);
    let chosen = initial_theme(&themes, &Some(themes[2].name.clone()));
    assert_eq!(chosen.name, themes[2].name);
    assert_eq!(initial_theme(&themes, &None).name, Theme::default().name);
    assert_eq!(initial_theme(&themes, &Some("gone".to_string())).name, "Skyterm Blue");
}

#[test]
fn theme_steps_go_around() {
    let themes = vec![named("a"), named("b"), named("c")];
    assert_eq!(cycle_theme(&themes, "a", true), Some(1));
    assert_eq!(cycle_theme(&themes, "c", true), Some(0));
    assert_eq!(cycle_theme(&themes, "a", false), Some(2));
    assert_eq!(cycle_theme(&themes, "?", true), Some(1));
    assert_eq!(cycle_theme(&Vec::new(), "a", true), None);
}

#[test]
fn every_theme_is_in_one_list() {
    let mut themes = Theme::presets();
    themes.push(named("mine"));
    let user = vec!["mine".to_string()];
    let dark = bucket_members(&themes, &user, Bucket::Dark);
    let light = bucket_members(&themes, &user, Bucket::Light);
    let custom = bucket_members(&themes, &user, Bucket::Custom);
    assert_eq!(custom, vec![13]);
    assert_eq!(dark.len() + light.len() + custom.len(), 14);
    assert_eq!(bucket(&Theme::solarized_light(), &user), Bucket::Light);
    assert_eq!(bucket(&Theme::solarized_dark(), &user), Bucket::Dark);
}

#[test]
fn themes_sort_by_name_in_any_case() {
    let sorted = sort_themes(&vec![named("beta"), named("Alpha"), named("GAMMA"), named("ALPHA")]);
    // Names that are equal but for case keep their order.
    assert_eq!(names(&sorted), vec!["Alpha", "ALPHA", "beta", "GAMMA"]);
    let umlaut = sort_themes(&vec![named("\u{c9}b"), named("\u{e9}a")]);
    assert_eq!(names(&umlaut), vec!["\u{e9}a", "\u{c9}b"]);
    let key = |s: &str| s.chars().collect::<Vec<char>>();
    assert!(in_order(&key("ab"), &key("abc")));
    assert!(!in_order(&key("b"), &key("abc")));
    assert_eq!(sort_order(&vec![key("b"), key("a"), key("b")]), vec![1, 0, 2]);
}

#[test]
fn the_style_sheet_names_the_font() {
    assert_eq!(
        build_css("a { font: __FONT_FAMILY__; } b { __FONT_FAMILY__ }", "DejaVu \"Sans\" Mono"),
        "a { font: \"DejaVu Sans Mono\"; } b { \"DejaVu Sans Mono\" }"
    );
    assert_eq!(build_css("none", "x"), "none");
}

#[test]
fn presets_put_dark_themes_first() {
    let themes = Theme::presets();
    let first_light = themes.iter().position(|t| !t.is_dark()).unwrap();
    assert!(themes[first_light..].iter().all(|t| !t.is_dark()));
    assert_eq!(Theme::default().name, "Skyterm Blue");
}

#[test]
fn colors_resolve_through_the_theme() {
    let t = Theme::solarized_dark();
    assert_eq!(t.resolve_fg(CellColor::Default), t.fg);
    assert_eq!(t.resolve_bg(CellColor::Default), t.bg);
    assert_eq!(t.resolve_fg(CellColor::Palette(1)), Color::rgb(0xdc, 0x32, 0x2f));
    assert_eq!(t.resolve_bg(CellColor::Rgb(Color::rgb(1, 2, 3))), Color::rgb(1, 2, 3));
    // The cube and the gray ramp.
    assert_eq!(Color::xterm_256(16), Color::rgb(0, 0, 0));
    assert_eq!(Color::xterm_256(21), Color::rgb(0, 0, 255));
    assert_eq!(Color::xterm_256(231), Color::rgb(255, 255, 255));
    assert_eq!(Color::xterm_256(232), Color::rgb(8, 8, 8));
    assert_eq!(Color::xterm_256(255), Color::rgb(238, 238, 238));
    assert_eq!(t.palette[200], Color::xterm_256(200));
}

#[test]
fn short_palettes_are_filled_with_black() {
    let p = palette_of(&vec![Color::rgb(9, 9, 9); 3]);
    assert_eq!(p[2], Color::rgb(9, 9, 9));
    assert_eq!(p[3], Color::rgb(0, 0, 0));
    let long = palette_of(&vec![Color::rgb(9, 9, 9); 300]);
    assert_eq!(long[255], Color::rgb(9, 9, 9));
}

#[test]
fn theme_files_have_several_blocks() {
    let text = "# comment\n[[a]]\nforeground_color = #fff000\nbackground_color=\"#000000\"\n\
                [[b]]\nbackground_color = \"#010203\"\nforeground_color = \"#ffffff\"\nother = 1\n";
    let themes = parse_terminator_themes(text);
    assert_eq!(names(&themes), vec!["a", "b"]);
    assert_eq!(themes[0].fg, Color::rgb(0xff, 0xf0, 0x00));
    assert_eq!(themes[1].bg, Color::rgb(1, 2, 3));
    assert!(themes[1].font_path.is_none());
    assert!(parse_terminator_themes("").is_empty());
    assert!(parse_terminator_themes("foreground_color = \"#ffffff\"\n").is_empty());
}

#[test]
fn blocks_can_be_filled_key_by_key() {
    let mut block = TerminatorBlock::new("mine".to_string());
    block.set_key("foreground_color", "#ffffff");
    block.set_key("background_color", "#323232");
    block.set_key("cursor_color", "#d6d6d6");
    block.set_font_path("/f.ttf".to_string());
    block.set_font_size(12);
    block.default_background(Color::rgb(9, 9, 9));
    let t = block.into_theme().unwrap();
    assert_eq!(t.name, "mine");
    assert_eq!(t.bg, Color::rgb(0x32, 0x32, 0x32));
    assert_eq!(t.cursor, Color::rgb(0xd6, 0xd6, 0xd6));
    assert_eq!((t.font_path.as_deref(), t.font_size), (Some("/f.ttf"), Some(12)));
    let mut bad = TerminatorBlock::new("bad".to_string());
    bad.set_key("foreground_color", "white");
    bad.set_key("background_color", "#323232");
    assert!(bad.into_theme().is_none());
}

#[test]
fn theme_files_end_in_toml() {
    assert!(is_theme_file("toml"));
    assert!(is_theme_file("TOML"));
    assert!(is_theme_file("tOmL"));
    assert!(!is_theme_file("tom"));
    assert!(!is_theme_file("tomls"));
    assert!(!is_theme_file("yaml"));
}

#[test]
fn toml_themes() {
    let text = r##"
[themes]
[themes.MyTheme1]
palette = "#353535:#d25252:#a5c261:#ffc66d:#6c99bb:#d197d9:#bed6ff:#eeeeec:#535353:#f00c0c:#c2e075:#e1e48b:#8ab7d9:#efb5f7:#dcf4ff:#ffffff"
background_color = "#323232"
cursor_color = "#d6d6d6"
foreground_color = "#ffffff"
font_size = 12
font_path = "/usr/share/fonts/myfont/myfont.ttf"

[themes.SomeOtherTheme]
cursor_color = "#BAFFAA"
foreground_color = "#FFFFFF"
palette = "#444444:#FF0054:#B1D630:#9D895E:#67BEE3:#B576BC:#569A9F:#EDEDED:#777777:#D65E75:#BAFFAA:#ECE1C8:#9FD3E5:#DEB3DF:#B6E0E5:#FFFFFF"
"##;
    let themes = parse_toml_themes(text);
    assert_eq!(names(&themes), vec!["MyTheme1", "SomeOtherTheme"]);
    let t = &themes[0];
    assert_eq!(t.bg, Color::rgb(0x32, 0x32, 0x32));
    assert_eq!(t.cursor, Color::rgb(0xd6, 0xd6, 0xd6));
    assert_eq!(t.palette[1], Color::rgb(0xd2, 0x52, 0x52));
    assert_eq!(t.font_size, Some(12));
    assert_eq!(t.font_path.as_deref(), Some("/usr/share/fonts/myfont/myfont.ttf"));
    assert_eq!(themes[1].palette[1], Color::rgb(0xff, 0x00, 0x54));
    assert_eq!(themes[1].bg, Color::default_bg());
    assert_eq!(themes[1].font_size, None);
}

#[test]
fn toml_without_themes() {
    assert!(parse_toml_themes("not toml at all =").is_empty());
    assert!(parse_toml_themes("themes = 3").is_empty());
    assert!(parse_toml_themes("[other.a]\nforeground_color = \"#ffffff\"").is_empty());
    assert!(parse_toml_themes("[themes.a]\nbackground_color = \"#ffffff\"").is_empty());
    assert!(parse_toml_themes("[themes]\na = 1").is_empty());
}

#[test]
fn tables_of_the_wrong_kind_change_nothing() {
    let text = |k: &str, v: &str| (k.to_string(), Setting::Text(v.to_string()));
    let settings = vec![
        text("foreground_color", "#010203"),
        text("font_size", "12"),
        ("font_size".to_string(), Setting::Number(-1)),
        ("font_path".to_string(), Setting::Number(5)),
        ("palette".to_string(), Setting::Other),
    ];
    let t = theme_of_table("t".to_string(), &settings).unwrap();
    assert_eq!(t.name, "t");
    assert_eq!(t.fg, Color::rgb(1, 2, 3));
    assert_eq!((t.font_path, t.font_size), (None, None));
    assert!(theme_of_table("t".to_string(), &Vec::new()).is_none());
}

#[test]
fn preset_names_differ() {
    let themes = Theme::presets();
    for (i, t) in themes.iter().enumerate() {
        assert_eq!(find_theme(&themes, &t.name), Some(i));
    }
}

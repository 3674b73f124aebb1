//! Themes and theme files.
use skyterm::theme::Color;
use skyterm::theme_file::parse_terminator_themes;

    #[test]
    fn parses_terminator_solarized() {
        let text = r##"
[[solarized]]
    background_color = "#002b36"
    cursor_color = "#eee8d5"
    foreground_color = "#e6e0da"
    palette = "#073642:#dc322f:#859900:#b58900:#268bd2:#d33682:#2aa198:#eee8d5:#586e75:#cb4b16:#586e75:#657b83:#839496:#6c71c4:#93a1a1:#fdf6e3"
"##;
        let themes = parse_terminator_themes(text);
        assert_eq!(themes.len(), 1);
        let t = &themes[0];
        assert_eq!(t.name, "solarized");
        assert_eq!(t.bg, Color::rgb(0x00, 0x2b, 0x36));
        assert_eq!(t.fg, Color::rgb(0xe6, 0xe0, 0xda));
        assert_eq!(t.cursor, Color::rgb(0xee, 0xe8, 0xd5));
        assert_eq!(t.palette[0], Color::rgb(0x07, 0x36, 0x42));
        assert_eq!(t.palette[15], Color::rgb(0xfd, 0xf6, 0xe3));
    }

    #[test]
    fn skips_incomplete_block() {
        let text = "[[only-bg]]\nbackground_color = \"#000000\"\n";
        assert!(parse_terminator_themes(text).is_empty());
    }

    #[test]
    fn cursor_defaults_to_fg() {
        let text = "[[t]]\nforeground_color = \"#ffffff\"\nbackground_color = \"#000000\"\n";
        let themes = parse_terminator_themes(text);
        assert_eq!(themes[0].cursor, Color::rgb(0xff, 0xff, 0xff));
    }

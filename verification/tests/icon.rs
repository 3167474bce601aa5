use no_sleep_till_done::color::{color_is_readable, css_named_color, parse_color};
use no_sleep_till_done::config::AppConfig;
use no_sleep_till_done::drawing::{
    compact_text_width, draw_circle, draw_compact_glyph, draw_compact_text, draw_rect, set_pixel,
};
use no_sleep_till_done::icon::{icon_is_drawable, render_icon};
use no_sleep_till_done::service::ServiceStatus;
use no_sleep_till_done::status::StatusSnapshot;
use no_sleep_till_done::system::{BatteryState, LidState, PowerSource};

#[test]
fn colors_are_read_in_hexadecimal() {
    assert_eq!(parse_color("#ff8000"), Some([255, 128, 0, 255]));
    assert_eq!(parse_color(" 0aF010 "), Some([10, 240, 16, 255]));
    assert_eq!(parse_color("#+f0000"), Some([15, 0, 0, 255]));
    assert_eq!(parse_color("#ff80zz"), None);
    assert_eq!(parse_color("# ff800"), None);
    assert_eq!(parse_color("##ff8000"), None);
    assert_eq!(parse_color("#fff"), None);
    assert_eq!(parse_color(""), None);
}

#[test]
fn colors_are_read_by_name() {
    assert_eq!(parse_color("green"), Some([0, 128, 0, 255]));
    assert_eq!(parse_color(" Orange\n"), Some([255, 165, 0, 255]));
    assert_eq!(parse_color("#red"), Some([255, 0, 0, 255]));
    assert_eq!(parse_color("# blue"), Some([0, 0, 255, 255]));
    assert_eq!(parse_color("TRANSPARENT"), Some([0, 0, 0, 0]));
    assert_eq!(css_named_color("AQUA"), css_named_color("cyan"));
    assert_eq!(css_named_color("DarkSlateGrey"), Some([47, 79, 79, 255]));
    assert_eq!(css_named_color("rebeccapurple"), Some([102, 51, 153, 255]));
    assert_eq!(css_named_color("azure"), Some([240, 255, 255, 255]));
    assert_eq!(css_named_color("beige"), Some([245, 245, 220, 255]));
    assert_eq!(css_named_color("bisque"), Some([255, 228, 196, 255]));
    assert_eq!(css_named_color("yellowgreen"), Some([154, 205, 50, 255]));
    assert_eq!(css_named_color("#red"), None);
    assert_eq!(css_named_color("no color"), None);
}

#[test]
fn colors_have_synonyms_in_any_case() {
    for (one, other) in [
        (" Gray", "GREY\n"),
        ("darkgray", "DarkGrey"),
        ("dimgray", "dimgrey"),
        ("lightgray", "lightgrey"),
        ("slategray", "slategrey"),
        ("darkslategray", "darkslategrey"),
        ("lightslategray", "lightslategrey"),
        ("aqua", "\tCyan"),
        ("Fuchsia", "magenta"),
    ] {
        let color = css_named_color(one);
        assert!(color.is_some_and(|[_, _, _, opacity]| opacity == 255), "{one}");
        assert_eq!(color, css_named_color(other), "{one}");
    }
    assert_eq!(css_named_color(""), None);
}

#[test]
fn six_letters_are_digits_or_a_name() {
    assert_eq!(parse_color("decade"), Some([222, 202, 222, 255]));
    assert_eq!(parse_color("orange"), Some([255, 165, 0, 255]));
    assert_eq!(parse_color("Purple"), Some([128, 0, 128, 255]));
    assert_eq!(parse_color("silver"), Some([192, 192, 192, 255]));
    assert_eq!(parse_color("bisque"), Some([255, 228, 196, 255]));
    assert_eq!(parse_color("yellow"), Some([255, 255, 0, 255]));
    assert_eq!(parse_color("mellow"), None);
    assert_eq!(parse_color("#orange"), None);
    assert_eq!(parse_color(" #decade"), Some([222, 202, 222, 255]));
}

#[test]
fn colors_with_letters_across_pairs_are_not_readable() {
    assert!(color_is_readable("#ff8000"));
    assert!(color_is_readable("éabcd"));
    assert_eq!(parse_color("éabcd"), None);
    assert!(color_is_readable("ffé00"));
    assert_eq!(parse_color("ffé00"), None);
    assert!(color_is_readable("ff00é"));
    assert_eq!(parse_color("ff00é"), None);
    assert!(!color_is_readable("aébcd"));
    assert!(!color_is_readable("ff0é0"));
    assert!(color_is_readable("zz0é0"));
    assert_eq!(parse_color("zz0é0"), None);
    assert!(!color_is_readable("#€€"));
    assert!(color_is_readable("€€€"));
    assert!(color_is_readable("aébcdefgh"));
}

#[test]
fn pixels_are_set_whole() {
    let mut rgba = vec![0u8; 10];
    set_pixel(&mut rgba, 2, 1, 0, [1, 2, 3, 4]);
    assert_eq!(rgba, vec![0, 0, 0, 0, 1, 2, 3, 4, 0, 0]);
    set_pixel(&mut rgba, 2, 0, 1, [9, 9, 9, 9]);
    assert_eq!(rgba, vec![0, 0, 0, 0, 1, 2, 3, 4, 0, 0]);
}

/// The picture as rows of marks.
fn rows(rgba: &[u8], width: usize) -> Vec<String> {
    rgba.chunks(width * 4)
        .map(|row| {
            row.chunks(4)
                .map(|pixel| if pixel[3] == 0 { '.' } else { '#' })
                .collect()
        })
        .collect()
}

#[test]
fn rectangles_are_filled() {
    let mut rgba = vec![0u8; 4 * 3 * 4];
    draw_rect(&mut rgba, 4, 1, 1, 2, 2, [1, 1, 1, 1]);
    assert_eq!(rows(&rgba, 4), vec!["....", ".##.", ".##."]);
    let mut rgba = vec![0u8; 4 * 3 * 4];
    draw_rect(&mut rgba, 4, 3, 0, 2, 1, [1, 1, 1, 1]);
    assert_eq!(rows(&rgba, 4), vec!["...#", "#...", "...."]);
    draw_rect(&mut rgba, 4, 0, 0, 0, 3, [1, 1, 1, 1]);
    assert_eq!(rows(&rgba, 4), vec!["...#", "#...", "...."]);
}

#[test]
fn circles_are_filled() {
    let mut rgba = vec![0u8; 5 * 5 * 4];
    draw_circle(&mut rgba, 5, 2, 2, 2, [1, 1, 1, 1]);
    assert_eq!(rows(&rgba, 5), vec!["..#..", ".###.", "#####", ".###.", "..#.."]);
    let mut rgba = vec![0u8; 3 * 3 * 4];
    draw_circle(&mut rgba, 3, 1, 1, 0, [1, 1, 1, 1]);
    assert_eq!(rows(&rgba, 3), vec!["...", ".#.", "..."]);
    draw_circle(&mut rgba, 3, 0, 0, -1, [1, 1, 1, 1]);
    assert_eq!(rows(&rgba, 3), vec!["...", ".#.", "..."]);
}

#[test]
fn characters_are_drawn() {
    let cases = [
        ('0', [".##.", "#..#", "#..#", "#..#", "#..#", "#..#", ".##."]),
        ('1', ["..#.", ".##.", "..#.", "..#.", "..#.", "..#.", ".###"]),
        ('2', ["###.", "...#", "...#", ".##.", "#...", "#...", "####"]),
        ('3', ["###.", "...#", "...#", ".##.", "...#", "...#", "###."]),
        ('4', ["#..#", "#..#", "#..#", "####", "...#", "...#", "...#"]),
        ('5', ["####", "#...", "#...", "###.", "...#", "...#", "###."]),
        ('6', [".###", "#...", "#...", "###.", "#..#", "#..#", ".##."]),
        ('7', ["####", "...#", "..#.", "..#.", ".#..", ".#..", ".#.."]),
        ('8', [".##.", "#..#", "#..#", ".##.", "#..#", "#..#", ".##."]),
        ('9', [".##.", "#..#", "#..#", ".###", "...#", "...#", "###."]),
        ('-', ["....", "....", "....", "###.", "....", "....", "...."]),
        ('x', ["....", "....", "....", "....", "....", "....", "...."]),
    ];
    for (ch, expected) in cases {
        let mut rgba = vec![0u8; 4 * 7 * 4];
        draw_compact_glyph(&mut rgba, 4, 0, 0, ch, [1, 1, 1, 1]);
        assert_eq!(rows(&rgba, 4), expected, "{ch}");
    }
    let mut rgba = vec![0u8; 9 * 7 * 4];
    draw_compact_text(&mut rgba, 9, 0, 0, "1-", [1, 1, 1, 1]);
    assert_eq!(rows(&rgba, 9)[3], "..#..###.");
    assert_eq!(compact_text_width(""), 0);
    assert_eq!(compact_text_width("7"), 4);
    assert_eq!(compact_text_width("100"), 14);
}

fn snapshot(percent: Option<u8>, sleep_disabled: Option<bool>) -> StatusSnapshot {
    StatusSnapshot {
        battery: Some(BatteryState {
            percent,
            source: PowerSource::Battery,
            charging: false,
            raw: String::new(),
        }),
        lid: Some(LidState::Open),
        sleep_disabled,
        remaining: None,
        process_wait: None,
        enabled: true,
        service_status: ServiceStatus::Ready,
        config_notice: None,
    }
}

#[test]
fn picture_shows_charge_and_dot() {
    let icon = render_icon(&snapshot(Some(50), Some(true)), &AppConfig::default());
    assert_eq!((icon.width, icon.height), (21, 14));
    assert_eq!(icon.rgba.len(), 21 * 14 * 4);
    assert_eq!(
        rows(&icon.rgba, 21),
        vec![
            ".....................",
            ".....................",
            "####..##...####......",
            "#....#..#..#..#......",
            "#....#..#..#..#......",
            "###..#..#..#..#...#..",
            "...#.#..#..#..#..###.",
            "...#.#..#..####.#####",
            "###...##...####..###.",
            "...........####...#..",
            "...........####......",
            "...........####......",
            ".....................",
            ".....................",
        ]
    );
    let pixel = |x: usize, y: usize| {
        let at = (y * 21 + x) * 4;
        [icon.rgba[at], icon.rgba[at + 1], icon.rgba[at + 2], icon.rgba[at + 3]]
    };
    assert_eq!(pixel(0, 2), [42, 42, 46, 255]);
    assert_eq!(pixel(12, 10), [80, 80, 86, 255]);
    assert_eq!(pixel(12, 3), [0, 0, 0, 0]);
    assert_eq!(pixel(18, 7), [0, 128, 0, 255]);
}

#[test]
fn picture_follows_the_charge() {
    let config = AppConfig::default();
    let low = render_icon(&snapshot(Some(10), None), &config);
    assert_eq!(&low.rgba[(10 * 21 + 12) * 4..(10 * 21 + 12) * 4 + 4], &[239, 68, 68, 255]);
    let medium = render_icon(&snapshot(Some(25), None), &config);
    assert_eq!(&medium.rgba[(10 * 21 + 12) * 4..(10 * 21 + 12) * 4 + 4], &[245, 158, 11, 255]);
    let full = render_icon(&snapshot(Some(255), None), &config);
    assert_eq!(full.width, 26);
    assert_eq!(&full.rgba[(3 * 26 + 17) * 4..(3 * 26 + 17) * 4 + 4], &[80, 80, 86, 255]);
    let none = render_icon(&snapshot(None, None), &config);
    assert_eq!(none.width, 21);
    assert_eq!(&none.rgba[(9 * 21 + 12) * 4..(9 * 21 + 12) * 4 + 4], &[0, 0, 0, 0]);
    assert_eq!(&none.rgba[(10 * 21 + 12) * 4..(10 * 21 + 12) * 4 + 4], &[239, 68, 68, 255]);
}

#[test]
fn dot_has_its_configured_color() {
    let mut config = AppConfig::default();
    config.colors.error = "#010203".into();
    let icon = render_icon(&snapshot(Some(50), Some(false)), &config);
    assert_eq!(&icon.rgba[(7 * 21 + 18) * 4..(7 * 21 + 18) * 4 + 4], &[1, 2, 3, 255]);
    config.colors.error = "nothing".into();
    let icon = render_icon(&snapshot(Some(50), Some(false)), &config);
    assert_eq!(&icon.rgba[(7 * 21 + 18) * 4..(7 * 21 + 18) * 4 + 4], &[255, 0, 0, 255]);
    assert!(icon_is_drawable(&snapshot(Some(50), Some(false)), &config));
    config.colors.error = "aébcd".into();
    assert!(!icon_is_drawable(&snapshot(Some(50), Some(false)), &config));
    assert!(icon_is_drawable(&snapshot(Some(50), Some(true)), &config));
}

//! The picture in the menu bar: the charge in digits and as a bar, and a dot.
use vstd::prelude::*;

use crate::color;
use crate::color::{color_is_readable, parse_color};
use crate::color_names;
use crate::config;
use crate::config::{AppConfig, ColorConfig};
use crate::drawing;
use crate::drawing::{compact_text_width, draw_circle, draw_compact_text, draw_rect};
use crate::number;
use crate::status;
use crate::status::{MarkerMode, StatusSnapshot};

verus! {

/// The height of the picture, in pixels.
pub const ICON_HEIGHT: usize = 14;

/// A picture of four bytes a pixel.
#[derive(Debug, Eq, PartialEq)]
pub struct IconImage {
    pub rgba: Vec<u8>,
    pub width: u32,
    pub height: u32,
}

/// The width of the picture for so many characters of charge.
pub open spec fn icon_width(count: nat) -> nat {
    drawing::text_width(count) + 12
}

/// The color of digits and of the bar's frame.
pub open spec fn outline() -> Seq<u8> {
    seq![42u8, 42, 46, 255]
}

/// The color of the bar, by the charge.
pub open spec fn fill_color(percent: u8) -> Seq<u8> {
    if percent <= 10 {
        seq![239u8, 68, 68, 255]
    } else if percent <= 25 {
        seq![245u8, 158, 11, 255]
    } else {
        seq![80u8, 80, 86, 255]
    }
}

/// The height of the bar, by the charge: from one pixel to eight.
pub open spec fn fill_height(percent: u8) -> int {
    let shown = if percent <= 100 {
        percent as int
    } else {
        100
    };
    if shown * 8 / 100 < 1 {
        1
    } else {
        shown * 8 / 100
    }
}

/// The configured color of the dot.
pub open spec fn marker_setting(colors: config::ColorModel, mode: MarkerMode) -> Seq<char> {
    match mode {
        MarkerMode::Ready => colors.ready,
        MarkerMode::Timer => colors.timer,
        MarkerMode::ProcessWait => colors.process_wait,
        MarkerMode::Error => colors.error,
        MarkerMode::Unknown => colors.unknown,
    }
}

/// The color of the dot where the configured one is none.
pub open spec fn marker_default(mode: MarkerMode) -> Seq<u8> {
    match mode {
        MarkerMode::Ready => seq![0u8, 128, 0, 255],
        MarkerMode::Timer => seq![255u8, 165, 0, 255],
        MarkerMode::ProcessWait => seq![0u8, 0, 255, 255],
        MarkerMode::Error => seq![255u8, 0, 0, 255],
        MarkerMode::Unknown => seq![128u8, 128, 128, 255],
    }
}

/// The color of the dot.
pub open spec fn marker_color(colors: config::ColorModel, mode: MarkerMode) -> Seq<u8> {
    match color::color_of(marker_setting(colors, mode)) {
        Some(c) => c,
        None => marker_default(mode),
    }
}

/// The picture for a charge and a dot.
pub open spec fn icon_pixels(percent: Option<u8>, dot: Seq<u8>) -> Seq<u8> {
    let digits = status::percent_text(percent);
    let width = icon_width(digits.len());
    let bar: int = drawing::text_width(digits.len()) as int + 2;
    let charge = match percent {
        Some(n) => n,
        None => 0,
    };
    let blank = Seq::new(width * 14 * 4, |i: int| 0u8);
    let with_digits = drawing::paint(blank, outline(), drawing::text_pixels(width, 0, 2, digits));
    let with_frame = drawing::paint(with_digits, outline(), drawing::rect_pixels(width, bar, 2, 4, 10));
    let with_hollow = drawing::paint(
        with_frame,
        seq![0u8, 0, 0, 0],
        drawing::rect_pixels(width, bar + 1, 3, 2, 8),
    );
    let with_bar = drawing::paint(
        with_hollow,
        fill_color(charge),
        drawing::rect_pixels(width, bar + 1, 11 - fill_height(charge), 2, fill_height(charge)),
    );
    drawing::paint(with_bar, dot, drawing::circle_pixels(width, bar + 7, 7, 2))
}

fn marker_color_of(colors: &ColorConfig, mode: MarkerMode) -> (r: [u8; 4])
    requires
        color::is_readable(marker_setting(colors@, mode)),
    ensures
        r@ == marker_color(colors@, mode),
{
    let (setting, fallback): (&str, [u8; 4]) = match mode {
        MarkerMode::Ready => (colors.ready.as_str(), [0, 128, 0, 255]),
        MarkerMode::Timer => (colors.timer.as_str(), [255, 165, 0, 255]),
        MarkerMode::ProcessWait => (colors.process_wait.as_str(), [0, 0, 255, 255]),
        MarkerMode::Error => (colors.error.as_str(), [255, 0, 0, 255]),
        MarkerMode::Unknown => (colors.unknown.as_str(), [128, 128, 128, 255]),
    };
    assert(fallback@ =~= marker_default(mode));
    match parse_color(setting) {
        Some(c) => c,
        None => fallback,
    }
}

/// Whether the configured color of a snapshot's dot can be read.
pub fn icon_is_drawable(snapshot: &StatusSnapshot, config: &AppConfig) -> (r: bool)
    ensures
        r == color::is_readable(marker_setting(config@.colors, snapshot.marker())),
{
    let setting = match snapshot.marker_mode() {
        MarkerMode::Ready => config.colors.ready.as_str(),
        MarkerMode::Timer => config.colors.timer.as_str(),
        MarkerMode::ProcessWait => config.colors.process_wait.as_str(),
        MarkerMode::Error => config.colors.error.as_str(),
        MarkerMode::Unknown => config.colors.unknown.as_str(),
    };
    color_is_readable(setting)
}

proof fn lemma_percent_text(percent: Option<u8>)
    ensures
        1 <= status::percent_text(percent).len() <= 3,
{
    reveal_strlit("--");
    if let Some(n) = percent {
        reveal_with_fuel(number::decimal, 4);
    }
}

/// A picture without anything on it.
fn blank_picture(size: usize) -> (v: Vec<u8>)
    ensures
        v@ == Seq::new(size as nat, |i: int| 0u8),
{
    let mut v: Vec<u8> = Vec::new();
    let mut i: usize = 0;
    while i < size
        invariant
            i <= size,
            v@ =~= Seq::new(i as nat, |k: int| 0u8),
        decreases size - i,
    {
        v.push(0);
        i = i + 1;
    }
    v
}

/// Draws the picture for the state of things.
pub fn render_icon(snapshot: &StatusSnapshot, config: &AppConfig) -> (icon: IconImage)
    requires
        color::is_readable(marker_setting(config@.colors, snapshot.marker())),
    ensures
        icon.width == icon_width(status::percent_text(snapshot.percent()).len()),
        icon.height == ICON_HEIGHT,
        icon.rgba@ == icon_pixels(snapshot.percent(), marker_color(config@.colors, snapshot.marker())),
        icon.rgba@.len() == icon.width * icon.height * 4,
{
    let percent_text = snapshot.battery_percent_text();
    proof {
        lemma_percent_text(snapshot.percent());
    }
    let text_width: usize = compact_text_width(percent_text.as_str());
    let bar_x: usize = text_width + 2;
    let dot_x: usize = bar_x + 7;
    let width: usize = dot_x + 3;
    assert(width * ICON_HEIGHT <= 26 * 14) by (nonlinear_arith)
        requires
            width <= 26,
            ICON_HEIGHT == 14,
    ;
    let mut rgba = blank_picture(width * ICON_HEIGHT * 4);
    let percent: u8 = match &snapshot.battery {
        Some(state) => match state.percent {
            Some(n) => n,
            None => 0,
        },
        None => 0,
    };
    let outline: [u8; 4] = [42, 42, 46, 255];
    let clear: [u8; 4] = [0, 0, 0, 0];
    let fill: [u8; 4] = if percent <= 10 {
        [239, 68, 68, 255]
    } else if percent <= 25 {
        [245, 158, 11, 255]
    } else {
        [80, 80, 86, 255]
    };
    proof {
        assert(outline@ =~= crate::icon::outline());
        assert(clear@ =~= seq![0u8, 0, 0, 0]);
        assert(fill@ =~= fill_color(percent));
        assert forall|x: int, y: int| 0 <= x < 64 && 0 <= y < 64 implies #[trigger] drawing::is_countable(
            width as nat,
            x,
            y,
        ) by {
            assert(y * width <= 64 * 26) by (nonlinear_arith)
                requires
                    0 <= y < 64,
                    0 <= width <= 26,
            ;
        }
    }
    draw_compact_text(&mut rgba, width, 0, 2, percent_text.as_str(), outline);
    draw_rect(&mut rgba, width, bar_x, 2, 4, 10, outline);
    draw_rect(&mut rgba, width, bar_x + 1, 3, 2, 8, clear);
    let shown: usize = if percent <= 100 {
        percent as usize
    } else {
        100
    };
    let fill_height: usize = if shown * 8 / 100 < 1 {
        1
    } else {
        shown * 8 / 100
    };
    draw_rect(&mut rgba, width, bar_x + 1, 11 - fill_height, 2, fill_height, fill);
    let dot = marker_color_of(&config.colors, snapshot.marker_mode());
    draw_circle(&mut rgba, width, dot_x as isize, 7, 2, dot);
    IconImage { rgba, width: width as u32, height: ICON_HEIGHT as u32 }
}

/// The bar is as high as the charge: an eighth for every eighth of it, rounded
/// down, but never nothing; a fuller charge never has a lower bar.
pub proof fn bar_is_as_high_as_the_charge(percent: u8, other: u8)
    ensures
        1 <= fill_height(percent) <= 8,
        percent >= 100 ==> fill_height(percent) == 8,
        percent < 100 ==> 8 * percent < 100 * (fill_height(percent) + 1),
        13 <= percent <= 100 ==> 100 * fill_height(percent) <= 8 * percent,
        percent <= other ==> fill_height(percent) <= fill_height(other),
{
}

/// The bar warns in red down from ten percent, in amber down from twenty-five, and
/// is dark above.
pub proof fn bar_warns_of_a_low_charge(percent: u8)
    ensures
        percent <= 10 ==> fill_color(percent) == seq![239u8, 68u8, 68u8, 255u8],
        10 < percent <= 25 ==> fill_color(percent) == seq![245u8, 158u8, 11u8, 255u8],
        percent > 25 ==> fill_color(percent) == seq![80u8, 80u8, 86u8, 255u8],
{
}

/// The dot has the color that is configured for the state, and where that is no
/// color the one that the state has by default.
pub proof fn dot_has_the_configured_color(colors: config::ColorModel, mode: MarkerMode)
    ensures
        ({
            let setting = match mode {
                MarkerMode::Ready => colors.ready,
                MarkerMode::Timer => colors.timer,
                MarkerMode::ProcessWait => colors.process_wait,
                MarkerMode::Error => colors.error,
                MarkerMode::Unknown => colors.unknown,
            };
            &&& color::color_of(setting) is Some ==> marker_color(colors, mode) == color::color_of(setting)->0
            &&& color::color_of(setting) is None ==> marker_color(colors, mode) == (match mode {
                MarkerMode::Ready => seq![0u8, 128u8, 0u8, 255u8],
                MarkerMode::Timer => seq![255u8, 165u8, 0u8, 255u8],
                MarkerMode::ProcessWait => seq![0u8, 0u8, 255u8, 255u8],
                MarkerMode::Error => seq![255u8, 0u8, 0u8, 255u8],
                MarkerMode::Unknown => seq![128u8, 128u8, 128u8, 255u8],
            })
        }),
{
}

/// The colors that a state has by default are those that the default configuration
/// names.
pub proof fn default_colors_are_those_named(mode: MarkerMode)
    ensures
        marker_color(config::default_colors(), mode) == marker_default(mode),
{
    color_names::standard_colors_a_to_c();
    color_names::standard_colors_e_to_k();
    color_names::standard_colors_n_to_q();
    color_names::standard_colors_r_to_z();
    reveal_strlit("transparent");
    reveal_strlit("green");
    reveal_strlit("orange");
    reveal_strlit("blue");
    reveal_strlit("red");
    reveal_strlit("gray");
    assert("transparent"@.len() == 11);
    lemma_named("green"@);
    lemma_named("orange"@);
    lemma_named("blue"@);
    lemma_named("red"@);
    lemma_named("gray"@);
}

proof fn lemma_named(name: Seq<char>)
    requires
        0 < name.len() <= 6,
        forall|i: int| 0 <= i < name.len() ==> 'a' <= #[trigger] name[i] <= 'z',
        name.len() == 6 ==> name[1] == 'r',
        name.len() != "transparent"@.len(),
    ensures
        color::color_of(name) == (match color::rgb_of(name) {
            Some(rgb) => Some(seq![rgb.0, rgb.1, rgb.2, 255u8]),
            None => None,
        }),
{
    color::small_letters_are_looked_up(name);
    assert('a' <= name[0] <= 'z' && 'a' <= name[name.len() - 1] <= 'z');
    assert forall|i: int| 0 <= i < name.len() implies (#[trigger] name[i] as u32) < 0x80 by {
        assert('a' <= name[i] <= 'z');
    }
    color::lemma_latin_bytes(name);
    color::other_texts_are_names(seq![], name, seq![]);
    assert(seq![] + name + seq![] =~= name);
}

/// The picture is fourteen rows high and as wide as its parts.
pub proof fn picture_has_its_size(percent: Option<u8>, dot: Seq<u8>)
    ensures
        ICON_HEIGHT == 14,
        icon_pixels(percent, dot).len() == icon_width(status::percent_text(percent).len()) * 14 * 4,
        forall|count: nat| count > 0 ==> #[trigger] icon_width(count) == 5 * count + 11,
{
}

/// The dot is drawn over everything else: a filled circle of five pixels across in
/// the middle of the last columns. Everything outside it is as with any other dot.
pub proof fn dot_is_drawn_last(percent: Option<u8>, dot: Seq<u8>, other: Seq<u8>, x: int, y: int, k: int)
    requires
        0 <= x < icon_width(status::percent_text(percent).len()),
        0 <= y < 14,
        0 <= k < 4,
    ensures
        ({
            let width = icon_width(status::percent_text(percent).len());
            let middle = width - 3;
            let at = (y * width + x) * 4 + k;
            &&& (x - middle) * (x - middle) + (y - 7) * (y - 7) <= 4 ==> icon_pixels(percent, dot)[at] == dot[k]
            &&& (x - middle) * (x - middle) + (y - 7) * (y - 7) > 4 ==> icon_pixels(percent, dot)[at] == icon_pixels(
                percent,
                other,
            )[at]
        }),
{
    let width = icon_width(status::percent_text(percent).len());
    let middle = width - 3;
    let p = y * width + x;
    let at = p * 4 + k;
    assert(0 <= p && p < 14 * width) by (nonlinear_arith)
        requires
            p == y * width + x,
            0 <= x < width,
            0 <= y < 14,
    ;
    assert(at / 4 == p && at % 4 == k);
    assert(width * 14 * 4 == 56 * width) by (nonlinear_arith);
    assert(14 * width * 4 == 56 * width) by (nonlinear_arith);
    drawing::lemma_circle_member(width, middle, 7, 2, x, y);
}

/// The bar stands in a frame four pixels wide and ten high, beside the digits: it
/// fills the frame from below, as high as the charge, and what is above it is
/// clear.
pub proof fn bar_fills_its_frame(percent: Option<u8>, dot: Seq<u8>, x: int, y: int, k: int)
    requires
        icon_width(status::percent_text(percent).len()) - 10 <= x < icon_width(status::percent_text(percent).len()) - 6,
        2 <= y < 12,
        0 <= k < 4,
        status::percent_text(percent).len() > 0,
    ensures
        ({
            let width = icon_width(status::percent_text(percent).len());
            let left = width - 10;
            let charge = match percent {
                Some(n) => n,
                None => 0,
            };
            let at = (y * width + x) * 4 + k;
            let inside = left < x < left + 3 && 3 <= y < 11;
            &&& !inside ==> icon_pixels(percent, dot)[at] == seq![42u8, 42u8, 46u8, 255u8][k]
            &&& inside && y >= 11 - fill_height(charge) ==> icon_pixels(percent, dot)[at] == fill_color(charge)[k]
            &&& inside && y < 11 - fill_height(charge) ==> icon_pixels(percent, dot)[at] == 0
        }),
{
    let digits = status::percent_text(percent);
    let width = icon_width(digits.len());
    let bar: int = drawing::text_width(digits.len()) as int + 2;
    let charge = match percent {
        Some(n) => n,
        None => 0,
    };
    assert(bar == width - 10);
    let p = y * width + x;
    assert(0 <= p && p < 14 * width) by (nonlinear_arith)
        requires
            p == y * width + x,
            0 <= x < width,
            0 <= y < 14,
    ;
    assert(width * 14 * 4 == 56 * width) by (nonlinear_arith);
    assert(14 * width * 4 == 56 * width) by (nonlinear_arith);
    let blank = Seq::new(width * 14 * 4, |i: int| 0u8);
    let with_digits = drawing::paint(blank, outline(), drawing::text_pixels(width, 0, 2, digits));
    let with_frame = drawing::paint(with_digits, outline(), drawing::rect_pixels(width, bar, 2, 4, 10));
    let hollow = drawing::rect_pixels(width, bar + 1, 3, 2, 8);
    let with_hollow = drawing::paint(with_frame, seq![0u8, 0, 0, 0], hollow);
    let height = fill_height(charge);
    let filled = drawing::rect_pixels(width, bar + 1, 11 - height, 2, height);
    let with_bar = drawing::paint(with_hollow, fill_color(charge), filled);
    bar_is_as_high_as_the_charge(charge, charge);
    drawing::painting_colors_its_pixels(with_digits, outline(), drawing::rect_pixels(width, bar, 2, 4, 10), p, k);
    drawing::painting_colors_its_pixels(with_frame, seq![0u8, 0, 0, 0], hollow, p, k);
    drawing::painting_colors_its_pixels(with_hollow, fill_color(charge), filled, p, k);
    drawing::painting_colors_its_pixels(with_bar, dot, drawing::circle_pixels(width, bar + 7, 7, 2), p, k);
    drawing::rectangle_has_what_lies_in_it(width, bar, 2, 4, 10, x, y);
    drawing::rectangle_has_what_lies_in_it(width, bar + 1, 3, 2, 8, x, y);
    drawing::rectangle_has_what_lies_in_it(width, bar + 1, 11 - height, 2, height, x, y);
    drawing::lemma_circle_member(width, bar + 7, 7, 2, x, y);
    assert((x - (bar + 7)) * (x - (bar + 7)) + (y - 7) * (y - 7) > 2 * 2) by (nonlinear_arith)
        requires
            x - (bar + 7) <= -4,
    ;
}

} // verus!

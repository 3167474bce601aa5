//! Drawing on a picture of four bytes a pixel: red, green, blue and opacity.
use vstd::prelude::*;

use crate::text::chars_of;

verus! {

/// A picture with some of its pixels in a color. Pixels are counted row by row;
/// a pixel that is not whole inside the picture is not drawn.
pub open spec fn paint(picture: Seq<u8>, color: Seq<u8>, pixels: Set<int>) -> Seq<u8> {
    Seq::new(
        picture.len(),
        |i: int|
            if pixels.contains(i / 4) && (i / 4) * 4 + 3 < picture.len() {
                color[i % 4]
            } else {
                picture[i]
            },
    )
}

/// The position of a pixel in a picture of a certain width.
pub open spec fn pixel_at(width: nat, x: int, y: int) -> int {
    y * width + x
}

/// A column and a row, as a pair.
pub open spec fn spot(x: int, y: int) -> bool {
    true
}

/// The pixels of a rectangle.
pub open spec fn rect_pixels(width: nat, x: int, y: int, rect_width: int, rect_height: int) -> Set<int> {
    Set::new(
        |p: int|
            exists|xx: int, yy: int| #[trigger]
                spot(xx, yy) && x <= xx < x + rect_width && y <= yy < y + rect_height && p == pixel_at(width, xx, yy),
    )
}

/// A pixel lies in a circle.
pub open spec fn in_circle(dx: int, dy: int, radius: int) -> bool {
    dx * dx + dy * dy <= radius * radius
}

/// The pixels of a filled circle.
pub open spec fn circle_pixels(width: nat, cx: int, cy: int, radius: int) -> Set<int> {
    Set::new(
        |p: int|
            exists|xx: int, yy: int| #[trigger]
                spot(xx, yy) && cx - radius <= xx <= cx + radius && cy - radius <= yy <= cy + radius && in_circle(
                    xx - cx,
                    yy - cy,
                    radius,
                ) && p == pixel_at(width, xx, yy),
    )
}

/// The rows of a character, from the top; the leftmost of four pixels is the
/// greatest bit.
pub open spec fn glyph(ch: char) -> Seq<u8> {
    match ch {
        '0' => seq![0b0110u8, 0b1001, 0b1001, 0b1001, 0b1001, 0b1001, 0b0110],
        '1' => seq![0b0010u8, 0b0110, 0b0010, 0b0010, 0b0010, 0b0010, 0b0111],
        '2' => seq![0b1110u8, 0b0001, 0b0001, 0b0110, 0b1000, 0b1000, 0b1111],
        '3' => seq![0b1110u8, 0b0001, 0b0001, 0b0110, 0b0001, 0b0001, 0b1110],
        '4' => seq![0b1001u8, 0b1001, 0b1001, 0b1111, 0b0001, 0b0001, 0b0001],
        '5' => seq![0b1111u8, 0b1000, 0b1000, 0b1110, 0b0001, 0b0001, 0b1110],
        '6' => seq![0b0111u8, 0b1000, 0b1000, 0b1110, 0b1001, 0b1001, 0b0110],
        '7' => seq![0b1111u8, 0b0001, 0b0010, 0b0010, 0b0100, 0b0100, 0b0100],
        '8' => seq![0b0110u8, 0b1001, 0b1001, 0b0110, 0b1001, 0b1001, 0b0110],
        '9' => seq![0b0110u8, 0b1001, 0b1001, 0b0111, 0b0001, 0b0001, 0b1110],
        '-' => seq![0b0000u8, 0b0000, 0b0000, 0b1110, 0b0000, 0b0000, 0b0000],
        _ => seq![0b0000u8, 0b0000, 0b0000, 0b0000, 0b0000, 0b0000, 0b0000],
    }
}

/// Whether a row of a character has a pixel in a column.
pub open spec fn is_lit(row: u8, column: int) -> bool {
    if column == 0 {
        (row / 8) % 2 == 1
    } else if column == 1 {
        (row / 4) % 2 == 1
    } else if column == 2 {
        (row / 2) % 2 == 1
    } else {
        row % 2 == 1
    }
}

/// The pixels of a character.
pub open spec fn glyph_pixels(width: nat, x: int, y: int, ch: char) -> Set<int> {
    Set::new(
        |p: int|
            exists|column: int, row: int| #[trigger]
                spot(column, row) && 0 <= column < 4 && 0 <= row < 7 && is_lit(glyph(ch)[row], column) && p == pixel_at(
                    width,
                    x + column,
                    y + row,
                ),
    )
}

/// The pixels of a line of characters, each five columns from the next.
pub open spec fn text_pixels(width: nat, x: int, y: int, text: Seq<char>) -> Set<int>
    decreases text.len(),
{
    if text.len() == 0 {
        Set::empty()
    } else {
        text_pixels(width, x, y, text.drop_last()).union(
            glyph_pixels(width, x + 5 * (text.len() - 1), y, text.last()),
        )
    }
}

/// The columns that a line of characters takes.
pub open spec fn text_width(count: nat) -> nat {
    if count == 0 {
        0
    } else {
        (count * 5 - 1) as nat
    }
}

/// The bytes up to those of a pixel can be counted.
pub open spec fn is_countable(width: nat, x: int, y: int) -> bool {
    pixel_at(width, x, y) * 4 + 3 <= usize::MAX
}

/// Painting twice in one color is painting once.
proof fn lemma_paint_union(picture: Seq<u8>, color: Seq<u8>, first: Set<int>, second: Set<int>)
    ensures
        paint(paint(picture, color, first), color, second) == paint(picture, color, first.union(second)),
{
    assert(paint(paint(picture, color, first), color, second) =~= paint(picture, color, first.union(second)));
}

proof fn lemma_paint_nothing(picture: Seq<u8>, color: Seq<u8>)
    ensures
        paint(picture, color, Set::empty()) == picture,
{
    assert(paint(picture, color, Set::empty()) =~= picture);
}

/// A row further down, or a column further right, starts no earlier.
proof fn lemma_countable_below(width: nat, x: int, y: int, far_x: int, far_y: int)
    requires
        0 <= x <= far_x,
        0 <= y <= far_y,
        is_countable(width, far_x, far_y),
    ensures
        is_countable(width, x, y),
        0 <= y * width <= pixel_at(width, x, y),
{
    assert(0 <= y * width <= far_y * width) by (nonlinear_arith)
        requires
            0 <= y <= far_y,
            0 <= width,
    ;
}

/// Sets the color of a pixel, if it is whole inside the picture.
pub fn set_pixel(rgba: &mut Vec<u8>, width: usize, x: usize, y: usize, color: [u8; 4])
    requires
        is_countable(width as nat, x as int, y as int),
    ensures
        final(rgba)@ == paint(
            old(rgba)@,
            color@,
            set![pixel_at(width as nat, x as int, y as int)],
        ),
{
    let ghost before = rgba@;
    let ghost at = pixel_at(width as nat, x as int, y as int);
    proof {
        lemma_countable_below(width as nat, x as int, y as int, x as int, y as int);
    }
    let index: usize = (y * width + x) * 4;
    if index + 3 < rgba.len() {
        rgba[index] = color[0];
        rgba[index + 1] = color[1];
        rgba[index + 2] = color[2];
        rgba[index + 3] = color[3];
    }
    assert(rgba@ =~= paint(before, color@, set![at])) by {
        assert forall|i: int| 0 <= i < before.len() implies rgba@[i] == #[trigger] paint(before, color@, set![at])[i] by {
            if i / 4 == at {
                assert(i == index + i % 4);
            }
        }
    }
}

/// Fills the part of a row from column `x` on.
fn draw_row(rgba: &mut Vec<u8>, width: usize, x: usize, y: usize, end: usize, color: [u8; 4])
    requires
        x <= end,
        x < end ==> is_countable(width as nat, end - 1, y as int),
    ensures
        final(rgba)@ == paint(
            old(rgba)@,
            color@,
            rect_pixels(width as nat, x as int, y as int, end - x, 1),
        ),
{
    let ghost before = rgba@;
    let ghost w = width as nat;
    let mut xx: usize = x;
    proof {
        lemma_paint_nothing(before, color@);
        assert(rect_pixels(w, x as int, y as int, 0, 1) =~= Set::empty());
    }
    while xx < end
        invariant
            x <= xx <= end,
            w == width as nat,
            x < end ==> is_countable(w, end - 1, y as int),
            rgba@ == paint(before, color@, rect_pixels(w, x as int, y as int, xx - x, 1)),
        decreases end - xx,
    {
        proof {
            lemma_countable_below(w, xx as int, y as int, end - 1, y as int);
        }
        set_pixel(rgba, width, xx, y, color);
        proof {
            let done = rect_pixels(w, x as int, y as int, xx - x, 1);
            let next = set![pixel_at(w, xx as int, y as int)];
            lemma_paint_union(before, color@, done, next);
            let more = rect_pixels(w, x as int, y as int, xx + 1 - x, 1);
            assert forall|p: int| more.contains(p) <==> done.union(next).contains(p) by {
                if more.contains(p) {
                    let (a, b) = choose|a: int, b: int| #[trigger]
                        spot(a, b) && x <= a < xx + 1 && y <= b < y + 1 && p == pixel_at(w, a, b);
                    if a < xx {
                        assert(spot(a, b));
                    }
                }
                if next.contains(p) {
                    assert(spot(xx as int, y as int));
                }
            }
            assert(more =~= done.union(next));
        }
        xx = xx + 1;
    }
}

/// Fills a rectangle.
pub fn draw_rect(
    rgba: &mut Vec<u8>,
    width: usize,
    x: usize,
    y: usize,
    rect_width: usize,
    rect_height: usize,
    color: [u8; 4],
)
    requires
        x + rect_width <= usize::MAX,
        y + rect_height <= usize::MAX,
        rect_width > 0 && rect_height > 0 ==> is_countable(width as nat, x + rect_width - 1, y + rect_height - 1),
    ensures
        final(rgba)@ == paint(
            old(rgba)@,
            color@,
            rect_pixels(width as nat, x as int, y as int, rect_width as int, rect_height as int),
        ),
{
    let ghost before = rgba@;
    let ghost w = width as nat;
    let end: usize = x + rect_width;
    let bottom: usize = y + rect_height;
    let mut yy: usize = y;
    proof {
        lemma_paint_nothing(before, color@);
        assert(rect_pixels(w, x as int, y as int, rect_width as int, 0) =~= Set::empty());
    }
    while yy < bottom
        invariant
            y <= yy <= bottom,
            w == width as nat,
            end == x + rect_width,
            bottom == y + rect_height,
            rect_width > 0 && rect_height > 0 ==> is_countable(w, end - 1, bottom - 1),
            rgba@ == paint(before, color@, rect_pixels(w, x as int, y as int, rect_width as int, yy - y)),
        decreases bottom - yy,
    {
        proof {
            if x < end {
                lemma_countable_below(w, end - 1, yy as int, end - 1, bottom - 1);
            }
        }
        draw_row(rgba, width, x, yy, end, color);
        proof {
            let done = rect_pixels(w, x as int, y as int, rect_width as int, yy - y);
            let next = rect_pixels(w, x as int, yy as int, rect_width as int, 1);
            lemma_paint_union(before, color@, done, next);
            let more = rect_pixels(w, x as int, y as int, rect_width as int, yy + 1 - y);
            assert forall|p: int| more.contains(p) <==> done.union(next).contains(p) by {
                if more.contains(p) {
                    let (a, b) = choose|a: int, b: int| #[trigger]
                        spot(a, b) && x <= a < x + rect_width && y <= b < yy + 1 && p == pixel_at(w, a, b);
                    assert(spot(a, b));
                }
                if done.contains(p) {
                    let (a, b) = choose|a: int, b: int| #[trigger]
                        spot(a, b) && x <= a < x + rect_width && y <= b < yy && p == pixel_at(w, a, b);
                    assert(spot(a, b));
                }
                if next.contains(p) {
                    let (a, b) = choose|a: int, b: int| #[trigger]
                        spot(a, b) && x <= a < x + rect_width && yy <= b < yy + 1 && p == pixel_at(w, a, b);
                    assert(spot(a, b));
                }
            }
            assert(more =~= done.union(next));
        }
        yy = yy + 1;
    }
}

/// The pixels of a filled circle in its rows above `bottom`, and in that row in
/// the columns left of `end`.
spec fn circle_part(width: nat, cx: int, cy: int, radius: int, bottom: int, end: int) -> Set<int> {
    Set::new(
        |p: int|
            exists|xx: int, yy: int| #[trigger]
                spot(xx, yy) && cx - radius <= xx <= cx + radius && cy - radius <= yy <= cy + radius && in_circle(
                    xx - cx,
                    yy - cy,
                    radius,
                ) && (yy < bottom || (yy == bottom && xx < end)) && p == pixel_at(width, xx, yy),
    )
}

proof fn lemma_square(d: int, radius: int)
    requires
        -radius <= d <= radius,
    ensures
        0 <= d * d <= radius * radius,
{
    assert(0 <= d * d <= radius * radius) by (nonlinear_arith)
        requires
            -radius <= d <= radius,
    ;
}

/// Fills the part of a circle that lies in one row.
fn draw_circle_row(
    rgba: &mut Vec<u8>,
    width: usize,
    cx: isize,
    cy: isize,
    radius: isize,
    yy: isize,
    color: [u8; 4],
    Ghost(before): Ghost<Seq<u8>>,
)
    requires
        0 <= radius <= cx,
        radius <= cy,
        cy - radius <= yy <= cy + radius,
        cx + radius < isize::MAX,
        2 * (radius * radius) <= isize::MAX,
        is_countable(width as nat, cx + radius, cy + radius),
        old(rgba)@ == paint(
            before,
            color@,
            circle_part(width as nat, cx as int, cy as int, radius as int, yy as int, cx - radius),
        ),
    ensures
        final(rgba)@ == paint(
            before,
            color@,
            circle_part(width as nat, cx as int, cy as int, radius as int, yy + 1, cx - radius),
        ),
{
    let ghost w = width as nat;
    let ghost (x0, y0, r) = (cx as int, cy as int, radius as int);
    let end: isize = cx + radius;
    let mut xx: isize = cx - radius;
    while xx <= end
        invariant
            cx - radius <= xx <= end + 1,
            end == cx + radius,
            w == width as nat,
            x0 == cx as int,
            y0 == cy as int,
            r == radius as int,
            0 <= radius <= cx,
            radius <= cy,
            cy - radius <= yy <= cy + radius,
            cx + radius < isize::MAX,
            2 * (radius * radius) <= isize::MAX,
            is_countable(w, cx + radius, cy + radius),
            rgba@ == paint(before, color@, circle_part(w, x0, y0, r, yy as int, xx as int)),
        decreases end + 1 - xx,
    {
        let dx: isize = xx - cx;
        let dy: isize = yy - cy;
        proof {
            lemma_square(dx as int, r);
            lemma_square(dy as int, r);
            lemma_square(r, r);
        }
        let ghost done = circle_part(w, x0, y0, r, yy as int, xx as int);
        let ghost more = circle_part(w, x0, y0, r, yy as int, xx + 1);
        let ghost next = set![pixel_at(w, xx as int, yy as int)];
        proof {
            assert forall|p: int| more.contains(p) implies done.contains(p) || (p == pixel_at(
                w,
                xx as int,
                yy as int,
            ) && in_circle(dx as int, dy as int, r)) by {
                let (a, b) = choose|a: int, b: int| #[trigger]
                    spot(a, b) && x0 - r <= a <= x0 + r && y0 - r <= b <= y0 + r && in_circle(a - x0, b - y0, r) && (b
                        < yy || (b == yy && a < xx + 1)) && p == pixel_at(w, a, b);
                assert(spot(a, b));
            }
            assert forall|p: int| done.contains(p) implies more.contains(p) by {
                let (a, b) = choose|a: int, b: int| #[trigger]
                    spot(a, b) && x0 - r <= a <= x0 + r && y0 - r <= b <= y0 + r && in_circle(a - x0, b - y0, r) && (b
                        < yy || (b == yy && a < xx)) && p == pixel_at(w, a, b);
                assert(spot(a, b));
            }
        }
        if dx * dx + dy * dy <= radius * radius {
            proof {
                lemma_countable_below(w, xx as int, yy as int, cx + radius, cy + radius);
                assert(spot(xx as int, yy as int));
            }
            set_pixel(rgba, width, xx as usize, yy as usize, color);
            proof {
                lemma_paint_union(before, color@, done, next);
                assert(more =~= done.union(next));
            }
        } else {
            assert(more =~= done);
        }
        xx = xx + 1;
    }
    proof {
        let done = circle_part(w, x0, y0, r, yy as int, x0 + r + 1);
        let more = circle_part(w, x0, y0, r, yy + 1, x0 - r);
        assert forall|p: int| done.contains(p) <==> more.contains(p) by {
            if done.contains(p) {
                let (a, b) = choose|a: int, b: int| #[trigger]
                    spot(a, b) && x0 - r <= a <= x0 + r && y0 - r <= b <= y0 + r && in_circle(a - x0, b - y0, r) && (b
                        < yy || (b == yy && a < x0 + r + 1)) && p == pixel_at(w, a, b);
                assert(spot(a, b));
            }
            if more.contains(p) {
                let (a, b) = choose|a: int, b: int| #[trigger]
                    spot(a, b) && x0 - r <= a <= x0 + r && y0 - r <= b <= y0 + r && in_circle(a - x0, b - y0, r) && (b
                        < yy + 1 || (b == yy + 1 && a < x0 - r)) && p == pixel_at(w, a, b);
                assert(spot(a, b));
            }
        }
        assert(done =~= more);
    }
}

/// Fills a circle. A negative radius draws nothing.
pub fn draw_circle(rgba: &mut Vec<u8>, width: usize, cx: isize, cy: isize, radius: isize, color: [u8; 4])
    requires
        radius >= 0 ==> {
            &&& radius <= cx
            &&& radius <= cy
            &&& cx + radius < isize::MAX
            &&& cy + radius < isize::MAX
            &&& 2 * (radius * radius) <= isize::MAX
            &&& is_countable(width as nat, cx + radius, cy + radius)
        },
    ensures
        final(rgba)@ == paint(
            old(rgba)@,
            color@,
            circle_pixels(width as nat, cx as int, cy as int, radius as int),
        ),
{
    let ghost before = rgba@;
    let ghost w = width as nat;
    let ghost (x0, y0, r) = (cx as int, cy as int, radius as int);
    proof {
        lemma_paint_nothing(before, color@);
    }
    if radius < 0 {
        assert(circle_pixels(w, x0, y0, r) =~= Set::empty());
        return;
    }
    let bottom: isize = cy + radius;
    let mut yy: isize = cy - radius;
    assert(circle_part(w, x0, y0, r, y0 - r, x0 - r) =~= Set::empty());
    while yy <= bottom
        invariant
            cy - radius <= yy <= bottom + 1,
            bottom == cy + radius,
            w == width as nat,
            x0 == cx as int,
            y0 == cy as int,
            r == radius as int,
            0 <= radius <= cx,
            radius <= cy,
            cx + radius < isize::MAX,
            cy + radius < isize::MAX,
            2 * (radius * radius) <= isize::MAX,
            is_countable(w, cx + radius, cy + radius),
            rgba@ == paint(before, color@, circle_part(w, x0, y0, r, yy as int, x0 - r)),
        decreases bottom + 1 - yy,
    {
        draw_circle_row(rgba, width, cx, cy, radius, yy, color, Ghost(before));
        yy = yy + 1;
    }
    proof {
        let all = circle_pixels(w, x0, y0, r);
        let part = circle_part(w, x0, y0, r, y0 + r + 1, x0 - r);
        assert forall|p: int| all.contains(p) <==> part.contains(p) by {
            if all.contains(p) {
                let (a, b) = choose|a: int, b: int| #[trigger]
                    spot(a, b) && x0 - r <= a <= x0 + r && y0 - r <= b <= y0 + r && in_circle(a - x0, b - y0, r) && p
                        == pixel_at(w, a, b);
                assert(spot(a, b));
            }
            if part.contains(p) {
                let (a, b) = choose|a: int, b: int| #[trigger]
                    spot(a, b) && x0 - r <= a <= x0 + r && y0 - r <= b <= y0 + r && in_circle(a - x0, b - y0, r) && (b
                        < y0 + r + 1 || (b == y0 + r + 1 && a < x0 - r)) && p == pixel_at(w, a, b);
                assert(spot(a, b));
            }
        }
        assert(all =~= part);
    }
}

/// The rows of a character.
fn glyph_of(ch: char) -> (rows: [u8; 7])
    ensures
        rows@ == glyph(ch),
{
    let rows: [u8; 7] = match ch {
        '0' => [0b0110, 0b1001, 0b1001, 0b1001, 0b1001, 0b1001, 0b0110],
        '1' => [0b0010, 0b0110, 0b0010, 0b0010, 0b0010, 0b0010, 0b0111],
        '2' => [0b1110, 0b0001, 0b0001, 0b0110, 0b1000, 0b1000, 0b1111],
        '3' => [0b1110, 0b0001, 0b0001, 0b0110, 0b0001, 0b0001, 0b1110],
        '4' => [0b1001, 0b1001, 0b1001, 0b1111, 0b0001, 0b0001, 0b0001],
        '5' => [0b1111, 0b1000, 0b1000, 0b1110, 0b0001, 0b0001, 0b1110],
        '6' => [0b0111, 0b1000, 0b1000, 0b1110, 0b1001, 0b1001, 0b0110],
        '7' => [0b1111, 0b0001, 0b0010, 0b0010, 0b0100, 0b0100, 0b0100],
        '8' => [0b0110, 0b1001, 0b1001, 0b0110, 0b1001, 0b1001, 0b0110],
        '9' => [0b0110, 0b1001, 0b1001, 0b0111, 0b0001, 0b0001, 0b1110],
        '-' => [0b0000, 0b0000, 0b0000, 0b1110, 0b0000, 0b0000, 0b0000],
        _ => [0b0000, 0b0000, 0b0000, 0b0000, 0b0000, 0b0000, 0b0000],
    };
    assert(rows@ =~= glyph(ch));
    rows
}

/// Whether a row of a character has a pixel in a column.
fn is_lit_at(row: u8, column: usize) -> (r: bool)
    requires
        column < 4,
    ensures
        r == is_lit(row, column as int),
{
    if column == 0 {
        (row / 8) % 2 == 1
    } else if column == 1 {
        (row / 4) % 2 == 1
    } else if column == 2 {
        (row / 2) % 2 == 1
    } else {
        row % 2 == 1
    }
}

/// The pixels of a character in its rows above `bottom`, and in that row in the
/// columns left of `end`.
spec fn glyph_part(width: nat, x: int, y: int, ch: char, bottom: int, end: int) -> Set<int> {
    Set::new(
        |p: int|
            exists|column: int, row: int| #[trigger]
                spot(column, row) && 0 <= column < 4 && 0 <= row < 7 && is_lit(glyph(ch)[row], column) && (row < bottom
                    || (row == bottom && column < end)) && p == pixel_at(width, x + column, y + row),
    )
}

/// Draws a character of four columns and seven rows.
pub fn draw_compact_glyph(rgba: &mut Vec<u8>, width: usize, x: usize, y: usize, ch: char, color: [u8; 4])
    requires
        x + 3 <= usize::MAX,
        y + 6 <= usize::MAX,
        is_countable(width as nat, x + 3, y + 6),
    ensures
        final(rgba)@ == paint(
            old(rgba)@,
            color@,
            glyph_pixels(width as nat, x as int, y as int, ch),
        ),
{
    let ghost before = rgba@;
    let ghost w = width as nat;
    let ghost (x0, y0) = (x as int, y as int);
    let rows = glyph_of(ch);
    let mut row: usize = 0;
    proof {
        lemma_paint_nothing(before, color@);
        assert(glyph_part(w, x0, y0, ch, 0, 0) =~= Set::empty());
    }
    while row < 7
        invariant
            row <= 7,
            w == width as nat,
            x0 == x as int,
            y0 == y as int,
            rows@ == glyph(ch),
            rows@.len() == 7,
            x + 3 <= usize::MAX,
            y + 6 <= usize::MAX,
            is_countable(w, x + 3, y + 6),
            rgba@ == paint(before, color@, glyph_part(w, x0, y0, ch, row as int, 0)),
        decreases 7 - row,
    {
        let mut column: usize = 0;
        while column < 4
            invariant
                row < 7,
                column <= 4,
                w == width as nat,
                x0 == x as int,
                y0 == y as int,
                rows@ == glyph(ch),
                rows@.len() == 7,
                x + 3 <= usize::MAX,
                y + 6 <= usize::MAX,
                is_countable(w, x + 3, y + 6),
                rgba@ == paint(before, color@, glyph_part(w, x0, y0, ch, row as int, column as int)),
            decreases 4 - column,
        {
            let ghost done = glyph_part(w, x0, y0, ch, row as int, column as int);
            let ghost more = glyph_part(w, x0, y0, ch, row as int, column + 1);
            let ghost next = set![pixel_at(w, x + column, y + row)];
            proof {
                assert forall|p: int| more.contains(p) implies done.contains(p) || (next.contains(p) && is_lit(
                    glyph(ch)[row as int],
                    column as int,
                )) by {
                    let (a, b) = choose|a: int, b: int| #[trigger]
                        spot(a, b) && 0 <= a < 4 && 0 <= b < 7 && is_lit(glyph(ch)[b], a) && (b < row || (b == row && a
                            < column + 1)) && p == pixel_at(w, x0 + a, y0 + b);
                    assert(spot(a, b));
                }
                assert forall|p: int| done.contains(p) implies more.contains(p) by {
                    let (a, b) = choose|a: int, b: int| #[trigger]
                        spot(a, b) && 0 <= a < 4 && 0 <= b < 7 && is_lit(glyph(ch)[b], a) && (b < row || (b == row && a
                            < column)) && p == pixel_at(w, x0 + a, y0 + b);
                    assert(spot(a, b));
                }
            }
            if is_lit_at(rows[row], column) {
                proof {
                    lemma_countable_below(w, x + column, y + row, x + 3, y + 6);
                    assert(spot(column as int, row as int));
                }
                set_pixel(rgba, width, x + column, y + row, color);
                proof {
                    lemma_paint_union(before, color@, done, next);
                    assert(more =~= done.union(next));
                }
            } else {
                assert(more =~= done);
            }
            column = column + 1;
        }
        proof {
            let done = glyph_part(w, x0, y0, ch, row as int, 4);
            let more = glyph_part(w, x0, y0, ch, row + 1, 0);
            assert forall|p: int| done.contains(p) <==> more.contains(p) by {
                if done.contains(p) {
                    let (a, b) = choose|a: int, b: int| #[trigger]
                        spot(a, b) && 0 <= a < 4 && 0 <= b < 7 && is_lit(glyph(ch)[b], a) && (b < row || (b == row && a
                            < 4)) && p == pixel_at(w, x0 + a, y0 + b);
                    assert(spot(a, b));
                }
                if more.contains(p) {
                    let (a, b) = choose|a: int, b: int| #[trigger]
                        spot(a, b) && 0 <= a < 4 && 0 <= b < 7 && is_lit(glyph(ch)[b], a) && (b < row + 1 || (b == row
                            + 1 && a < 0)) && p == pixel_at(w, x0 + a, y0 + b);
                    assert(spot(a, b));
                }
            }
            assert(done =~= more);
        }
        row = row + 1;
    }
    proof {
        let all = glyph_pixels(w, x0, y0, ch);
        let part = glyph_part(w, x0, y0, ch, 7, 0);
        assert forall|p: int| all.contains(p) <==> part.contains(p) by {
            if all.contains(p) {
                let (a, b) = choose|a: int, b: int| #[trigger]
                    spot(a, b) && 0 <= a < 4 && 0 <= b < 7 && is_lit(glyph(ch)[b], a) && p == pixel_at(w, x0 + a, y0
                        + b);
                assert(spot(a, b));
            }
            if part.contains(p) {
                let (a, b) = choose|a: int, b: int| #[trigger]
                    spot(a, b) && 0 <= a < 4 && 0 <= b < 7 && is_lit(glyph(ch)[b], a) && (b < 7 || (b == 7 && a < 0))
                        && p == pixel_at(w, x0 + a, y0 + b);
                assert(spot(a, b));
            }
        }
        assert(all =~= part);
    }
}

/// Draws a line of characters.
pub fn draw_compact_text(rgba: &mut Vec<u8>, width: usize, x: usize, y: usize, text: &str, color: [u8; 4])
    requires
        x + 5 * text@.len() <= usize::MAX,
        y + 6 <= usize::MAX,
        text@.len() > 0 ==> is_countable(width as nat, x + 5 * text@.len() - 2, y + 6),
    ensures
        final(rgba)@ == paint(
            old(rgba)@,
            color@,
            text_pixels(width as nat, x as int, y as int, text@),
        ),
{
    let ghost before = rgba@;
    let ghost w = width as nat;
    let v = chars_of(text);
    let mut cursor: usize = x;
    let mut i: usize = 0;
    proof {
        lemma_paint_nothing(before, color@);
        assert(v@.take(0).len() == 0);
    }
    while i < v.len()
        invariant
            i <= v@.len(),
            v@ == text@,
            w == width as nat,
            cursor == x + 5 * i,
            x + 5 * v@.len() <= usize::MAX,
            y + 6 <= usize::MAX,
            v@.len() > 0 ==> is_countable(w, x + 5 * v@.len() - 2, y + 6),
            rgba@ == paint(before, color@, text_pixels(w, x as int, y as int, v@.take(i as int))),
        decreases v@.len() - i,
    {
        proof {
            lemma_countable_below(w, cursor + 3, y + 6, x + 5 * v@.len() - 2, y + 6);
        }
        draw_compact_glyph(rgba, width, cursor, y, v[i], color);
        proof {
            let done = text_pixels(w, x as int, y as int, v@.take(i as int));
            let next = glyph_pixels(w, cursor as int, y as int, v@[i as int]);
            assert(v@.take(i + 1).drop_last() =~= v@.take(i as int));
            lemma_paint_union(before, color@, done, next);
        }
        cursor = cursor + 5;
        i = i + 1;
    }
    assert(v@.take(i as int) =~= text@);
}

/// The columns that a text takes.
pub fn compact_text_width(text: &str) -> (r: usize)
    requires
        5 * text@.len() <= usize::MAX,
    ensures
        r == text_width(text@.len()),
{
    let v = chars_of(text);
    let count: usize = v.len();
    if count == 0 {
        0
    } else {
        count * 4 + (count - 1)
    }
}

/// Painting colors the bytes of the pixels that are painted, as far as they are
/// whole inside the picture, and leaves the others.
pub proof fn painting_colors_its_pixels(picture: Seq<u8>, color: Seq<u8>, pixels: Set<int>, p: int, k: int)
    requires
        0 <= k < 4,
        0 <= p,
        p * 4 + k < picture.len(),
    ensures
        paint(picture, color, pixels).len() == picture.len(),
        pixels.contains(p) && p * 4 + 3 < picture.len() ==> paint(picture, color, pixels)[p * 4 + k] == color[k],
        !pixels.contains(p) ==> paint(picture, color, pixels)[p * 4 + k] == picture[p * 4 + k],
{
    assert((p * 4 + k) / 4 == p && (p * 4 + k) % 4 == k);
}

/// Each pixel has one column and one row.
proof fn lemma_one_place(width: nat, x: int, y: int, xx: int, yy: int)
    requires
        0 <= x < width,
        0 <= xx < width,
        y * width + x == yy * width + xx,
    ensures
        x == xx && y == yy,
{
    assert(y == yy) by (nonlinear_arith)
        requires
            0 <= x < width,
            0 <= xx < width,
            y * width + x == yy * width + xx,
    ;
}

/// A rectangle has the pixels between its edges, and no others.
pub proof fn rectangle_has_what_lies_in_it(
    width: nat,
    left: int,
    top: int,
    columns: int,
    rows: int,
    x: int,
    y: int,
)
    requires
        0 <= x < width,
        0 <= left,
        left + columns <= width,
    ensures
        rect_pixels(width, left, top, columns, rows).contains(y * width + x) <==> left <= x < left + columns && top <= y
            < top + rows,
{
    let set = rect_pixels(width, left, top, columns, rows);
    if left <= x < left + columns && top <= y < top + rows {
        assert(spot(x, y));
    }
    if set.contains(y * width + x) {
        let (xx, yy) = choose|xx: int, yy: int| #[trigger]
            spot(xx, yy) && left <= xx < left + columns && top <= yy < top + rows && y * width + x == pixel_at(
                width,
                xx,
                yy,
            );
        lemma_one_place(width, x, y, xx, yy);
    }
}

/// A circle has the pixels that are no farther from its middle than its radius,
/// and no others.
pub proof fn lemma_circle_member(width: nat, cx: int, cy: int, radius: int, x: int, y: int)
    requires
        0 <= x < width,
        0 <= radius,
        0 <= cx - radius,
        cx + radius < width,
    ensures
        circle_pixels(width, cx, cy, radius).contains(y * width + x) <==> (x - cx) * (x - cx) + (y - cy) * (y - cy)
            <= radius * radius,
{
    let set = circle_pixels(width, cx, cy, radius);
    if (x - cx) * (x - cx) + (y - cy) * (y - cy) <= radius * radius {
        assert(cx - radius <= x <= cx + radius && cy - radius <= y <= cy + radius) by (nonlinear_arith)
            requires
                (x - cx) * (x - cx) + (y - cy) * (y - cy) <= radius * radius,
                0 <= radius,
        ;
        assert(spot(x, y));
        assert(in_circle(x - cx, y - cy, radius));
    }
    if set.contains(y * width + x) {
        let (xx, yy) = choose|xx: int, yy: int| #[trigger]
            spot(xx, yy) && cx - radius <= xx <= cx + radius && cy - radius <= yy <= cy + radius && in_circle(
                xx - cx,
                yy - cy,
                radius,
            ) && y * width + x == pixel_at(width, xx, yy);
        lemma_one_place(width, x, y, xx, yy);
    }
}

/// A line of characters takes five columns for each, without the last; a further
/// character is drawn after the others and leaves them.
pub proof fn characters_stand_side_by_side(width: nat, x: int, y: int, text: Seq<char>, c: char, p: int)
    ensures
        text_width(0) == 0,
        text.len() > 0 ==> text_width(text.len()) + 1 == 5 * text.len(),
        text_pixels(width, x, y, text.push(c)).contains(p) <==> text_pixels(width, x, y, text).contains(p)
            || glyph_pixels(width, x + 5 * text.len(), y, c).contains(p),
        !text_pixels(width, x, y, Seq::<char>::empty()).contains(p),
{
    assert(text.push(c).drop_last() =~= text);
}

/// The four pixels of a row are the four lowest bits of its number, the greatest
/// first.
pub proof fn rows_are_bits(row: u8)
    requires
        row < 16,
    ensures
        row == (if is_lit(row, 0) {
            8int
        } else {
            0
        }) + (if is_lit(row, 1) {
            4int
        } else {
            0
        }) + (if is_lit(row, 2) {
            2int
        } else {
            0
        }) + (if is_lit(row, 3) {
            1int
        } else {
            0
        }),
{
}

/// The digits and the dash have their shapes, row by row.
pub proof fn digits_have_their_shapes()
    ensures
        glyph('0') == seq![6u8, 9u8, 9u8, 9u8, 9u8, 9u8, 6u8],
        glyph('1') == seq![2u8, 6u8, 2u8, 2u8, 2u8, 2u8, 7u8],
        glyph('2') == seq![14u8, 1u8, 1u8, 6u8, 8u8, 8u8, 15u8],
        glyph('3') == seq![14u8, 1u8, 1u8, 6u8, 1u8, 1u8, 14u8],
        glyph('4') == seq![9u8, 9u8, 9u8, 15u8, 1u8, 1u8, 1u8],
        glyph('5') == seq![15u8, 8u8, 8u8, 14u8, 1u8, 1u8, 14u8],
        glyph('6') == seq![7u8, 8u8, 8u8, 14u8, 9u8, 9u8, 6u8],
        glyph('7') == seq![15u8, 1u8, 2u8, 2u8, 4u8, 4u8, 4u8],
        glyph('8') == seq![6u8, 9u8, 9u8, 6u8, 9u8, 9u8, 6u8],
        glyph('9') == seq![6u8, 9u8, 9u8, 7u8, 1u8, 1u8, 14u8],
        glyph('-') == seq![0u8, 0u8, 0u8, 14u8, 0u8, 0u8, 0u8],
{
}

} // verus!

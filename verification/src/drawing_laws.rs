//! What holds of the pixels of a patched texture and of the shapes of the icon.

use vstd::prelude::*;

use crate::icon::{
    above, average, crosses, layout_of, mark_at, middle, odd, part_of, pixels_of,
    rounded, sample_at, sum_of, Colour, Corner, Ink, Layout, Shown,
};
use crate::shot::{changed, ChangeView, HeldView};

verus! {

/// A patch that lies within the width of a texture puts each of its pixels where it
/// belongs: so many rows down and so many columns across from where the patch begins.
pub proof fn a_patch_puts_each_pixel_where_it_belongs(
    texture: HeldView,
    patch: HeldView,
    x: int,
    y: int,
    row: int,
    column: int,
)
    requires
        0 <= x,
        0 <= y,
        x + patch.width <= texture.width,
        patch.pixels.len() == patch.width * patch.height,
        (y + patch.height) * texture.width <= texture.pixels.len(),
        0 <= row < patch.height,
        0 <= column < patch.width,
    ensures
        texture.patched(patch, x, y, patch.pixels.len()).len() == texture.pixels.len(),
        texture.patched(patch, x, y, patch.pixels.len())[(y + row) * texture.width + x + column]
            == patch.pixels[row * patch.width + column],
{
    let pixel = row * patch.width + column;
    lemma_pixel(row, column, patch.width as int, patch.height as int);
    assert(0 <= (y + row) * texture.width + x + column < texture.pixels.len())
        by (nonlinear_arith)
        requires
            0 <= x,
            0 <= y,
            0 <= row < patch.height,
            0 <= column < patch.width,
            x + patch.width <= texture.width,
            (y + patch.height) * texture.width <= texture.pixels.len(),
    ;
    assert(texture.place(patch, x, y, pixel) == (y + row) * texture.width + x + column);
    lemma_patched(texture, patch, x, y, patch.pixels.len(), pixel);
}

proof fn lemma_pixel(row: int, column: int, width: int, height: int)
    requires
        0 <= row < height,
        0 <= column < width,
    ensures
        0 <= row * width + column < width * height,
        (row * width + column) / width == row,
        (row * width + column) % width == column,
{
    assert(0 <= row * width + column < width * height) by (nonlinear_arith)
        requires
            0 <= row < height,
            0 <= column < width,
    ;
    vstd::arithmetic::div_mod::lemma_fundamental_div_mod_converse(
        row * width + column,
        width,
        row,
        column,
    );
}

proof fn lemma_patched(
    texture: HeldView,
    patch: HeldView,
    x: int,
    y: int,
    pixels: nat,
    pixel: int,
)
    requires
        0 <= x,
        0 <= y,
        x + patch.width <= texture.width,
        0 < patch.width,
        0 <= pixel < pixels <= patch.pixels.len(),
        0 <= texture.place(patch, x, y, pixel) < texture.pixels.len(),
    ensures
        texture.patched(patch, x, y, pixels).len() == texture.pixels.len(),
        texture.patched(patch, x, y, pixels)[texture.place(patch, x, y, pixel)]
            == patch.pixels[pixel],
    decreases pixels,
{
    let last = pixels - 1;
    lemma_patched_len(texture, patch, x, y, last as nat);
    if pixel < last {
        lemma_patched(texture, patch, x, y, last as nat, pixel);
        lemma_places_differ(texture, patch, x, y, pixel, last);
    }
}

proof fn lemma_patched_len(texture: HeldView, patch: HeldView, x: int, y: int, pixels: nat)
    ensures
        texture.patched(patch, x, y, pixels).len() == texture.pixels.len(),
    decreases pixels,
{
    if pixels > 0 {
        lemma_patched_len(texture, patch, x, y, (pixels - 1) as nat);
    }
}

proof fn lemma_places_differ(
    texture: HeldView,
    patch: HeldView,
    x: int,
    y: int,
    one: int,
    other: int,
)
    requires
        0 <= x,
        0 <= y,
        x + patch.width <= texture.width,
        0 < patch.width,
        0 <= one < other,
    ensures
        texture.place(patch, x, y, one) < texture.place(patch, x, y, other),
{
    let width = patch.width as int;
    let across = texture.width as int;
    let (row, column) = (one / width, one % width);
    let (other_row, other_column) = (other / width, other % width);
    vstd::arithmetic::div_mod::lemma_fundamental_div_mod(one, width);
    vstd::arithmetic::div_mod::lemma_fundamental_div_mod(other, width);
    assert(0 <= column < width && 0 <= other_column < width) by (nonlinear_arith)
        requires
            0 < width,
            column == one % width,
            other_column == other % width,
    ;
    assert((y + row) * across + x + column < (y + other_row) * across + x + other_column)
        by (nonlinear_arith)
        requires
            one == width * row + column,
            other == width * other_row + other_column,
            0 <= one < other,
            0 <= column < width,
            0 <= other_column < width,
            0 < width <= across,
    ;
}

/// A patch touches no pixel of a texture that none of its own belongs at.
pub proof fn a_patch_touches_nothing_else(
    texture: HeldView,
    patch: HeldView,
    x: int,
    y: int,
    pixels: nat,
    at: int,
)
    requires
        0 <= at < texture.pixels.len(),
        forall|pixel: int|
            0 <= pixel < pixels ==> #[trigger] texture.place(patch, x, y, pixel) != at,
    ensures
        texture.patched(patch, x, y, pixels)[at] == texture.pixels[at],
        texture.patched(patch, x, y, pixels).len() == texture.pixels.len(),
    decreases pixels,
{
    if pixels > 0 {
        let last = pixels - 1;
        a_patch_touches_nothing_else(texture, patch, x, y, last as nat, at);
        assert(texture.place(patch, x, y, last) != at);
    }
}

/// A whole picture takes the place of the texture it names, a patch goes into that
/// texture and keeps its size, a patch for one that is not held is nothing, and no other
/// texture is touched.
pub proof fn a_change_is_made_to_the_texture_it_names(
    held: Map<u128, HeldView>,
    change: ChangeView,
    other: u128,
)
    ensures
        ({
            let after = changed(held, change);
            &&& change.at is None ==> after.contains_key(change.id) && after[change.id]
                == change.image
            &&& change.at is Some && !held.contains_key(change.id) ==> after == held
            &&& change.at is Some && held.contains_key(change.id) ==> {
                &&& after.contains_key(change.id)
                &&& after[change.id].width == held[change.id].width
                &&& after[change.id].height == held[change.id].height
            }
            &&& other != change.id ==> (after.contains_key(other) <==> held.contains_key(other))
            &&& other != change.id && held.contains_key(other) ==> after[other] == held[other]
        }),
{
}

/// A rounded square is the same across as down and from either side, holds the middle of
/// its sides, and nothing beyond them.
pub proof fn a_rounded_square_is_the_same_from_every_side(x: int, y: int, size: int, round: int)
    requires
        0 <= round,
        2 * round <= size,
    ensures
        rounded(x, y, size, round) == rounded(y, x, size, round),
        rounded(x, y, size, round) == rounded(size - x, y, size, round),
        rounded(x, y, size, round) == rounded(x, size - y, size, round),
        x < 0 || x > size || y < 0 || y > size ==> !rounded(x, y, size, round),
        round <= x <= size - round && 0 <= y <= size ==> rounded(x, y, size, round),
{
    if round <= x <= size - round && 0 <= y <= size {
        let down = above(round - y, y - (size - round));
        assert(0 <= down <= round);
        assert(0 * 0 + down * down <= round * round) by (nonlinear_arith)
            requires
                0 <= down <= round,
        ;
    }
}

/// A side is crossed from either of its ends alike, and only between their heights.
pub proof fn a_side_is_crossed_from_either_end(one: Corner, other: Corner, x: int, y: int)
    ensures
        crosses(one, other, x, y) == crosses(other, one, x, y),
        one.y > y && other.y > y ==> !crosses(one, other, x, y),
        one.y <= y && other.y <= y ==> !crosses(one, other, x, y),
        one.y <= y < other.y && x < one.x && x < other.x ==> crosses(one, other, x, y),
        one.y <= y < other.y && x > one.x && x > other.x ==> !crosses(one, other, x, y),
{
    let (across, down) = (other.x - one.x, other.y - one.y);
    let (east, south) = (x - one.x, y - one.y);
    assert((east - across) * (-down) - (-across) * (south - down) == -(east * down - across
        * south)) by (nonlinear_arith);
    assert(x - other.x == east - across && y - other.y == south - down);
    assert(one.y - other.y == -down && one.x - other.x == -across);
    if one.y <= y < other.y && x < one.x && x < other.x {
        assert((x - one.x) * (other.y - one.y) < (other.x - one.x) * (y - one.y))
            by (nonlinear_arith)
            requires
                one.y <= y < other.y,
                x < one.x,
                x < other.x,
        ;
    }
    if one.y <= y < other.y && x > one.x && x > other.x {
        assert((x - one.x) * (other.y - one.y) >= (other.x - one.x) * (y - one.y))
            by (nonlinear_arith)
            requires
                one.y <= y < other.y,
                x > one.x,
                x > other.x,
        ;
    }
}

/// The sun and the hills are drawn in the picture in front, the one behind shows only
/// outside it and as an outline, and what is in neither is left clear.
pub proof fn the_picture_in_front_hides_the_one_behind(layout: Layout, x: int, y: int)
    ensures
        ({
            let front = rounded(x, y, layout.frame as int, layout.round as int);
            let behind = rounded(
                x - layout.step,
                y - layout.step,
                layout.frame as int,
                layout.round as int,
            );
            let drawn = mark_at(layout, x, y);
            &&& front <==> drawn == Some(Ink::Picture) || drawn == Some(Ink::Inside)
            &&& front && (x - layout.sun_at) * (x - layout.sun_at) + (y - layout.sun_at) * (y
                - layout.sun_at) <= layout.sun * layout.sun ==> drawn == Some(Ink::Inside)
            &&& front && odd(layout.hills@, 5, x, y) ==> drawn == Some(Ink::Inside)
            &&& drawn == Some(Ink::Behind) ==> !front && behind
            &&& !front && !behind ==> drawn is None
        }),
{
}

/// A pixel is the average of its samples: clear where all of them are, wholly of an ink
/// where all of them are that, and never brighter than full.
pub proof fn a_pixel_is_the_average_of_its_samples(
    layout: Layout,
    x: int,
    y: int,
    part: int,
    ink: Option<Ink>,
)
    requires
        0 < layout.over,
        0 <= part < 4,
    ensures
        0 <= average(layout, x, y, part) <= 255,
        (forall|number: int|
            0 <= number < layout.over * layout.over ==> #[trigger] sample_at(layout, x, y, number)
                == ink) ==> average(layout, x, y, part) == part_of(ink, part),
        part_of(None, part) == 0,
        part_of(Some(Ink::Inside), part) == 255,
        part == 3 && ink is Some ==> part_of(ink, part) == 255,
{
    let samples = layout.over * layout.over;
    assert(samples > 0) by (nonlinear_arith)
        requires
            0 < layout.over,
            samples == layout.over * layout.over,
    ;
    lemma_sum(layout, x, y, part, samples as nat, ink);
    let sum = sum_of(layout, x, y, part, samples as nat);
    assert(0 <= sum / samples <= 255) by (nonlinear_arith)
        requires
            0 <= sum <= 255 * samples,
            0 < samples,
    ;
    if forall|number: int|
        0 <= number < layout.over * layout.over ==> #[trigger] sample_at(layout, x, y, number)
            == ink {
        let each = part_of(ink, part);
        assert(sum == each * samples);
        assert((each * samples) / samples == each) by (nonlinear_arith)
            requires
                0 < samples,
        ;
    }
}

proof fn lemma_sum(
    layout: Layout,
    x: int,
    y: int,
    part: int,
    samples: nat,
    ink: Option<Ink>,
)
    requires
        0 <= part < 4,
    ensures
        0 <= sum_of(layout, x, y, part, samples) <= 255 * samples,
        (forall|number: int|
            0 <= number < samples ==> #[trigger] sample_at(layout, x, y, number) == ink) ==> sum_of(
            layout,
            x,
            y,
            part,
            samples,
        ) == part_of(ink, part) * samples,
    decreases samples,
{
    if samples > 0 {
        let rest = (samples - 1) as nat;
        lemma_sum(layout, x, y, part, rest, ink);
        if forall|number: int|
            0 <= number < samples ==> #[trigger] sample_at(layout, x, y, number) == ink {
            assert(sample_at(layout, x, y, samples - 1) == ink);
            let each = part_of(ink, part);
            assert(each * rest + each == each * samples) by (nonlinear_arith)
                requires
                    samples == rest + 1,
            ;
        }
    }
}

/// The parts of a pixel stand beside each other, the pixels of a row behind each other,
/// and the rows one below the other.
pub proof fn pixels_stand_row_by_row(layout: Layout, x: int, y: int, part: int)
    requires
        0 <= x < layout.side,
        0 <= y < layout.side,
        0 <= part < 4,
        0 < layout.over,
    ensures
        ({
            let at = 4 * (y * layout.side + x) + part;
            &&& 0 <= at < pixels_of(layout).len()
            &&& pixels_of(layout).len() == 4 * (layout.side * layout.side)
            &&& pixels_of(layout)[at] == average(layout, x, y, part)
        }),
{
    let side = layout.side as int;
    let pixel = y * side + x;
    lemma_pixel(y, x, side, side);
    let at = 4 * pixel + part;
    assert(4 * side * side == 4 * (side * side)) by (nonlinear_arith);
    assert(at / 4 == pixel && at % 4 == part);
    a_pixel_is_the_average_of_its_samples(layout, x, y, part, None);
}

/// The samples of a pixel are a square of them, row by row, each taken in the middle of
/// its own part of the pixel: one sample further is one part further, and the first lies
/// half a part in from the edge.
pub proof fn samples_are_taken_in_the_middle(
    layout: Layout,
    x: int,
    y: int,
    row: int,
    column: int,
    sample: int,
)
    requires
        0 <= row < layout.over,
        0 <= column < layout.over,
    ensures
        sample_at(layout, x, y, row * layout.over + column) == mark_at(
            layout,
            middle(layout, x * layout.over + column),
            middle(layout, y * layout.over + row),
        ),
        middle(layout, 0) == layout.half - layout.inset,
        middle(layout, sample + 1) == middle(layout, sample) + 2 * layout.half,
{
    lemma_pixel(row, column, layout.over as int, layout.over as int);
    let half = layout.half as int;
    assert((2 * 0 + 1) * half == half) by (nonlinear_arith);
    assert((2 * (sample + 1) + 1) * half == (2 * sample + 1) * half + 2 * half)
        by (nonlinear_arith);
}

/// A point is on the hills where the line to one side of it crosses an odd number of their
/// five sides, each corner being joined to the one before it and the first to the last.
pub proof fn the_hills_have_five_sides(hills: Seq<Corner>, x: int, y: int)
    requires
        hills.len() == 5,
    ensures
        odd(hills, 5, x, y) == (((crosses(hills[0], hills[4], x, y) != crosses(
            hills[1],
            hills[0],
            x,
            y,
        )) != crosses(hills[2], hills[1], x, y)) != (crosses(hills[3], hills[2], x, y) != crosses(
            hills[4],
            hills[3],
            x,
            y,
        ))),
{
    reveal_with_fuel(odd, 6);
}

/// The inks are the blue of a picture, the white inside it, and the grey of the one
/// behind.
pub proof fn the_inks_are_these()
    ensures
        Ink::Picture.shade() == (Colour { red: 0x3c, green: 0x7f, blue: 0xb1 }),
        Ink::Inside.shade() == (Colour { red: 0xff, green: 0xff, blue: 0xff }),
        Ink::Behind.shade() == (Colour { red: 0x7a, green: 0x8a, blue: 0x99 }),
        part_of(Some(Ink::Picture), 0) == 0x3c,
        part_of(Some(Ink::Picture), 1) == 0x7f,
        part_of(Some(Ink::Picture), 2) == 0xb1,
        part_of(Some(Ink::Behind), 0) == 0x7a,
        part_of(Some(Ink::Behind), 1) == 0x8a,
        part_of(Some(Ink::Behind), 2) == 0x99,
{
}

/// Both layouts lie on their canvas: the picture in front and the one a step away from it
/// along both sides. The outline of the one behind is cut out of its own rounding and is
/// thinner than the step, and the sun lies within the picture in front.
pub proof fn a_layout_lies_on_its_canvas(shown: Shown)
    ensures
        ({
            let layout = layout_of(shown);
            &&& shown == Shown::TitleBar ==> layout.side == 64 && layout.over == 4
            &&& shown == Shown::Dock ==> layout.side == 512 && layout.over == 2
            &&& 0 <= layout.inset
            &&& layout.inset + layout.frame + layout.step <= 2 * layout.half * layout.over
                * layout.side
            &&& layout.inner_round == layout.round - layout.outline
            &&& 0 < layout.outline < layout.step
            &&& 0 < layout.sun < layout.sun_at
            &&& layout.sun_at + layout.sun < layout.frame
        }),
{
}

} // verus!

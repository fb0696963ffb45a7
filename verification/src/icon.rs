//! The window's icon, drawn rather than stored.
//!
//! A picture with a second one behind it, a step down and to the right: two of a
//! thing, which is what the program is about. It fills the icon corner to corner
//! and stands on nothing, because a title bar draws it sixteen points across and
//! anything that is a mark inside a card is a card at that size.
//!
//! A dock is the other way round. It draws every icon as a card of its own, a
//! rounded square inset in its canvas, and one that fills its canvas instead sits
//! among them with no shape and the wrong size. So there the same mark is drawn
//! large enough that the picture in front is that card.
//!
//! Everything is laid out in whole parts of a point, as many to the point as it
//! takes to write every measurement down exactly, from the top left corner of the
//! picture in front. It is drawn several times too large and averaged down, which
//! is what gives the rounded corners and the sloped hills a clean edge.

use vstd::prelude::*;

verus! {

/// Where an icon is drawn.
#[derive(Debug, Clone, Copy, PartialEq, Eq, Structural)]
pub enum Shown {
    TitleBar,
    Dock,
}

/// A colour.
#[derive(Debug, Clone, Copy, PartialEq, Eq, Structural)]
pub struct Colour {
    pub red: u8,
    pub green: u8,
    pub blue: u8,
}

/// A corner of the hills.
#[derive(Debug, Clone, Copy, PartialEq, Eq, Structural)]
pub struct Corner {
    pub x: i64,
    pub y: i64,
}

/// The measurements of an icon.
#[derive(Debug, Clone, Copy)]
pub struct Layout {
    /// The icon in pixels a side, and how many samples a side each of them is
    /// averaged from.
    pub side: u32,
    pub over: u32,
    /// The parts in half a sample, and from the corner of the canvas to that of the
    /// picture in front.
    pub half: i64,
    pub inset: i64,
    /// The two pictures: the same square twice, and the corner both are rounded to.
    pub frame: i64,
    pub round: i64,
    /// How far the one behind steps out from the one in front.
    pub step: i64,
    /// The line the one behind is drawn with, and the corner its inner edge is
    /// rounded to.
    pub outline: i64,
    pub inner_round: i64,
    /// The sun in the picture in front, the same distance across as down.
    pub sun_at: i64,
    pub sun: i64,
    /// The hills under it: a peak, a dip and a smaller peak.
    pub hills: [Corner; 5],
}

/// The icon, as the rows of pixels a window wants.
pub struct Icon {
    pub rgba: Vec<u8>,
    pub width: u32,
    pub height: u32,
}

/// What the icon is drawn in.
#[derive(Debug, Clone, Copy, PartialEq, Eq, Structural)]
pub enum Ink {
    /// The picture in front.
    Picture,
    /// What is drawn inside it.
    Inside,
    /// The one behind, which is an outline and nothing else.
    Behind,
}

impl Ink {
    /// The colour it is.
    pub open spec fn shade(self) -> Colour {
        match self {
            Ink::Picture => Colour { red: 0x3c, green: 0x7f, blue: 0xb1 },
            Ink::Inside => Colour { red: 0xff, green: 0xff, blue: 0xff },
            Ink::Behind => Colour { red: 0x7a, green: 0x8a, blue: 0x99 },
        }
    }

    /// The colour it is.
    pub fn colour(self) -> (colour: Colour)
        ensures
            colour == self.shade(),
    {
        match self {
            Ink::Picture => Colour { red: 0x3c, green: 0x7f, blue: 0xb1 },
            Ink::Inside => Colour { red: 0xff, green: 0xff, blue: 0xff },
            Ink::Behind => Colour { red: 0x7a, green: 0x8a, blue: 0x99 },
        }
    }
}

/// The measurements of the icon in a title bar, forty parts to the point: sixty-four
/// points across, the pictures fifty.
pub open spec fn title_bar() -> Layout {
    Layout {
        side: 64,
        over: 4,
        half: 5,
        inset: 80,
        frame: 2000,
        round: 252,
        step: 320,
        outline: 160,
        inner_round: 92,
        sun_at: 600,
        sun: 236,
        hills: [
            Corner { x: 140, y: 1644 },
            Corner { x: 716, y: 1000 },
            Corner { x: 1108, y: 1392 },
            Corner { x: 1432, y: 1108 },
            Corner { x: 1856, y: 1644 },
        ],
    }
}

/// The measurements of the icon in a dock, a hundred thousand parts to the point.
/// The picture in front has the proportions every icon has there: of a canvas 1024
/// across, a square 824 wide with its corners rounded to 185.4, centred. The one
/// behind reaches out into the margin, short of all of it.
pub open spec fn dock() -> Layout {
    Layout {
        side: 512,
        over: 2,
        half: 3125,
        inset: 625000,
        frame: 5150000,
        round: 1158750,
        step: 537500,
        outline: 412000,
        inner_round: 746750,
        sun_at: 1545000,
        sun: 607700,
        hills: [
            Corner { x: 360500, y: 4233300 },
            Corner { x: 1843700, y: 2575000 },
            Corner { x: 2853100, y: 3584400 },
            Corner { x: 3687400, y: 2853100 },
            Corner { x: 4779200, y: 4233300 },
        ],
    }
}

/// The measurements of an icon.
pub open spec fn layout_of(shown: Shown) -> Layout {
    match shown {
        Shown::TitleBar => title_bar(),
        Shown::Dock => dock(),
    }
}

/// The measurements of an icon.
pub fn layout(shown: Shown) -> (layout: Layout)
    ensures
        layout == layout_of(shown),
{
    match shown {
        Shown::TitleBar => Layout {
            side: 64,
            over: 4,
            half: 5,
            inset: 80,
            frame: 2000,
            round: 252,
            step: 320,
            outline: 160,
            inner_round: 92,
            sun_at: 600,
            sun: 236,
            hills: [
                Corner { x: 140, y: 1644 },
                Corner { x: 716, y: 1000 },
                Corner { x: 1108, y: 1392 },
                Corner { x: 1432, y: 1108 },
                Corner { x: 1856, y: 1644 },
            ],
        },
        Shown::Dock => Layout {
            side: 512,
            over: 2,
            half: 3125,
            inset: 625000,
            frame: 5150000,
            round: 1158750,
            step: 537500,
            outline: 412000,
            inner_round: 746750,
            sun_at: 1545000,
            sun: 607700,
            hills: [
                Corner { x: 360500, y: 4233300 },
                Corner { x: 1843700, y: 2575000 },
                Corner { x: 2853100, y: 3584400 },
                Corner { x: 3687400, y: 2853100 },
                Corner { x: 4779200, y: 4233300 },
            ],
        },
    }
}

/// The larger of two numbers and nothing.
pub open spec fn above(one: int, other: int) -> int {
    if one >= other && one >= 0 {
        one
    } else if other >= 0 {
        other
    } else {
        0
    }
}

/// Whether a point is in a square with rounded corners, `x` across and `y` down from
/// the corner of it. How far into a corner's own square the point is decides, and
/// outside every one of those it is in.
pub open spec fn rounded(x: int, y: int, size: int, round: int) -> bool {
    let across = above(round - x, x - (size - round));
    let down = above(round - y, y - (size - round));
    &&& 0 <= x <= size
    &&& 0 <= y <= size
    &&& across * across + down * down <= round * round
}

/// Whether a line drawn from a point out to the right crosses a side.
pub open spec fn crosses(one: Corner, other: Corner, x: int, y: int) -> bool {
    &&& (one.y > y) != (other.y > y)
    &&& if other.y > one.y {
        (x - one.x) * (other.y - one.y) < (other.x - one.x) * (y - one.y)
    } else {
        (x - one.x) * (other.y - one.y) > (other.x - one.x) * (y - one.y)
    }
}

/// The corner of the hills before one, going round.
pub open spec fn corner_before(at: int) -> int {
    if at == 0 {
        4
    } else {
        at - 1
    }
}

/// Whether a line drawn from a point out to the right crosses an odd number of the
/// first sides of the hills.
pub open spec fn odd(hills: Seq<Corner>, sides: nat, x: int, y: int) -> bool
    decreases sides,
{
    if sides == 0 {
        false
    } else {
        let at = sides - 1;
        odd(hills, at as nat, x, y) != crosses(hills[at], hills[corner_before(at)], x, y)
    }
}

/// What is at a point of the icon, or nothing where the icon is not. The one behind
/// is an outline: inside its edge and outside the room that edge leaves. The one in
/// front is drawn over it, so where they overlap there is only the front one.
pub open spec fn mark_at(layout: Layout, x: int, y: int) -> Option<Ink> {
    let inner = layout.step + layout.outline;
    let (east, south) = (x - layout.sun_at, y - layout.sun_at);
    if rounded(x, y, layout.frame as int, layout.round as int) {
        if east * east + south * south <= layout.sun * layout.sun || odd(
            layout.hills@,
            5,
            x,
            y,
        ) {
            Some(Ink::Inside)
        } else {
            Some(Ink::Picture)
        }
    } else if rounded(
        x - layout.step,
        y - layout.step,
        layout.frame as int,
        layout.round as int,
    ) && !rounded(
        x - inner,
        y - inner,
        layout.frame - 2 * layout.outline,
        layout.inner_round as int,
    ) {
        Some(Ink::Behind)
    } else {
        None
    }
}

/// Where the middle of a sample is.
pub open spec fn middle(layout: Layout, sample: int) -> int {
    (2 * sample + 1) * layout.half - layout.inset
}

/// The red, the green, the blue or how much there is of a sample.
pub open spec fn part_of(drawn: Option<Ink>, part: int) -> int {
    match drawn {
        None => 0,
        Some(ink) => if part == 0 {
            ink.shade().red as int
        } else if part == 1 {
            ink.shade().green as int
        } else if part == 2 {
            ink.shade().blue as int
        } else {
            0xff
        },
    }
}

/// What is at one of the samples of a pixel.
pub open spec fn sample_at(layout: Layout, x: int, y: int, number: int) -> Option<Ink> {
    mark_at(
        layout,
        middle(layout, x * layout.over + number % (layout.over as int)),
        middle(layout, y * layout.over + number / (layout.over as int)),
    )
}

/// The sum of one part of the first samples of a pixel.
pub open spec fn sum_of(layout: Layout, x: int, y: int, part: int, samples: nat) -> int
    decreases samples,
{
    if samples == 0 {
        0
    } else {
        sum_of(layout, x, y, part, (samples - 1) as nat) + part_of(
            sample_at(layout, x, y, samples - 1),
            part,
        )
    }
}

/// The average of one part of the samples of a pixel, transparency and all, so an
/// edge that covers half of them ends up half there.
pub open spec fn average(layout: Layout, x: int, y: int, part: int) -> int {
    let samples = layout.over * layout.over;
    sum_of(layout, x, y, part, samples as nat) / samples
}

/// The icon's pixels, row after row, four parts each.
pub open spec fn pixels_of(layout: Layout) -> Seq<u8> {
    let side = layout.side as int;
    Seq::new(
        (4 * side * side) as nat,
        |at: int| average(layout, (at / 4) % side, (at / 4) / side, at % 4) as u8,
    )
}

/// Whether a point is near enough to an icon to be reckoned with.
spec fn near(at: i64) -> bool {
    -20_000_000 <= at <= 20_000_000
}

/// Whether a point is in a square with rounded corners.
fn inside_rounded(x: i64, y: i64, size: i64, round: i64) -> (inside: bool)
    requires
        near(x),
        near(y),
        near(size),
        near(round),
        0 <= round <= size,
    ensures
        inside == rounded(x as int, y as int, size as int, round as int),
{
    if x < 0 || y < 0 || x > size || y > size {
        return false;
    }
    let across = larger(round - x, x - (size - round));
    let down = larger(round - y, y - (size - round));
    proof {
        assert(0 <= across * across <= 1_600_000_000_000_000) by (nonlinear_arith)
            requires
                0 <= across <= 40_000_000,
        ;
        assert(0 <= down * down <= 1_600_000_000_000_000) by (nonlinear_arith)
            requires
                0 <= down <= 40_000_000,
        ;
        assert(0 <= round * round <= 400_000_000_000_000) by (nonlinear_arith)
            requires
                0 <= round <= 20_000_000,
        ;
    }
    across * across + down * down <= round * round
}

/// The larger of two numbers and nothing.
fn larger(one: i64, other: i64) -> (larger: i64)
    ensures
        larger == above(one as int, other as int),
{
    if one >= other && one >= 0 {
        one
    } else if other >= 0 {
        other
    } else {
        0
    }
}

/// Whether a point is in the sun.
fn in_the_sun(layout: &Layout, x: i64, y: i64) -> (inside: bool)
    requires
        near(x),
        near(y),
        0 <= layout.sun_at <= 20_000_000,
        0 <= layout.sun <= 20_000_000,
    ensures
        inside == ((x - layout.sun_at) * (x - layout.sun_at) + (y - layout.sun_at) * (y
            - layout.sun_at) <= layout.sun * layout.sun),
{
    let east = x - layout.sun_at;
    let south = y - layout.sun_at;
    let sun = layout.sun;
    proof {
        assert(0 <= east * east <= 1_600_000_000_000_000) by (nonlinear_arith)
            requires
                -40_000_000 <= east <= 40_000_000,
        ;
        assert(0 <= south * south <= 1_600_000_000_000_000) by (nonlinear_arith)
            requires
                -40_000_000 <= south <= 40_000_000,
        ;
        assert(0 <= sun * sun <= 400_000_000_000_000) by (nonlinear_arith)
            requires
                0 <= sun <= 20_000_000,
        ;
    }
    east * east + south * south <= sun * sun
}

/// Whether a line drawn from a point out to the right crosses a side.
fn is_crossed(one: Corner, other: Corner, x: i64, y: i64) -> (crossed: bool)
    requires
        near(x),
        near(y),
        near(one.x),
        near(one.y),
        near(other.x),
        near(other.y),
    ensures
        crossed == crosses(one, other, x as int, y as int),
{
    if (one.y > y) == (other.y > y) {
        return false;
    }
    let along = x - one.x;
    let height = other.y - one.y;
    let width = other.x - one.x;
    let below = y - one.y;
    proof {
        assert(-1_600_000_000_000_000 <= along * height <= 1_600_000_000_000_000)
            by (nonlinear_arith)
            requires
                -40_000_000 <= along <= 40_000_000,
                -40_000_000 <= height <= 40_000_000,
        ;
        assert(-1_600_000_000_000_000 <= width * below <= 1_600_000_000_000_000)
            by (nonlinear_arith)
            requires
                -40_000_000 <= width <= 40_000_000,
                -40_000_000 <= below <= 40_000_000,
        ;
    }
    if other.y > one.y {
        along * height < width * below
    } else {
        along * height > width * below
    }
}

/// Whether a point is on the hills, by how many of their sides a line drawn out to
/// the right of it crosses, which is odd inside them and even outside.
fn on_the_hills(hills: &[Corner; 5], x: i64, y: i64) -> (inside: bool)
    requires
        near(x),
        near(y),
        forall|at: int| 0 <= at < 5 ==> near((#[trigger] hills@[at]).x) && near(hills@[at].y),
    ensures
        inside == odd(hills@, 5, x as int, y as int),
{
    let mut inside = false;
    let mut at: usize = 0;
    while at < 5
        invariant
            at <= 5,
            near(x),
            near(y),
            forall|at: int| 0 <= at < 5 ==> near((#[trigger] hills@[at]).x) && near(hills@[at].y),
            inside == odd(hills@, at as nat, x as int, y as int),
        decreases 5 - at,
    {
        let previous: usize = if at == 0 {
            4
        } else {
            at - 1
        };
        if is_crossed(hills[at], hills[previous], x, y) {
            inside = !inside;
        }
        at = at + 1;
    }
    inside
}

/// What is at a point of the icon.
fn colour_at(shown: Shown, layout: &Layout, x: i64, y: i64) -> (drawn: Option<Ink>)
    requires
        *layout == layout_of(shown),
        -10_000_000 <= x <= 10_000_000,
        -10_000_000 <= y <= 10_000_000,
    ensures
        drawn == mark_at(*layout, x as int, y as int),
{
    assert(forall|at: int|
        0 <= at < 5 ==> near((#[trigger] layout.hills@[at]).x) && near(layout.hills@[at].y));
    let inner = layout.step + layout.outline;
    if inside_rounded(x, y, layout.frame, layout.round) {
        if in_the_sun(layout, x, y) || on_the_hills(&layout.hills, x, y) {
            Some(Ink::Inside)
        } else {
            Some(Ink::Picture)
        }
    } else if inside_rounded(x - layout.step, y - layout.step, layout.frame, layout.round)
        && !inside_rounded(
        x - inner,
        y - inner,
        layout.frame - 2 * layout.outline,
        layout.inner_round,
    ) {
        Some(Ink::Behind)
    } else {
        None
    }
}

/// Where the middle of one of a pixel's samples is, across or down.
fn point(shown: Shown, layout: &Layout, pixel: u32, sample: u32) -> (at: i64)
    requires
        *layout == layout_of(shown),
        pixel < layout.side,
        sample < layout.over,
    ensures
        at == middle(*layout, pixel * layout.over + sample),
        -10_000_000 <= at <= 10_000_000,
{
    let over = layout.over;
    proof {
        match shown {
            Shown::TitleBar => {
                assert(pixel * over == pixel * 4);
            },
            Shown::Dock => {
                assert(pixel * over == pixel * 2);
            },
        }
    }
    let from_the_corner: i64 = (pixel * over + sample) as i64;
    (2 * from_the_corner + 1) * layout.half - layout.inset
}

/// A pixel: the average of its samples.
fn pixel(shown: Shown, layout: &Layout, x: u32, y: u32) -> (parts: [u8; 4])
    requires
        *layout == layout_of(shown),
        x < layout.side,
        y < layout.side,
    ensures
        forall|part: int|
            0 <= part < 4 ==> (#[trigger] parts@[part]) == average(
                *layout,
                x as int,
                y as int,
                part,
            ),
{
    let over = layout.over;
    let samples: u32 = over * over;
    assert(over == 4 ==> samples == 16);
    assert(over == 2 ==> samples == 4);
    let (mut red, mut green, mut blue, mut much) = (0u32, 0u32, 0u32, 0u32);
    let mut number: u32 = 0;
    while number < samples
        invariant
            *layout == layout_of(shown),
            x < layout.side,
            y < layout.side,
            over == layout.over,
            samples == over * over,
            over == 4 ==> samples == 16,
            over == 2 ==> samples == 4,
            over == 4 || over == 2,
            number <= samples,
            red == sum_of(*layout, x as int, y as int, 0, number as nat),
            green == sum_of(*layout, x as int, y as int, 1, number as nat),
            blue == sum_of(*layout, x as int, y as int, 2, number as nat),
            much == sum_of(*layout, x as int, y as int, 3, number as nat),
            red <= 0xff * number,
            green <= 0xff * number,
            blue <= 0xff * number,
            much <= 0xff * number,
        decreases samples - number,
    {
        assert(number % over < over && number / over < over) by {
            match shown {
                Shown::TitleBar => {
                    assert(number / 4 < 4);
                },
                Shown::Dock => {
                    assert(number / 2 < 2);
                },
            }
        }
        let east = point(shown, layout, x, number % over);
        let south = point(shown, layout, y, number / over);
        let drawn = colour_at(shown, layout, east, south);
        assert(drawn == sample_at(*layout, x as int, y as int, number as int));
        match drawn {
            Some(ink) => {
                let colour = ink.colour();
                red = red + colour.red as u32;
                green = green + colour.green as u32;
                blue = blue + colour.blue as u32;
                much = much + 0xff;
            },
            None => {},
        }
        number = number + 1;
    }
    assert(red / samples <= 0xff && green / samples <= 0xff && blue / samples <= 0xff && much
        / samples <= 0xff) by {
        if samples == 16 {
        } else {
        }
    }
    let parts = [
        (red / samples) as u8,
        (green / samples) as u8,
        (blue / samples) as u8,
        (much / samples) as u8,
    ];
    assert(parts@[0] == average(*layout, x as int, y as int, 0));
    assert(parts@[1] == average(*layout, x as int, y as int, 1));
    assert(parts@[2] == average(*layout, x as int, y as int, 2));
    assert(parts@[3] == average(*layout, x as int, y as int, 3));
    parts
}

/// The icon, as the rows of pixels a window wants.
pub fn window_icon(shown: Shown) -> (icon: Icon)
    ensures
        icon.rgba@ == pixels_of(layout_of(shown)),
        icon.width == layout_of(shown).side,
        icon.height == layout_of(shown).side,
        icon.rgba@.len() == 4 * icon.width * icon.height,
{
    let layout = layout(shown);
    let side = layout.side;
    assert(side * side == 4096 || side * side == 262144);
    let count: u32 = side * side;
    let ghost all = pixels_of(layout);
    let mut rgba: Vec<u8> = Vec::new();
    let mut at: u32 = 0;
    assert(rgba@ =~= all.take(0));
    while at < count
        invariant
            layout == layout_of(shown),
            side == layout.side,
            count == side * side,
            side == 64 ==> count == 4096,
            side == 512 ==> count == 262144,
            side == 64 || side == 512,
            all == pixels_of(layout),
            at <= count,
            rgba@ == all.take(4 * at as int),
        decreases count - at,
    {
        assert(at / side < side && at % side < side) by {
            if side == 64 {
                assert(at / 64 < 64);
            } else {
                assert(at / 512 < 512);
            }
        }
        assert(all.len() == 4 * count) by {
            assert(4 * side * side == 4 * count);
        }
        let parts = pixel(shown, &layout, at % side, at / side);
        let ghost before = rgba@;
        proof {
            assert forall|part: int| 0 <= part < 4 implies all[4 * at + part] == #[trigger] parts@[part]
                by {
                assert((4 * at + part) / 4 == at);
                assert((4 * at + part) % 4 == part);
            }
        }
        rgba.push(parts[0]);
        rgba.push(parts[1]);
        rgba.push(parts[2]);
        rgba.push(parts[3]);
        assert(rgba@ =~= all.take(4 * (at + 1)));
        at = at + 1;
    }
    assert(all.take(all.len() as int) =~= all);
    Icon { rgba, width: side, height: side }
}

} // verus!

//! The textures a frame of the window reads from, kept from one frame to the next.
//!
//! A frame only sends what is new about them, and the atlas of letters arrives a
//! patch at a time, so a picture of the window is drawn from what all the frames
//! before it have sent.

use std::collections::HashMap;

use vstd::prelude::*;

verus! {

broadcast use vstd::std_specs::hash::group_hash_axioms;

/// A texture, row after row, its colours packed into numbers.
pub struct Held {
    pub width: usize,
    pub height: usize,
    pub pixels: Vec<u32>,
}

/// A texture, as the contracts speak of it.
#[verifier::ext_equal]
pub struct HeldView {
    pub width: usize,
    pub height: usize,
    pub pixels: Seq<u32>,
}

impl DeepView for Held {
    type V = HeldView;

    open spec fn deep_view(&self) -> HeldView {
        HeldView { width: self.width, height: self.height, pixels: self.pixels@ }
    }
}

/// A change to a texture: the whole of it, or a patch of one that is already here.
pub struct Change {
    /// Which texture it is about.
    pub id: u128,
    /// Where the patch goes, across and down.
    pub at: Option<(usize, usize)>,
    pub image: Held,
}

/// A change to a texture, as the contracts speak of it.
pub struct ChangeView {
    pub id: u128,
    pub at: Option<(usize, usize)>,
    pub image: HeldView,
}

impl DeepView for Change {
    type V = ChangeView;

    open spec fn deep_view(&self) -> ChangeView {
        ChangeView { id: self.id, at: self.at, image: self.image.deep_view() }
    }
}

impl HeldView {
    /// Where a pixel of a patch goes.
    pub open spec fn place(self, patch: HeldView, x: int, y: int, pixel: int) -> int {
        (y + pixel / (patch.width as int)) * self.width + x + pixel % (patch.width as int)
    }

    /// The texture with the first pixels of a patch on it, one after the other. What
    /// falls outside is left out.
    pub open spec fn patched(self, patch: HeldView, x: int, y: int, pixels: nat) -> Seq<u32>
        decreases pixels,
    {
        if pixels == 0 {
            self.pixels
        } else {
            let before = self.patched(patch, x, y, (pixels - 1) as nat);
            let place = self.place(patch, x, y, pixels - 1);
            if 0 <= place < before.len() {
                before.update(place, patch.pixels[pixels - 1])
            } else {
                before
            }
        }
    }

    /// Whether a patch is whole, and the places it goes to can be counted.
    pub open spec fn takes(self, patch: HeldView, x: int, y: int) -> bool {
        &&& patch.pixels.len() == patch.width * patch.height
        &&& y + patch.height <= usize::MAX
        &&& (y + patch.height) * self.width + x + patch.width <= usize::MAX
    }
}

/// The textures once one has changed. A patch of a texture that is not here is left
/// out.
pub open spec fn changed(held: Map<u128, HeldView>, change: ChangeView) -> Map<u128, HeldView> {
    match change.at {
        None => held.insert(change.id, change.image),
        Some((x, y)) => if held.contains_key(change.id) {
            let texture = held[change.id];
            held.insert(
                change.id,
                HeldView {
                    pixels: texture.patched(
                        change.image,
                        x as int,
                        y as int,
                        change.image.pixels.len(),
                    ),
                    ..texture
                },
            )
        } else {
            held
        },
    }
}

/// The textures by their numbers, as the contracts speak of them.
pub open spec fn textures_of(held: Map<u128, Held>) -> Map<u128, HeldView> {
    held.map_values(|texture: Held| texture.deep_view())
}

/// The textures, by their numbers.
pub struct Textures {
    pub held: HashMap<u128, Held>,
}

impl View for Textures {
    type V = Map<u128, HeldView>;

    open spec fn view(&self) -> Map<u128, HeldView> {
        textures_of(self.held@)
    }
}

impl Textures {
    /// None yet.
    pub fn new() -> (textures: Textures)
        ensures
            textures@ == Map::<u128, HeldView>::empty(),
    {
        let textures = Textures { held: HashMap::new() };
        assert(textures@ =~= Map::<u128, HeldView>::empty());
        textures
    }

    /// Take a change to one of them.
    pub fn take(&mut self, change: Change)
        requires
            match change.at {
                Some((x, y)) => old(self)@.contains_key(change.id) ==> old(
                    self,
                )@[change.id].takes(change.deep_view().image, x as int, y as int),
                None => true,
            },
        ensures
            final(self)@ == changed(old(self)@, change.deep_view()),
    {
        match change.at {
            None => {
                self.held.insert(change.id, change.image);
            },
            Some((x, y)) => {
                if let Some(texture) = self.held.remove(&change.id) {
                    let mut texture = texture;
                    texture.patch(&change.image, x, y);
                    self.held.insert(change.id, texture);
                }
            },
        }
        assert(self@ =~= changed(old(self)@, change.deep_view()));
    }

    /// Let go of one of them.
    pub fn let_go(&mut self, id: u128)
        ensures
            final(self)@ == old(self)@.remove(id),
    {
        self.held.remove(&id);
        assert(self@ =~= old(self)@.remove(id));
    }
}

impl Held {
    /// Put a patch on the texture.
    pub fn patch(&mut self, patch: &Held, x: usize, y: usize)
        requires
            old(self).deep_view().takes(patch.deep_view(), x as int, y as int),
        ensures
            final(self).deep_view() == (HeldView {
                pixels: old(self).deep_view().patched(
                    patch.deep_view(),
                    x as int,
                    y as int,
                    patch.pixels@.len(),
                ),
                ..old(self).deep_view()
            }),
    {
        let ghost texture = self.deep_view();
        let ghost sent = patch.deep_view();
        proof {
            lemma_no_pixels(patch.width as int, patch.height as int);
        }
        let mut row: usize = 0;
        let mut column: usize = 0;
        for pixel in 0..patch.pixels.len()
            invariant
                texture == old(self).deep_view(),
                sent == patch.deep_view(),
                texture.takes(sent, x as int, y as int),
                self.width == texture.width,
                self.height == texture.height,
                self.pixels@ == texture.patched(sent, x as int, y as int, pixel as nat),
                self.pixels@.len() == texture.pixels.len(),
                row * patch.width + column == pixel,
                pixel < patch.pixels@.len() ==> column < patch.width && row < patch.height,
        {
            proof {
                lemma_row_and_column(row as int, column as int, patch.width as int);
                lemma_row_fits(
                    row as int,
                    patch.height as int,
                    y as int,
                    texture.width as int,
                );
            }
            let at: usize = (y + row) * self.width + x + column;
            assert(at == texture.place(sent, x as int, y as int, pixel as int));
            if at < self.pixels.len() {
                self.pixels.set(at, patch.pixels[pixel]);
            }
            proof {
                lemma_next_row(row as int, column as int, patch.width as int, patch.height as int);
            }
            column = column + 1;
            if column == patch.width {
                column = 0;
                row = row + 1;
            }
        }
    }
}

proof fn lemma_no_pixels(width: int, height: int)
    requires
        0 <= width,
        0 <= height,
    ensures
        width * height > 0 ==> width > 0 && height > 0,
{
    assert(width == 0 || height == 0 ==> width * height == 0) by (nonlinear_arith);
}

proof fn lemma_row_and_column(row: int, column: int, width: int)
    requires
        0 <= row,
        0 <= column < width,
    ensures
        (row * width + column) / width == row,
        (row * width + column) % width == column,
{
    vstd::arithmetic::div_mod::lemma_fundamental_div_mod_converse(
        row * width + column,
        width,
        row,
        column,
    );
}

proof fn lemma_row_fits(row: int, height: int, y: int, width: int)
    requires
        0 <= row < height,
        0 <= y,
        0 <= width,
    ensures
        0 <= (y + row) * width <= (y + height) * width,
        y + row <= y + height,
        width > 0 ==> y + height <= (y + height) * width,
{
    assert(0 <= (y + row) * width <= (y + height) * width) by (nonlinear_arith)
        requires
            0 <= row < height,
            0 <= y,
            0 <= width,
    ;
    if width > 0 {
        assert(y + height <= (y + height) * width) by (nonlinear_arith)
            requires
                0 < width,
                0 <= y + height,
        ;
    }
}

proof fn lemma_next_row(row: int, column: int, width: int, height: int)
    requires
        0 <= row < height,
        0 <= column < width,
    ensures
        (row + 1) * width == row * width + width,
        row * width + column + 1 < width * height && column + 1 == width ==> row + 1 < height,
{
    assert((row + 1) * width == row * width + width) by (nonlinear_arith);
    if column + 1 == width && row + 1 == height {
        assert(row * width + width == width * height) by (nonlinear_arith)
            requires
                row + 1 == height,
        ;
    }
}

} // verus!

//! Decoding packed 32-bit colors into a 256-slot material palette.
//!
//! Slot 0 is a reserved "empty" sentinel; the color at input position `i`
//! lands in slot `i + 1`, matching the `+ 1` shift of grid cell values.

use vstd::prelude::*;

verus! {

/// A small integer indexing the palette; 0 is reserved for "no material".
pub type MaterialId = u8;

/// The 256-slot material table shared by every model of one file.
pub type Palette = Vec<Material>;

/// One palette entry: an RGBA color, one byte per channel.
///
/// A channel byte `c` stands for the normalized intensity `c / 255`;
/// the division into floating point is left to the render side.
#[derive(Clone, Copy, Debug, PartialEq, Eq, Structural)]
pub struct Material {
    pub r: u8,
    pub g: u8,
    pub b: u8,
    pub a: u8,
}

/// The fully transparent color that fills unassigned palette slots.
pub open spec fn empty_material() -> Material {
    Material { r: 0, g: 0, b: 0, a: 0 }
}

/// The material packed into a 32-bit color: byte 0 is red, byte 1 green,
/// byte 2 blue, byte 3 alpha.
pub open spec fn material_of_u32(color: u32) -> Material {
    Material {
        r: (color & 0xff) as u8,
        g: ((color >> 8) & 0xff) as u8,
        b: ((color >> 16) & 0xff) as u8,
        a: ((color >> 24) & 0xff) as u8,
    }
}

/// The palette decoded from a packed color table: 256 slots, slot 0 the
/// empty sentinel, the color at input position `i` in slot `i + 1`,
/// input beyond 255 entries dropped, unfilled slots at the sentinel.
pub open spec fn palette_of(colors: Seq<u32>) -> Seq<Material> {
    Seq::new(
        256,
        |j: int|
            if 1 <= j && j - 1 < colors.len() && j <= 255 {
                material_of_u32(colors[j - 1])
            } else {
                empty_material()
            },
    )
}

/// Decoding a full 255-color table and reading slot `i + 1` gives back
/// exactly the bytes of color `i`: the table round-trips through the
/// palette. (Each byte `c` stands for the normalized channel `c / 255`,
/// so the normalized channels round-trip as well.)
pub proof fn lemma_palette_roundtrip(colors: Seq<u32>, i: int)
    requires
        colors.len() == 255,
        0 <= i < 255,
    ensures
        palette_of(colors)[i + 1] == material_of_u32(colors[i]),
{
}

/// Unpacks one 32-bit color: byte 0 → red, byte 1 → green, byte 2 → blue,
/// byte 3 → alpha.
pub fn color_from_u32(color: u32) -> (m: Material)
    ensures
        m == material_of_u32(color),
{
    let r = (color & 0xff) as u8;
    let g = ((color >> 8) & 0xff) as u8;
    let b = ((color >> 16) & 0xff) as u8;
    let a = ((color >> 24) & 0xff) as u8;
    Material { r, g, b, a }
}

/// Decodes a packed color table into the 256-slot palette, shifting
/// every color up one slot to keep slot 0 as the empty sentinel.
pub fn palette_from_colors(colors: &Vec<u32>) -> (p: Palette)
    ensures
        p@ == palette_of(colors@),
        p@.len() == 256,
{
    let mut p: Vec<Material> = Vec::new();
    p.push(Material { r: 0, g: 0, b: 0, a: 0 });
    let mut idx: usize = 0;
    while idx < colors.len() && idx < 255
        invariant
            idx <= colors@.len(),
            idx <= 255,
            p@.len() == idx + 1,
            p@[0] == empty_material(),
            forall|j: int| 1 <= j <= idx ==> p@[j] == material_of_u32(#[trigger] colors@[j - 1]),
        decreases colors@.len() - idx,
    {
        let m = color_from_u32(colors[idx]);
        p.push(m);
        idx = idx + 1;
    }
    while p.len() < 256
        invariant
            idx == if colors@.len() < 255 {
                colors@.len() as int
            } else {
                255
            },
            idx + 1 <= p@.len() <= 256,
            p@[0] == empty_material(),
            forall|j: int| 1 <= j <= idx ==> p@[j] == material_of_u32(#[trigger] colors@[j - 1]),
            forall|j: int| idx < j < p@.len() ==> #[trigger] p@[j] == empty_material(),
        decreases 256 - p@.len(),
    {
        p.push(Material { r: 0, g: 0, b: 0, a: 0 });
    }
    proof {
        assert(p@ =~= palette_of(colors@));
    }
    p
}

} // verus!

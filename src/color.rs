use vstd::prelude::*;

verus! {

/// A color with 8-bit red, green, blue and alpha channels.
#[derive(Clone, Copy, Debug, PartialEq, Eq, Structural)]
pub struct Rgba {
    pub r: u8,
    pub g: u8,
    pub b: u8,
    pub a: u8,
}

pub open spec fn rgba_spec(r: u8, g: u8, b: u8, a: u8) -> Rgba {
    Rgba { r, g, b, a }
}

/// Opaque black: the color of iteration counts that no palette segment covers.
pub open spec fn black_spec() -> Rgba {
    rgba_spec(0, 0, 0, 255)
}

impl Rgba {
    pub fn new(r: u8, g: u8, b: u8, a: u8) -> (c: Rgba)
        ensures
            c == rgba_spec(r, g, b, a),
    {
        Rgba { r, g, b, a }
    }

    pub fn black() -> (c: Rgba)
        ensures
            c == black_spec(),
    {
        Rgba { r: 0, g: 0, b: 0, a: 255 }
    }

    /// Opaque white: the color a band holds before it is computed.
    pub fn white() -> (c: Rgba)
        ensures
            c == rgba_spec(255, 255, 255, 255),
    {
        Rgba { r: 255, g: 255, b: 255, a: 255 }
    }
}

/// The named color schemes, each an ordered list of palette anchors.
pub open spec fn scheme_table() -> Seq<Seq<Rgba>> {
    seq![
        seq![rgba_spec(21, 29, 59, 255), rgba_spec(216, 33, 72, 255), rgba_spec(110, 191, 139, 255), rgba_spec(218, 219, 189, 255)],
        seq![rgba_spec(17, 20, 207, 255), rgba_spec(217, 35, 22, 255), rgba_spec(217, 35, 22, 255)],
        seq![rgba_spec(0, 7, 100, 255), rgba_spec(32, 107, 203, 255), rgba_spec(237, 255, 255, 255), rgba_spec(255, 170, 0, 255), rgba_spec(0, 2, 0, 255)],
        seq![rgba_spec(87, 51, 145, 255), rgba_spec(255, 230, 171, 255), rgba_spec(53, 124, 60, 255), rgba_spec(239, 109, 109, 255)],
        seq![rgba_spec(12, 30, 127, 255), rgba_spec(210, 39, 121, 255), rgba_spec(97, 40, 151, 255), rgba_spec(255, 0, 142, 255)],
        seq![rgba_spec(17, 5, 44, 255), rgba_spec(61, 8, 123, 255), rgba_spec(244, 59, 134, 255), rgba_spec(255, 228, 89, 255), rgba_spec(81, 45, 109, 255), rgba_spec(248, 72, 94, 255), rgba_spec(238, 238, 238, 255), rgba_spec(0, 193, 212, 255)],
        seq![rgba_spec(40, 40, 40, 255), rgba_spec(204, 36, 29, 255), rgba_spec(104, 157, 106, 255), rgba_spec(69, 133, 136, 255), rgba_spec(177, 98, 134, 255), rgba_spec(215, 153, 33, 255), rgba_spec(152, 151, 26, 255), rgba_spec(214, 93, 14, 255)],
    ]
}

/// The table of color schemes; every scheme has at least two anchors.
pub fn colorschemes() -> (r: Vec<Vec<Rgba>>)
    ensures
        r@.len() == scheme_table().len(),
        forall|i: int| 0 <= i < r@.len() ==> #[trigger] r@[i]@ == scheme_table()[i],
        forall|i: int| 0 <= i < r@.len() ==> #[trigger] r@[i]@.len() >= 2,
{
    let r = vec![
        vec![Rgba::new(21, 29, 59, 255), Rgba::new(216, 33, 72, 255), Rgba::new(110, 191, 139, 255), Rgba::new(218, 219, 189, 255)],
        vec![Rgba::new(17, 20, 207, 255), Rgba::new(217, 35, 22, 255), Rgba::new(217, 35, 22, 255)],
        vec![Rgba::new(0, 7, 100, 255), Rgba::new(32, 107, 203, 255), Rgba::new(237, 255, 255, 255), Rgba::new(255, 170, 0, 255), Rgba::new(0, 2, 0, 255)],
        vec![Rgba::new(87, 51, 145, 255), Rgba::new(255, 230, 171, 255), Rgba::new(53, 124, 60, 255), Rgba::new(239, 109, 109, 255)],
        vec![Rgba::new(12, 30, 127, 255), Rgba::new(210, 39, 121, 255), Rgba::new(97, 40, 151, 255), Rgba::new(255, 0, 142, 255)],
        vec![Rgba::new(17, 5, 44, 255), Rgba::new(61, 8, 123, 255), Rgba::new(244, 59, 134, 255), Rgba::new(255, 228, 89, 255), Rgba::new(81, 45, 109, 255), Rgba::new(248, 72, 94, 255), Rgba::new(238, 238, 238, 255), Rgba::new(0, 193, 212, 255)],
        vec![Rgba::new(40, 40, 40, 255), Rgba::new(204, 36, 29, 255), Rgba::new(104, 157, 106, 255), Rgba::new(69, 133, 136, 255), Rgba::new(177, 98, 134, 255), Rgba::new(215, 153, 33, 255), Rgba::new(152, 151, 26, 255), Rgba::new(214, 93, 14, 255)],
    ];
    r
}

} // verus!

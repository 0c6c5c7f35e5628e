use vstd::prelude::*;

verus! {

/// Whether `(x, y)` names a pixel of this display: `x` below 32, `y` below 64.
pub open spec fn in_bounds(x: int, y: int) -> bool {
    0 <= x < 32 && 0 <= y < 64
}

/// A monochrome display stored as 32 columns `x` of 64 pixels `y` each.
pub struct Screen {
    pixels: [[bool; 64]; 32],
}

impl Screen {
    /// Whether the pixel at `(x, y)` is lit.
    pub closed spec fn pixel(&self, x: int, y: int) -> bool {
        self.pixels@[x]@[y]
    }

    pub fn new() -> (screen: Self)
        ensures
            forall|x: int, y: int| in_bounds(x, y) ==> !#[trigger] screen.pixel(x, y),
    {
        Self { pixels: [[false; 64]; 32] }
    }

    pub fn get_pixel(&self, coord: (u8, u8)) -> (lit: bool)
        requires
            in_bounds(coord.0 as int, coord.1 as int),
        ensures
            lit == self.pixel(coord.0 as int, coord.1 as int),
    {
        let (x, y) = coord;
        self.pixels[usize::from(x)][usize::from(y)]
    }

    pub fn set_pixel(&mut self, coord: (u8, u8), value: bool)
        requires
            in_bounds(coord.0 as int, coord.1 as int),
        ensures
            forall|x: int, y: int|
                in_bounds(x, y) ==> #[trigger] final(self).pixel(x, y) == if x == coord.0 && y == coord.1 {
                    value
                } else {
                    old(self).pixel(x, y)
                },
    {
        let (x, y) = coord;
        let mut column = self.pixels[usize::from(x)];
        column[usize::from(y)] = value;
        self.pixels[usize::from(x)] = column;
    }

    pub fn clear(&mut self)
        ensures
            forall|x: int, y: int| in_bounds(x, y) ==> !#[trigger] final(self).pixel(x, y),
    {
        self.pixels = [[false; 64]; 32];
    }
}

} // verus!

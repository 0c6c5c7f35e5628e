use vstd::prelude::*;

verus! {

/// Width of the display, in pixels.
pub const WIDTH: u8 = 64;

/// Height of the display, in pixels.
pub const HEIGHT: u8 = 32;

/// Whether `(x, y)` names a pixel of the 64 x 32 display.
pub open spec fn on_screen(x: int, y: int) -> bool {
    0 <= x < WIDTH && 0 <= y < HEIGHT
}

/// A monochrome 64 x 32 display, addressed as `(column, row)`.
pub trait Screen {
    /// Whether the pixel at column `x`, row `y` is lit.
    spec fn pixel(&self, x: int, y: int) -> bool;

    fn get_pixel(&self, coord: (u8, u8)) -> (lit: bool)
        requires
            coord.0 < WIDTH,
            coord.1 < HEIGHT,
        ensures
            lit == self.pixel(coord.0 as int, coord.1 as int),
    ;

    fn get_state(&self) -> (state: [[bool; 64]; 32])
        ensures
            forall|x: int, y: int| on_screen(x, y) ==> state@[y]@[x] == #[trigger] self.pixel(x, y),
    ;

    fn set_pixel(&mut self, coord: (u8, u8), value: bool)
        requires
            coord.0 < WIDTH,
            coord.1 < HEIGHT,
        ensures
            forall|x: int, y: int|
                on_screen(x, y) ==> #[trigger] final(self).pixel(x, y) == if x == coord.0 && y == coord.1 {
                    value
                } else {
                    old(self).pixel(x, y)
                },
    ;

    fn clear(&mut self)
        ensures
            forall|x: int, y: int| on_screen(x, y) ==> !#[trigger] final(self).pixel(x, y),
    ;
}

/// A display kept in memory, one row of 64 pixels per line.
pub struct VirtualScreen {
    pixels: [[bool; 64]; 32],
}

impl VirtualScreen {
    pub fn new() -> (screen: Self)
        ensures
            forall|x: int, y: int| on_screen(x, y) ==> !#[trigger] screen.pixel(x, y),
    {
        Self { pixels: [[false; 64]; 32] }
    }
}

impl Screen for VirtualScreen {
    closed spec fn pixel(&self, x: int, y: int) -> bool {
        self.pixels@[y]@[x]
    }

    fn get_pixel(&self, coord: (u8, u8)) -> (lit: bool) {
        let (x, y) = coord;
        self.pixels[y as usize][x as usize]
    }

    fn get_state(&self) -> (state: [[bool; 64]; 32]) {
        self.pixels
    }

    fn set_pixel(&mut self, coord: (u8, u8), value: bool) {
        let (x, y) = coord;
        let mut row = self.pixels[y as usize];
        row[x as usize] = value;
        self.pixels[y as usize] = row;
    }

    fn clear(&mut self) {
        self.pixels = [[false; 64]; 32];
    }
}

} // verus!

use vstd::prelude::*;

verus! {

/// Pixels per row of the monochrome grid.
pub const SCREEN_WIDTH: usize = 64;

/// Rows of the monochrome grid.
pub const SCREEN_HEIGHT: usize = 32;

/// The screen with every pixel off.
pub open spec fn blank_screen() -> Seq<bool> {
    Seq::new(2048, |i: int| false)
}

/// Monochrome 64 by 32 pixel grid, stored row-major: the pixel at column `x`
/// of row `y` sits at `y * 64 + x`. It is only ever changed by the XOR draw
/// of the dispatcher or by an explicit clear.
pub struct Display {
    pub screen: [bool; 2048],
}

impl Display {
    /// A cleared screen.
    pub fn new() -> (r: Display)
        ensures
            r.screen@ == blank_screen(),
    {
        let r = Display { screen: [false; 2048] };
        proof {
            assert(r.screen@ =~= blank_screen());
        }
        r
    }

    /// Switches every pixel off.
    pub fn reset(&mut self)
        ensures
            final(self).screen@ == blank_screen(),
    {
        self.screen = [false; 2048];
        proof {
            assert(self.screen@ =~= blank_screen());
        }
    }
}

} // verus!

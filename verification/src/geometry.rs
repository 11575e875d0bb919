//! Panel geometry, addressing windows and coordinates.

use vstd::prelude::*;

verus! {

/// The place of column `x`, row `y` in a grid `width` wide that is counted
/// row by row.
#[verifier::opaque]
pub open spec fn grid_index(width: int, x: int, y: int) -> int {
    y * width + x
}

/// How the panel is mounted, clockwise from its native orientation.
#[derive(Clone, Copy, Debug, PartialEq, Eq, Structural)]
pub enum Rotation {
    Deg0,
    Deg90,
    Deg180,
    Deg270,
}

/// The pixel grid of the panel as the caller sees it: `width` columns and
/// `height` rows after rotation, origin at the top left.
#[derive(Clone, Copy, Debug, PartialEq, Eq, Structural)]
pub struct PanelGeometry {
    pub width: u16,
    pub height: u16,
    pub rotation: Rotation,
}

/// A rectangle of panel pixels, both corners included.
#[derive(Clone, Copy, Debug, PartialEq, Eq, Structural)]
pub struct AddressWindow {
    pub x0: u16,
    pub y0: u16,
    pub x1: u16,
    pub y1: u16,
}

/// A coordinate handed in by drawing code. It may lie anywhere.
#[derive(Clone, Copy, Debug, PartialEq, Eq, Structural)]
pub struct Point {
    pub x: i32,
    pub y: i32,
}

impl PanelGeometry {
    /// A panel has at least one pixel.
    pub open spec fn valid(self) -> bool {
        self.width > 0 && self.height > 0
    }

    /// The window that covers the whole panel.
    pub open spec fn full(self) -> AddressWindow
        recommends
            self.valid(),
    {
        AddressWindow {
            x0: 0,
            y0: 0,
            x1: (self.width - 1) as u16,
            y1: (self.height - 1) as u16,
        }
    }

    /// Whether `p` names a pixel of the panel.
    pub open spec fn contains(self, p: Point) -> bool {
        0 <= p.x < self.width && 0 <= p.y < self.height
    }

    pub fn is_valid(&self) -> (ok: bool)
        ensures
            ok == self.valid(),
    {
        self.width > 0 && self.height > 0
    }

    /// The window that covers the whole panel.
    pub fn full_window(&self) -> (window: AddressWindow)
        requires
            self.valid(),
        ensures
            window == self.full(),
            window.within(*self),
            window.area() == self.width * self.height,
    {
        AddressWindow { x0: 0, y0: 0, x1: self.width - 1, y1: self.height - 1 }
    }

    /// Whether `p` names a pixel of the panel.
    pub fn has_point(&self, p: Point) -> (inside: bool)
        ensures
            inside == self.contains(p),
    {
        0 <= p.x && p.x < self.width as i32 && 0 <= p.y && p.y < self.height as i32
    }
}

impl AddressWindow {
    /// The corners are in order.
    pub open spec fn ordered(self) -> bool {
        self.x0 <= self.x1 && self.y0 <= self.y1
    }

    /// The window is in order and lies on the panel.
    pub open spec fn within(self, geometry: PanelGeometry) -> bool {
        self.ordered() && self.x1 < geometry.width && self.y1 < geometry.height
    }

    pub open spec fn columns(self) -> int {
        self.x1 - self.x0 + 1
    }

    pub open spec fn rows(self) -> int {
        self.y1 - self.y0 + 1
    }

    /// Number of pixels in the window; none when the corners are out of order.
    pub open spec fn area(self) -> int {
        if self.ordered() {
            self.columns() * self.rows()
        } else {
            0
        }
    }

    /// Whether pixel (`x`, `y`) lies in the window.
    pub open spec fn covers(self, x: int, y: int) -> bool {
        self.x0 <= x <= self.x1 && self.y0 <= y <= self.y1
    }

    /// The place of pixel (`x`, `y`) in the raster order of the window: row
    /// by row from the top, each row from the left.
    pub open spec fn offset(self, x: int, y: int) -> int
        recommends
            self.covers(x, y),
    {
        grid_index(self.columns(), x - self.x0, y - self.y0)
    }

    /// The window of the single pixel at column `x`, row `y`.
    pub open spec fn pixel(x: u16, y: u16) -> AddressWindow {
        AddressWindow { x0: x, y0: y, x1: x, y1: y }
    }

    pub fn new(x0: u16, y0: u16, x1: u16, y1: u16) -> (window: AddressWindow)
        ensures
            window == (AddressWindow { x0, y0, x1, y1 }),
    {
        AddressWindow { x0, y0, x1, y1 }
    }

    /// Whether the window is in order and lies on the panel.
    pub fn fits(&self, geometry: &PanelGeometry) -> (ok: bool)
        ensures
            ok == self.within(*geometry),
    {
        self.x0 <= self.x1 && self.y0 <= self.y1 && self.x1 < geometry.width && self.y1
            < geometry.height
    }

    /// Number of pixels in the window; none when the corners are out of order.
    pub fn pixel_count(&self) -> (n: u64)
        ensures
            n == self.area(),
    {
        if self.x0 <= self.x1 && self.y0 <= self.y1 {
            let columns: u64 = (self.x1 - self.x0) as u64 + 1;
            let rows: u64 = (self.y1 - self.y0) as u64 + 1;
            assert(columns * rows <= 0x1_0000 * 0x1_0000) by (nonlinear_arith)
                requires
                    columns <= 0x1_0000,
                    rows <= 0x1_0000,
            ;
            columns * rows
        } else {
            0
        }
    }
}

} // verus!

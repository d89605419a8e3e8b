//! A captured frame in canonical RGB, stored row by row.
use vstd::prelude::*;

use crate::color::Rgb;

verus! {

/// A raster of `width` x `height` pixels; `rows[y][x]` is the pixel at `(x, y)`.
pub struct Screen {
    width: u32,
    height: u32,
    rows: Vec<Vec<Rgb>>,
}

impl Screen {
    #[verifier::type_invariant]
    spec fn shaped(&self) -> bool {
        &&& self.rows@.len() == self.height
        &&& forall|y: int| 0 <= y < self.rows@.len() ==> (#[trigger] self.rows@[y])@.len() == self.width
    }

    pub closed spec fn spec_width(&self) -> nat {
        self.width as nat
    }

    pub closed spec fn spec_height(&self) -> nat {
        self.height as nat
    }

    /// The color stored at `(x, y)`; meaningful inside the raster only.
    pub closed spec fn color_at(&self, x: int, y: int) -> Rgb {
        self.rows@[y]@[x]
    }

    /// The pixel at `(x, y)`, or `None` outside the raster.
    pub open spec fn pixel(&self, x: int, y: int) -> Option<Rgb> {
        if 0 <= x < self.spec_width() && 0 <= y < self.spec_height() {
            Some(self.color_at(x, y))
        } else {
            None
        }
    }

    /// A raster of the given size with every pixel set to `color`.
    pub fn filled(width: u32, height: u32, color: Rgb) -> (r: Screen)
        ensures
            r.spec_width() == width,
            r.spec_height() == height,
            forall|x: int, y: int|
                0 <= x < width && 0 <= y < height ==> #[trigger] r.pixel(x, y) == Some(color),
    {
        let mut row: Vec<Rgb> = Vec::new();
        let mut i: u32 = 0;
        while i < width
            invariant
                i <= width,
                row@.len() == i,
                forall|j: int| 0 <= j < i ==> row@[j] == color,
            decreases width - i,
        {
            row.push(color);
            i = i + 1;
        }
        let mut rows: Vec<Vec<Rgb>> = Vec::new();
        let mut j: u32 = 0;
        while j < height
            invariant
                j <= height,
                row@.len() == width,
                forall|k: int| 0 <= k < row@.len() ==> row@[k] == color,
                rows@.len() == j,
                forall|y: int| 0 <= y < j ==> (#[trigger] rows@[y])@ == row@,
            decreases height - j,
        {
            rows.push(row.clone());
            j = j + 1;
        }
        Screen { width, height, rows }
    }

    pub fn width(&self) -> (r: u32)
        ensures
            r == self.spec_width(),
    {
        self.width
    }

    pub fn height(&self) -> (r: u32)
        ensures
            r == self.spec_height(),
    {
        self.height
    }

    /// The pixel at `(x, y)`, or `None` outside the raster.
    pub fn pixel_at(&self, x: u32, y: u32) -> (r: Option<Rgb>)
        ensures
            r == self.pixel(x as int, y as int),
    {
        proof {
            use_type_invariant(self);
        }
        if x < self.width && y < self.height {
            Some(self.rows[y as usize][x as usize])
        } else {
            None
        }
    }

    /// The same raster with the pixel at `(x, y)` replaced; a position outside
    /// the raster changes nothing.
    pub fn with_pixel(self, x: u32, y: u32, color: Rgb) -> (r: Screen)
        ensures
            r.spec_width() == self.spec_width(),
            r.spec_height() == self.spec_height(),
            forall|i: int, j: int|
                #[trigger] r.pixel(i, j) == if i == x && j == y && self.pixel(i, j) is Some {
                    Some(color)
                } else {
                    self.pixel(i, j)
                },
    {
        proof {
            use_type_invariant(&self);
        }
        let Screen { width, height, mut rows } = self;
        if x < width && y < height {
            let mut row = rows[y as usize].clone();
            row.set(x as usize, color);
            rows.set(y as usize, row);
        }
        Screen { width, height, rows }
    }
    /// A raster from its rows, all `width` pixels long; `None` when a row has another
    /// length or there are more rows than `u32` counts.
    pub fn from_rows(rows: Vec<Vec<Rgb>>, width: u32) -> (r: Option<Screen>)
        ensures
            r is Some <==> rows@.len() <= u32::MAX && forall|y: int|
                0 <= y < rows@.len() ==> (#[trigger] rows@[y])@.len() == width,
            r matches Some(s) ==> {
                &&& s.spec_width() == width
                &&& s.spec_height() == rows@.len()
                &&& forall|x: int, y: int|
                    0 <= x < width && 0 <= y < rows@.len() ==> #[trigger] s.pixel(x, y) == Some(
                        rows@[y]@[x],
                    )
            },
    {
        if rows.len() > u32::MAX as usize {
            return None;
        }
        let mut i: usize = 0;
        while i < rows.len()
            invariant
                i <= rows@.len(),
                forall|y: int| 0 <= y < i ==> (#[trigger] rows@[y])@.len() == width,
            decreases rows@.len() - i,
        {
            if rows[i].len() != width as usize {
                return None;
            }
            i = i + 1;
        }
        let height = rows.len() as u32;
        Some(Screen { width, height, rows })
    }
}

} // verus!

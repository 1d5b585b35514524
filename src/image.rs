use vstd::prelude::*;

use crate::color::{pointwise_sum, sums_fit, zeros, Color};

verus! {

/// A grid of color values stored row by row: the cell at `(x, y)` is the one
/// at position `y * width + x`.
pub struct Image<T> {
    size: usize,
    width: usize,
    pixels: Vec<T>,
}

/// The position of the cell at `(x, y)` in a grid whose rows are `width` long.
pub open spec fn cell_index(x: int, y: int, width: int) -> int {
    y * width + x
}

impl<T: Color> Image<T> {
    /// The cells, row by row.
    pub closed spec fn cells(&self) -> Seq<T> {
        self.pixels@
    }

    /// The number of cells.
    pub closed spec fn spec_size(&self) -> int {
        self.size as int
    }

    /// The length of a row.
    pub closed spec fn spec_width(&self) -> int {
        self.width as int
    }

    /// The number of cells.
    pub fn size(&self) -> (r: usize)
        ensures
            r == self.spec_size(),
    {
        self.size
    }

    /// The length of a row.
    pub fn width(&self) -> (r: usize)
        ensures
            r == self.spec_width(),
    {
        self.width
    }

    /// The grid holds exactly `size` cells.
    pub open spec fn wf(&self) -> bool {
        self.cells().len() == self.spec_size()
    }

    /// Whether `(x, y)` addresses a cell of the grid.
    pub open spec fn contains(&self, x: int, y: int) -> bool {
        &&& 0 <= x < self.spec_width()
        &&& 0 <= y
        &&& cell_index(x, y, self.spec_width()) < self.spec_size()
    }

    /// A grid of `size` cells, rows `width` long, every cell empty.
    pub fn new(size: usize, width: usize) -> (r: Self)
        ensures
            r.wf(),
            r.spec_size() == size,
            r.spec_width() == width,
            forall|i: int| 0 <= i < size ==> (#[trigger] r.cells()[i]).channels() == zeros(T::arity()),
    {
        let mut pixels: Vec<T> = Vec::new();
        let mut i: usize = 0;
        while i < size
            invariant
                i <= size,
                pixels@.len() == i,
                forall|j: int| 0 <= j < i ==> (#[trigger] pixels@[j]).channels() == zeros(T::arity()),
            decreases size - i,
        {
            pixels.push(T::empty());
            i = i + 1;
        }
        Image { size, width, pixels }
    }

    /// Adds `color` to the cell at `coord`; every other cell is left as it was.
    pub fn add(&mut self, coord: (usize, usize), color: T)
        requires
            old(self).wf(),
            old(self).contains(coord.0 as int, coord.1 as int),
            sums_fit(
                old(self).cells()[cell_index(coord.0 as int, coord.1 as int, old(self).spec_width())].channels(),
                color.channels(),
            ),
        ensures
            final(self).wf(),
            final(self).spec_size() == old(self).spec_size(),
            final(self).spec_width() == old(self).spec_width(),
            forall|j: int|
                0 <= j < old(self).spec_size() && j != cell_index(coord.0 as int, coord.1 as int, old(self).spec_width())
                    ==> #[trigger] final(self).cells()[j] == old(self).cells()[j],
            final(self).cells()[cell_index(coord.0 as int, coord.1 as int, old(self).spec_width())].channels()
                == pointwise_sum(
                old(self).cells()[cell_index(coord.0 as int, coord.1 as int, old(self).spec_width())].channels(),
                color.channels(),
            ),
    {
        let i = coord.1 * self.width + coord.0;
        let mut c = self.pixels[i];
        c.add(color);
        self.pixels.set(i, c);
    }

    /// The value of the cell at `coord`.
    pub fn get(&self, coord: (usize, usize)) -> (r: T)
        requires
            self.wf(),
            self.contains(coord.0 as int, coord.1 as int),
        ensures
            r == self.cells()[cell_index(coord.0 as int, coord.1 as int, self.spec_width())],
    {
        self.pixels[coord.1 * self.width + coord.0]
    }

    /// Every cell with its coordinates, `(x, y, value)`, row by row.
    pub fn into_enumerate_pixels(self) -> (r: Vec<(usize, usize, T)>)
        requires
            self.wf(),
            self.spec_width() > 0,
        ensures
            r@.len() == self.spec_size(),
            forall|i: int|
                0 <= i < self.spec_size() ==> #[trigger] r@[i] == (
                    (i % self.spec_width()) as usize,
                    (i / self.spec_width()) as usize,
                    self.cells()[i],
                ),
    {
        let mut r: Vec<(usize, usize, T)> = Vec::new();
        let mut i: usize = 0;
        while i < self.size
            invariant
                self.wf(),
                self.width > 0,
                i <= self.size,
                r@.len() == i,
                forall|j: int|
                    0 <= j < i ==> #[trigger] r@[j] == (
                        (j % self.width as int) as usize,
                        (j / self.width as int) as usize,
                        self.cells()[j],
                    ),
            decreases self.size - i,
        {
            r.push((i % self.width, i / self.width, self.pixels[i]));
            i = i + 1;
        }
        r
    }
}

} // verus!

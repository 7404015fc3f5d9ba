//! Pixels and in-memory images.
//!
//! An [`Image`] owns its pixels row by row. Its view is a [`Grid`], the
//! mathematical grid of pixels that every contract in this crate speaks of.

use vstd::prelude::*;
use crate::pixel::Pixel;

verus! {

/// The pixel at `(x, y)` in a buffer of rows `width` pixels long: red, green,
/// blue and alpha are the four bytes from `4 * (y * width + x)` on.
pub open spec fn pixel_in(data: Seq<u8>, width: nat, x: int, y: int) -> Pixel {
    let at = 4 * (y * width + x);
    Pixel { r: data[at], g: data[at + 1], b: data[at + 2], a: data[at + 3] }
}

/// The pixels of a grid, counted row by row, are fewer than its width times
/// its height; and a pixel further down, or further right in the same row,
/// has the greater count.
pub proof fn lemma_pixel_count(width: int, height: int, x: int, y: int, to_x: int, to_y: int)
    requires
        0 <= x < width,
        0 <= y <= to_y,
        0 <= to_x <= width,
        y < to_y || x < to_x,
        to_y < height || (to_y == height && to_x == 0),
    ensures
        0 <= y * width + x < to_y * width + to_x <= width * height,
{
    assert(0 <= y * width) by (nonlinear_arith)
        requires
            0 <= y,
            0 <= width,
    ;
    if y < to_y {
        assert((y + 1) * width <= to_y * width) by (nonlinear_arith)
            requires
                y + 1 <= to_y,
                0 <= width,
        ;
        assert((y + 1) * width == y * width + width) by (nonlinear_arith);
    }
    if to_y < height {
        assert((to_y + 1) * width <= height * width) by (nonlinear_arith)
            requires
                to_y + 1 <= height,
                0 <= width,
        ;
        assert((to_y + 1) * width == to_y * width + width) by (nonlinear_arith);
    }
    assert(height * width == width * height) by (nonlinear_arith);
}

/// What an image holds: rows of pixels from top to bottom, each `width` long.
#[verifier::ext_equal]
pub struct Grid {
    pub width: nat,
    pub rows: Seq<Seq<Pixel>>,
}

impl Grid {
    /// The number of rows.
    pub open spec fn height(self) -> nat {
        self.rows.len()
    }

    /// Every row is `width` pixels long.
    pub open spec fn wf(self) -> bool {
        forall|y: int| 0 <= y < self.rows.len() ==> (#[trigger] self.rows[y]).len() == self.width
    }

    /// The grid is that of an image: its rows are of one length, and neither
    /// their length nor their number exceeds `u32::MAX`.
    pub open spec fn is_image(self) -> bool {
        self.wf() && self.width <= u32::MAX && self.height() <= u32::MAX
    }

    /// `(x, y)` names a pixel of the grid.
    pub open spec fn contains(self, x: int, y: int) -> bool {
        0 <= x < self.width && 0 <= y < self.height()
    }

    /// The pixel in column `x` of row `y`.
    pub open spec fn at(self, x: int, y: int) -> Pixel
        recommends
            self.contains(x, y),
    {
        self.rows[y][x]
    }

    /// A grid of the given size with every pixel equal to `fill`.
    pub open spec fn filled(width: nat, height: nat, fill: Pixel) -> Grid {
        Grid { width, rows: Seq::new(height, |y: int| Seq::new(width, |x: int| fill)) }
    }

    /// The grid of the given size that a buffer spells out: four bytes a
    /// pixel, rows from the top and each row from the left.
    pub open spec fn from_rgba8(width: nat, height: nat, data: Seq<u8>) -> Grid {
        Grid {
            width,
            rows: Seq::new(height, |y: int| Seq::new(width, |x: int| pixel_in(data, width, x, y))),
        }
    }

    /// The grid with the pixel at `(x, y)` replaced by `p`.
    pub open spec fn put(self, x: int, y: int, p: Pixel) -> Grid
        recommends
            self.contains(x, y),
    {
        Grid { width: self.width, rows: self.rows.update(y, self.rows[y].update(x, p)) }
    }

    /// The window of `width` columns and `height` rows whose top left pixel
    /// is `(x, y)` lies inside the grid.
    pub open spec fn has_window(self, x: int, y: int, width: int, height: int) -> bool {
        &&& 0 <= x
        &&& 0 <= y
        &&& 0 <= width
        &&& 0 <= height
        &&& x + width <= self.width
        &&& y + height <= self.height()
    }

    /// The window of `width` columns and `height` rows whose top left pixel
    /// is `(x, y)`, as a grid of its own.
    pub open spec fn crop(self, x: int, y: int, width: int, height: int) -> Grid
        recommends
            self.has_window(x, y, width, height),
    {
        Grid {
            width: width as nat,
            rows: Seq::new(height as nat, |j: int| self.rows[y + j].subrange(x, x + width)),
        }
    }

    /// The part that lies inside the grid of the window of `width` columns
    /// and `height` rows whose top left pixel is `(x, y)`, as a grid of its own.
    pub open spec fn window(self, x: int, y: int, width: int, height: int) -> Grid {
        let left = if x < self.width {
            x
        } else {
            self.width as int
        };
        let top = if y < self.height() {
            y
        } else {
            self.height() as int
        };
        self.crop(
            left,
            top,
            if width < self.width - left {
                width
            } else {
                self.width - left
            },
            if height < self.height() - top {
                height
            } else {
                self.height() - top
            },
        )
    }
}

/// What a vector of rows holds.
pub open spec fn rows_of<T>(rows: Vec<Vec<T>>) -> Seq<Seq<T>> {
    rows@.map_values(|row: Vec<T>| row@)
}

/// The grid that the given rows spell out; its width is that of the first row.
pub open spec fn grid_of(rows: Vec<Vec<Pixel>>) -> Grid {
    Grid {
        width: if rows.len() == 0 {
            0
        } else {
            rows[0].len() as nat
        },
        rows: rows_of(rows),
    }
}


/// Replaces the pixel in column `x` of row `y`, leaving every length as it was.
fn put_in_rows(rows: &mut Vec<Vec<Pixel>>, x: usize, y: usize, p: Pixel)
    requires
        y < old(rows).len(),
        x < old(rows)[y as int].len(),
    ensures
        final(rows).len() == old(rows).len(),
        forall|j: int| 0 <= j < old(rows).len() && j != y ==> final(rows)[j] == old(rows)[j],
        final(rows)[y as int]@ == old(rows)[y as int]@.update(x as int, p),
    no_unwind
{
    rows[y][x] = p;
}

/// An image in memory: eight-bit RGBA pixels, at most `u32::MAX` columns and rows.
#[derive(Debug, PartialEq, Eq)]
pub struct Image {
    width: u32,
    rows: Vec<Vec<Pixel>>,
}

impl View for Image {
    type V = Grid;

    closed spec fn view(&self) -> Grid {
        Grid { width: self.width as nat, rows: rows_of(self.rows) }
    }
}

impl Clone for Image {
    fn clone(&self) -> (out: Self)
        ensures
            out@ == self@,
    {
        let out = self.crop(0, 0, self.width(), self.height());
        assert(out@ =~~= self@);
        out
    }
}

impl Image {
    #[verifier::type_invariant]
    spec fn inv(self) -> bool {
        &&& self.rows.len() <= u32::MAX
        &&& forall|y: int|
            0 <= y < self.rows.len() ==> (#[trigger] self.rows[y]).len() == self.width
    }

    /// An image of the given size with every pixel equal to `fill`.
    pub fn new(width: u32, height: u32, fill: Pixel) -> (img: Image)
        ensures
            img@ == Grid::filled(width as nat, height as nat, fill),
    {
        let mut rows: Vec<Vec<Pixel>> = Vec::new();
        let mut y: u32 = 0;
        while y < height
            invariant
                y <= height,
                rows.len() == y,
                forall|j: int| 0 <= j < y ==> (#[trigger] rows[j]).len() == width,
                forall|j: int, i: int| 0 <= j < y && 0 <= i < width ==> (#[trigger] rows[j][i]) == fill,
            decreases height - y,
        {
            let mut row: Vec<Pixel> = Vec::new();
            let mut x: u32 = 0;
            while x < width
                invariant
                    x <= width,
                    row.len() == x,
                    forall|i: int| 0 <= i < x ==> (#[trigger] row[i]) == fill,
                decreases width - x,
            {
                row.push(fill);
                x += 1;
            }
            rows.push(row);
            y += 1;
        }
        let img = Image { width, rows };
        assert(img@ =~~= Grid::filled(width as nat, height as nat, fill));
        img
    }

    /// The number of columns.
    pub fn width(&self) -> (w: u32)
        ensures
            w == self@.width,
            self@.is_image(),
    {
        proof {
            use_type_invariant(self);
        }
        self.width
    }

    /// The number of rows.
    pub fn height(&self) -> (h: u32)
        ensures
            h == self@.height(),
            self@.is_image(),
    {
        proof {
            use_type_invariant(self);
        }
        self.rows.len() as u32
    }

    /// The pixel at `(x, y)`.
    pub fn pixel(&self, x: u32, y: u32) -> (p: Pixel)
        requires
            self@.contains(x as int, y as int),
        ensures
            p == self@.at(x as int, y as int),
    {
        proof {
            use_type_invariant(self);
        }
        self.rows[y as usize][x as usize]
    }

    /// The pixel at `(x, y)`, or `None` where the image has no such pixel.
    pub fn get(&self, x: u32, y: u32) -> (p: Option<Pixel>)
        ensures
            p == if self@.contains(x as int, y as int) {
                Some(self@.at(x as int, y as int))
            } else {
                None
            },
    {
        if x < self.width() && y < self.height() {
            Some(self.pixel(x, y))
        } else {
            None
        }
    }

    /// The window of `width` columns and `height` rows whose top left pixel
    /// is `(x, y)`, as an image of its own. A window that reaches beyond the
    /// image is cut down to the part of it that lies inside.
    pub fn crop(&self, x: u32, y: u32, width: u32, height: u32) -> (out: Image)
        ensures
            out@ == self@.window(x as int, y as int, width as int, height as int),
            self@.has_window(x as int, y as int, width as int, height as int) ==> out@
                == self@.crop(x as int, y as int, width as int, height as int),
    {
        let left = if x < self.width() {
            x
        } else {
            self.width()
        };
        let top = if y < self.height() {
            y
        } else {
            self.height()
        };
        let across = if width < self.width() - left {
            width
        } else {
            self.width() - left
        };
        let down = if height < self.height() - top {
            height
        } else {
            self.height() - top
        };
        self.copy_window(left, top, across, down)
    }

    /// The window of `width` columns and `height` rows whose top left pixel
    /// is `(x, y)`, as an image of its own.
    fn copy_window(&self, x: u32, y: u32, width: u32, height: u32) -> (out: Image)
        requires
            self@.has_window(x as int, y as int, width as int, height as int),
        ensures
            out@ == self@.crop(x as int, y as int, width as int, height as int),
    {
        let mut rows: Vec<Vec<Pixel>> = Vec::new();
        let mut j: u32 = 0;
        while j < height
            invariant
                j <= height,
                rows.len() == j,
                self@.has_window(x as int, y as int, width as int, height as int),
                forall|k: int| 0 <= k < j ==> (#[trigger] rows[k]).len() == width,
                forall|k: int|
                    0 <= k < j ==> (#[trigger] rows[k])@ == self.rows[y + k]@.subrange(
                        x as int,
                        x + width,
                    ),
            decreases height - j,
        {
            proof {
                use_type_invariant(self);
            }
            let src = &self.rows[(y + j) as usize];
            let mut row: Vec<Pixel> = Vec::new();
            let mut i: u32 = 0;
            while i < width
                invariant
                    i <= width,
                    row.len() == i,
                    x + width <= src.len() <= u32::MAX,
                    forall|k: int| 0 <= k < i ==> (#[trigger] row[k]) == src[x + k],
                decreases width - i,
            {
                row.push(src[(x + i) as usize]);
                i += 1;
            }
            assert(row@ =~= src@.subrange(x as int, x + width));
            rows.push(row);
            j += 1;
        }
        let out = Image { width, rows };
        assert(out@ =~~= self@.crop(x as int, y as int, width as int, height as int));
        out
    }

    /// The image of the given size that the buffer spells out: four bytes a
    /// pixel (red, green, blue, alpha), rows from the top and each row from
    /// the left. `None` where the buffer is not `4 * width * height` bytes long.
    pub fn from_rgba8(width: u32, height: u32, data: &[u8]) -> (img: Option<Image>)
        ensures
            match img {
                Some(img) => data@.len() == 4 * (width * height) && img@ == Grid::from_rgba8(
                    width as nat,
                    height as nat,
                    data@,
                ),
                None => data@.len() != 4 * (width * height),
            },
    {
        assert(0 <= width * height <= 0xffff_ffff * 0xffff_ffff) by (nonlinear_arith)
            requires
                0 <= width <= 0xffff_ffff,
                0 <= height <= 0xffff_ffff,
        ;
        let cells: u128 = (width as u128) * (height as u128);
        if data.len() as u128 != 4 * cells {
            return None;
        }
        let mut rows: Vec<Vec<Pixel>> = Vec::new();
        let mut at: usize = 0;
        let mut y: u32 = 0;
        while y < height
            invariant
                data@.len() == 4 * (width * height),
                y <= height,
                at == 4 * (y * width),
                rows.len() == y,
                forall|j: int| 0 <= j < y ==> (#[trigger] rows[j]).len() == width,
                forall|j: int, i: int|
                    0 <= j < y && 0 <= i < width ==> (#[trigger] rows[j][i]) == pixel_in(
                        data@,
                        width as nat,
                        i,
                        j,
                    ),
            decreases height - y,
        {
            let mut row: Vec<Pixel> = Vec::new();
            let mut x: u32 = 0;
            while x < width
                invariant
                    data@.len() == 4 * (width * height),
                    y < height,
                    x <= width,
                    at == 4 * (y * width + x),
                    row.len() == x,
                    forall|i: int|
                        0 <= i < x ==> (#[trigger] row[i]) == pixel_in(
                            data@,
                            width as nat,
                            i,
                            y as int,
                        ),
                decreases width - x,
            {
                proof {
                    lemma_pixel_count(
                        width as int,
                        height as int,
                        x as int,
                        y as int,
                        x + 1,
                        y as int,
                    );
                }
                row.push(Pixel { r: data[at], g: data[at + 1], b: data[at + 2], a: data[at + 3] });
                at += 4;
                x += 1;
            }
            assert((y + 1) * width == y * width + width) by (nonlinear_arith);
            rows.push(row);
            y += 1;
        }
        let img = Image { width, rows };
        assert(img@ =~~= Grid::from_rgba8(width as nat, height as nat, data@));
        Some(img)
    }

    /// The pixels as a buffer: four bytes a pixel (red, green, blue, alpha),
    /// rows from the top and each row from the left.
    pub fn to_rgba8(&self) -> (data: Vec<u8>)
        ensures
            data@.len() == 4 * (self@.width * self@.height()),
            self@ == Grid::from_rgba8(self@.width, self@.height(), data@),
    {
        let width = self.width();
        let height = self.height();
        let mut data: Vec<u8> = Vec::new();
        let mut y: u32 = 0;
        while y < height
            invariant
                width == self@.width,
                height == self@.height(),
                self@.is_image(),
                y <= height,
                data.len() == 4 * (y * width),
                forall|i: int, j: int|
                    0 <= i < width && 0 <= j < y ==> #[trigger] pixel_in(data@, width as nat, i, j)
                        == self@.at(i, j),
            decreases height - y,
        {
            let mut x: u32 = 0;
            while x < width
                invariant
                    width == self@.width,
                    height == self@.height(),
                    self@.is_image(),
                    y < height,
                    x <= width,
                    data.len() == 4 * (y * width + x),
                    forall|i: int, j: int|
                        0 <= i < width && (0 <= j < y || (j == y && i < x)) ==> #[trigger] pixel_in(
                            data@,
                            width as nat,
                            i,
                            j,
                        ) == self@.at(i, j),
                decreases width - x,
            {
                let p = self.pixel(x, y);
                let ghost before = data@;
                data.push(p.r);
                data.push(p.g);
                data.push(p.b);
                data.push(p.a);
                proof {
                    assert forall|i: int, j: int|
                        0 <= i < width && (0 <= j < y || (j == y && i < x + 1)) implies #[trigger] pixel_in(
                        data@,
                        width as nat,
                        i,
                        j,
                    ) == self@.at(i, j) by {
                        if j < y || i < x {
                            lemma_pixel_count(
                                width as int,
                                height as int,
                                i,
                                j,
                                x as int,
                                y as int,
                            );
                            assert(pixel_in(data@, width as nat, i, j) == pixel_in(
                                before,
                                width as nat,
                                i,
                                j,
                            ));
                        }
                    }
                }
                x += 1;
            }
            assert((y + 1) * width == y * width + width) by (nonlinear_arith);
            y += 1;
        }
        assert(height * width == width * height) by (nonlinear_arith);
        assert(self@ =~~= Grid::from_rgba8(width as nat, height as nat, data@));
        data
    }

    /// The image made of the given rows, top row first, or `None` where the
    /// rows differ in length or there are more than `u32::MAX` rows or columns.
    pub fn from_rows(rows: Vec<Vec<Pixel>>) -> (img: Option<Image>)
        ensures
            match img {
                Some(img) => img@ == grid_of(rows) && grid_of(rows).is_image(),
                None => !grid_of(rows).is_image(),
            },
    {
        if rows.len() > u32::MAX as usize {
            return None;
        }
        let width: usize = if rows.len() == 0 {
            0
        } else {
            rows[0].len()
        };
        if width > u32::MAX as usize {
            return None;
        }
        let mut y: usize = 0;
        while y < rows.len()
            invariant
                y <= rows.len(),
                width == grid_of(rows).width,
                forall|k: int| 0 <= k < y ==> (#[trigger] rows[k]).len() == width,
            decreases rows.len() - y,
        {
            if rows[y].len() != width {
                assert(grid_of(rows).rows[y as int].len() != grid_of(rows).width);
                return None;
            }
            y += 1;
        }
        let ghost grid = grid_of(rows);
        let img = Image { width: width as u32, rows };
        assert(img@ =~~= grid);
        Some(img)
    }

    /// Replaces the pixel at `(x, y)` by `p`. Returns `false`, and changes
    /// nothing, where the image has no such pixel.
    pub fn set_pixel(&mut self, x: u32, y: u32, p: Pixel) -> (done: bool)
        ensures
            done == old(self)@.contains(x as int, y as int),
            final(self)@ == if done {
                old(self)@.put(x as int, y as int, p)
            } else {
                old(self)@
            },
    {
        proof {
            use_type_invariant(&*self);
        }
        if x < self.width && (y as usize) < self.rows.len() {
            put_in_rows(&mut self.rows, x as usize, y as usize, p);
            assert(self@ =~~= old(self)@.put(x as int, y as int, p));
            true
        } else {
            false
        }
    }
}

} // verus!

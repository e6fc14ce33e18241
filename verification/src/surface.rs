//! The pixel surface: a fixed-resolution 2D array of packed colors with a
//! bottom-left logical origin and a dirty flag marking contents that have
//! not yet been uploaded to the texture.

use vstd::prelude::*;

verus! {

/// Failure modes of the framebuffer core: construction rejects a pixel
/// resolution that does not fit the window, and single-pixel writes reject
/// out-of-range coordinates.
#[derive(Clone, Copy, Debug, PartialEq, Eq, Structural)]
pub enum SurfaceError {
    /// The requested surface resolution exceeds the window size on some
    /// axis, or the pixel buffer would not fit in memory.
    InvalidResolution,
    /// A single-pixel write named a coordinate outside the surface.
    OutOfBounds,
}

/// Storage index of the logical coordinate (x, y). The origin is at the
/// bottom-left and storage is row-oriented with logical y = 0 stored in
/// the last row, so (0, height - 1) is storage index 0.
pub open spec fn storage_index(width: int, height: int, x: int, y: int) -> int {
    x + (height - y - 1) * width
}

/// The packed color that the buffer `s` holds for logical coordinate (x, y).
pub open spec fn cell_at(s: Seq<u32>, width: int, height: int, x: int, y: int) -> u32 {
    s[storage_index(width, height, x, y)]
}

/// The mapped index of an in-bounds coordinate lies inside the buffer.
pub proof fn lemma_storage_index_in_range(width: int, height: int, x: int, y: int)
    requires
        0 <= x < width,
        0 <= y < height,
    ensures
        0 <= storage_index(width, height, x, y) < width * height,
{
    assert(0 <= x + (height - y - 1) * width < width * height) by (nonlinear_arith)
        requires
            0 <= x < width,
            0 <= y < height,
    ;
}

/// Distinct in-bounds coordinates map to distinct storage indices.
pub proof fn lemma_storage_index_injective(
    width: int,
    height: int,
    x1: int,
    y1: int,
    x2: int,
    y2: int,
)
    requires
        0 <= x1 < width,
        0 <= y1 < height,
        0 <= x2 < width,
        0 <= y2 < height,
        storage_index(width, height, x1, y1) == storage_index(width, height, x2, y2),
    ensures
        x1 == x2,
        y1 == y2,
{
    assert((x1 == x2 && y1 == y2)) by (nonlinear_arith)
        requires
            0 <= x1 < width,
            0 <= y1 < height,
            0 <= x2 < width,
            0 <= y2 < height,
            x1 + (height - y1 - 1) * width == x2 + (height - y2 - 1) * width,
    ;
}

/// A single-pixel write round-trips: after storing `c` at the index
/// mapped from an in-bounds (x, y) — as `put_pixel` does — the cell read
/// back at (x, y) is `c`, and the cell at every other in-bounds
/// coordinate is unchanged.
pub proof fn lemma_put_pixel_round_trip(
    s: Seq<u32>,
    width: int,
    height: int,
    x: int,
    y: int,
    c: u32,
)
    requires
        s.len() == width * height,
        0 <= x < width,
        0 <= y < height,
    ensures
        cell_at(s.update(storage_index(width, height, x, y), c), width, height, x, y) == c,
        forall|px: int, py: int|
            0 <= px < width && 0 <= py < height && (px != x || py != y) ==> cell_at(
                s.update(storage_index(width, height, x, y), c),
                width,
                height,
                px,
                py,
            ) == cell_at(s, width, height, px, py),
{
    let idx = storage_index(width, height, x, y);
    lemma_storage_index_in_range(width, height, x, y);
    assert forall|px: int, py: int|
        0 <= px < width && 0 <= py < height && (px != x || py != y) implies cell_at(
        s.update(idx, c),
        width,
        height,
        px,
        py,
    ) == cell_at(s, width, height, px, py) by {
        lemma_storage_index_in_range(width, height, px, py);
        if storage_index(width, height, px, py) == idx {
            lemma_storage_index_injective(width, height, px, py, x, y);
        }
    }
}

/// The bottom-left origin convention: logical (0, height - 1) — the top
/// row's first pixel — is storage index 0, and logical (0, 0) begins the
/// last storage row, index (height - 1) * width.
pub proof fn lemma_bottom_left_origin(width: int, height: int)
    requires
        width >= 1,
        height >= 1,
    ensures
        storage_index(width, height, 0, height - 1) == 0,
        storage_index(width, height, 0, 0) == (height - 1) * width,
{
    assert((height - (height - 1) - 1) * width == 0) by (nonlinear_arith);
    assert(storage_index(width, height, 0, height - 1) == (height - (height - 1) - 1) * width);
}

/// The extent of a span that starts at `start` and asks for `extent`
/// cells, clamped so it never reaches past `limit`; empty when the start
/// itself is at or past the limit.
pub open spec fn clamped_extent(start: int, extent: int, limit: int) -> int {
    if start >= limit {
        0
    } else if start + extent > limit {
        limit - start
    } else {
        extent
    }
}

/// Whether logical coordinate (px, py) lies in the rectangle whose
/// bottom-left corner is (x, y) and whose extent is w by h.
pub open spec fn in_rect(x: int, y: int, w: int, h: int, px: int, py: int) -> bool {
    x <= px < x + w && y <= py < y + h
}

/// Coverage of a rectangle fill in progress: `rows` full rows of width
/// `w` above the corner are done, plus the first `cols` cells of the
/// next row.
spec fn fill_covers(x: int, y: int, w: int, rows: int, cols: int, px: int, py: int) -> bool {
    in_rect(x, y, w, rows, px, py) || (py == y + rows && x <= px < x + cols)
}

/// An in-memory 2D surface of packed 32-bit colors. The buffer length is
/// fixed at `width * height` for the life of the value; every write goes
/// through the surface's own coordinate mapping; the dirty flag records
/// that the contents differ from what was last uploaded.
pub struct PixelSurface {
    width: u32,
    height: u32,
    cells: Vec<u32>,
    dirty: bool,
}

impl View for PixelSurface {
    type V = Seq<u32>;

    closed spec fn view(&self) -> Seq<u32> {
        self.cells@
    }
}

impl PixelSurface {
    /// The fixed horizontal resolution.
    pub closed spec fn width(&self) -> u32 {
        self.width
    }

    /// The fixed vertical resolution.
    pub closed spec fn height(&self) -> u32 {
        self.height
    }

    /// Whether the contents have changed since the last flush.
    pub closed spec fn dirty(&self) -> bool {
        self.dirty
    }

    /// The buffer holds exactly one cell per logical coordinate.
    pub closed spec fn wf(&self) -> bool {
        self.cells@.len() == self.width * self.height
    }

    /// Creates a surface of `resolution_x * resolution_y` black pixels, not
    /// dirty. Construction succeeds exactly when the resolution fits the
    /// window on both axes and the buffer fits in memory; a failed
    /// construction builds nothing.
    pub fn new(
        resolution_x: u32,
        resolution_y: u32,
        window_width: u32,
        window_height: u32,
    ) -> (r: Result<PixelSurface, SurfaceError>)
        ensures
            match r {
                Ok(s) => {
                    &&& resolution_x <= window_width
                    &&& resolution_y <= window_height
                    &&& resolution_x as int * resolution_y as int <= usize::MAX as int
                    &&& s.wf()
                    &&& s.width() == resolution_x
                    &&& s.height() == resolution_y
                    &&& !s.dirty()
                    &&& s@.len() == resolution_x as int * resolution_y as int
                    &&& forall|i: int| 0 <= i < s@.len() ==> s@[i] == 0u32
                },
                Err(e) => {
                    &&& e == SurfaceError::InvalidResolution
                    &&& (resolution_x > window_width || resolution_y > window_height
                        || resolution_x as int * resolution_y as int > usize::MAX as int)
                },
            },
    {
        if resolution_x > window_width || resolution_y > window_height {
            return Err(SurfaceError::InvalidResolution);
        }
        proof {
            assert(resolution_x as int * resolution_y as int <= 0xffff_fffe_0000_0001)
                by (nonlinear_arith)
                requires
                    resolution_x as int <= 0xffff_ffff,
                    resolution_y as int <= 0xffff_ffff,
            ;
        }
        let len64: u64 = (resolution_x as u64) * (resolution_y as u64);
        if len64 > usize::MAX as u64 {
            return Err(SurfaceError::InvalidResolution);
        }
        let len: usize = len64 as usize;
        let mut cells: Vec<u32> = Vec::new();
        let mut i: usize = 0;
        while i < len
            invariant
                i <= len,
                cells@.len() == i,
                forall|j: int| 0 <= j < i ==> cells@[j] == 0u32,
            decreases len - i,
        {
            cells.push(0u32);
            i = i + 1;
        }
        Ok(PixelSurface { width: resolution_x, height: resolution_y, cells, dirty: false })
    }

    /// Writes `color` at logical coordinate (x, y) and marks the surface
    /// dirty. A coordinate outside the surface is a caller error: it is
    /// reported as `OutOfBounds` and nothing is mutated — single-pixel
    /// writes are never clipped.
    pub fn put_pixel(&mut self, x: u32, y: u32, color: u32) -> (r: Result<(), SurfaceError>)
        requires
            old(self).wf(),
        ensures
            final(self).wf(),
            final(self).width() == old(self).width(),
            final(self).height() == old(self).height(),
            x < old(self).width() && y < old(self).height() ==> {
                &&& r == Ok::<(), SurfaceError>(())
                &&& final(self)@ == old(self)@.update(
                    storage_index(
                        old(self).width() as int,
                        old(self).height() as int,
                        x as int,
                        y as int,
                    ),
                    color,
                )
                &&& final(self).dirty()
            },
            x >= old(self).width() || y >= old(self).height() ==> {
                &&& r == Err::<(), SurfaceError>(SurfaceError::OutOfBounds)
                &&& *final(self) == *old(self)
            },
    {
        if x >= self.width || y >= self.height {
            return Err(SurfaceError::OutOfBounds);
        }
        proof {
            lemma_storage_index_in_range(
                self.width as int,
                self.height as int,
                x as int,
                y as int,
            );
            assert(self.cells.len() == self.cells@.len());
        }
        let row: u32 = self.height - y - 1;
        let idx: usize = (x as usize) + (row as usize) * (self.width as usize);
        self.cells[idx] = color;
        self.dirty = true;
        Ok(())
    }

    /// Fills the rectangle whose bottom-left logical corner is (x, y) and
    /// whose requested extent is `width` by `height`, clamped on each axis
    /// so the fill never reaches past the surface; a corner at or past the
    /// surface edge leaves every cell unchanged. Each touched cell is
    /// replaced by `color` outright. The surface is marked dirty even when
    /// the clamped region is empty.
    pub fn put_rect(&mut self, x: u32, y: u32, width: u32, height: u32, color: u32)
        requires
            old(self).wf(),
        ensures
            final(self).wf(),
            final(self).width() == old(self).width(),
            final(self).height() == old(self).height(),
            final(self).dirty(),
            final(self)@.len() == old(self)@.len(),
            forall|px: int, py: int|
                0 <= px < old(self).width() && 0 <= py < old(self).height() ==> #[trigger] cell_at(
                    final(self)@,
                    old(self).width() as int,
                    old(self).height() as int,
                    px,
                    py,
                ) == (if in_rect(
                    x as int,
                    y as int,
                    clamped_extent(x as int, width as int, old(self).width() as int),
                    clamped_extent(y as int, height as int, old(self).height() as int),
                    px,
                    py,
                ) {
                    color
                } else {
                    cell_at(old(self)@, old(self).width() as int, old(self).height() as int, px, py)
                }),
            x >= old(self).width() || y >= old(self).height() ==> final(self)@ == old(self)@,
    {
        let w: u32 = self.width;
        let h: u32 = self.height;
        let f_width: u32 = if x >= w {
            0
        } else if width > w - x {
            w - x
        } else {
            width
        };
        let f_height: u32 = if y >= h {
            0
        } else if height > h - y {
            h - y
        } else {
            height
        };
        let mut i: u32 = 0;
        while i < f_height
            invariant
                self.wf(),
                self.width == w,
                self.height == h,
                w == old(self).width(),
                h == old(self).height(),
                self.dirty == old(self).dirty(),
                i <= f_height,
                f_width == clamped_extent(x as int, width as int, w as int),
                f_height == clamped_extent(y as int, height as int, h as int),
                f_width == 0 || f_height == 0 ==> self@ == old(self)@,
                self@.len() == old(self)@.len(),
                forall|px: int, py: int|
                    0 <= px < w && 0 <= py < h ==> #[trigger] cell_at(
                        self@,
                        w as int,
                        h as int,
                        px,
                        py,
                    ) == (if in_rect(x as int, y as int, f_width as int, i as int, px, py) {
                        color
                    } else {
                        cell_at(old(self)@, w as int, h as int, px, py)
                    }),
            decreases f_height - i,
        {
            let row: u32 = h - (y + i) - 1;
            let mut j: u32 = 0;
            while j < f_width
                invariant
                    self.wf(),
                    self.width == w,
                    self.height == h,
                    w == old(self).width(),
                    h == old(self).height(),
                    self.dirty == old(self).dirty(),
                    i < f_height,
                    j <= f_width,
                    row == h - (y + i) - 1,
                    y + i < h,
                    f_width == clamped_extent(x as int, width as int, w as int),
                    f_height == clamped_extent(y as int, height as int, h as int),
                    f_width == 0 || f_height == 0 ==> self@ == old(self)@,
                self@.len() == old(self)@.len(),
                    forall|px: int, py: int|
                        0 <= px < w && 0 <= py < h ==> #[trigger] cell_at(
                            self@,
                            w as int,
                            h as int,
                            px,
                            py,
                        ) == (if fill_covers(
                            x as int,
                            y as int,
                            f_width as int,
                            i as int,
                            j as int,
                            px,
                            py,
                        ) {
                            color
                        } else {
                            cell_at(old(self)@, w as int, h as int, px, py)
                        }),
                decreases f_width - j,
            {
                proof {
                    lemma_storage_index_in_range(
                        w as int,
                        h as int,
                        (x + j) as int,
                        (y + i) as int,
                    );
                    assert(self.cells.len() == self.cells@.len());
                }
                let idx: usize = ((x + j) as usize) + (row as usize) * (w as usize);
                let ghost prev = self.cells@;
                self.cells[idx] = color;
                proof {
                    let iw = w as int;
                    let ih = h as int;
                    let tx = (x + j) as int;
                    let ty = (y + i) as int;
                    assert(idx == storage_index(iw, ih, tx, ty));
                    assert forall|px: int, py: int|
                        0 <= px < iw && 0 <= py < ih implies #[trigger] cell_at(
                        self@,
                        iw,
                        ih,
                        px,
                        py,
                    ) == (if fill_covers(
                        x as int,
                        y as int,
                        f_width as int,
                        i as int,
                        j + 1,
                        px,
                        py,
                    ) {
                        color
                    } else {
                        cell_at(old(self)@, iw, ih, px, py)
                    }) by {
                        lemma_storage_index_in_range(iw, ih, px, py);
                        if storage_index(iw, ih, px, py) == idx {
                            lemma_storage_index_injective(iw, ih, px, py, tx, ty);
                        } else {
                            assert(cell_at(self@, iw, ih, px, py) == cell_at(prev, iw, ih, px, py));
                        }
                    }
                }
                j = j + 1;
            }
            i = i + 1;
        }
        self.dirty = true;
    }

    /// Consumes the dirty flag for one texture upload: reports whether the
    /// contents need uploading and leaves the surface clean, with every
    /// cell as it was. Writes between two flushes coalesce: however many
    /// there were, a single flush reports them all at once.
    pub fn flush_if_dirty(&mut self) -> (need_upload: bool)
        ensures
            need_upload == old(self).dirty(),
            !final(self).dirty(),
            final(self)@ == old(self)@,
            final(self).width() == old(self).width(),
            final(self).height() == old(self).height(),
            final(self).wf() == old(self).wf(),
    {
        let need_upload: bool = self.dirty;
        self.dirty = false;
        need_upload
    }

    /// The horizontal resolution, for sizing the texture.
    pub fn resolution_x(&self) -> (r: u32)
        ensures
            r == self.width(),
    {
        self.width
    }

    /// The vertical resolution, for sizing the texture.
    pub fn resolution_y(&self) -> (r: u32)
        ensures
            r == self.height(),
    {
        self.height
    }

    /// Whether the contents have changed since the last flush.
    pub fn is_dirty(&self) -> (r: bool)
        ensures
            r == self.dirty(),
    {
        self.dirty
    }

    /// A read-only view of the packed-color buffer, row-oriented with the
    /// bottom-left origin convention, as handed to the texture upload.
    pub fn pixels(&self) -> (r: &Vec<u32>)
        ensures
            r@ == self@,
    {
        &self.cells
    }
}

} // verus!

//! A small native rasterizer: it turns a raw pixel buffer into a block of
//! ANSI-styled text, one full-block character per cell, colored by a pixel
//! sampled from the cell's area. The symbol-set and canvas-mode settings are
//! kept as configuration values; rendering always uses the solid block with
//! 24-bit foreground colors.

use vstd::prelude::*;

use crate::digits::{spec_u64_digits, u64_to_string};

verus! {

/// Symbol-set selection flags (kept as configuration; see module docs).
pub const SYMBOLS_NONE: u32 = 0;
pub const SYMBOLS_SPACE: u32 = 1;
pub const SYMBOLS_SOLID: u32 = 2;
pub const SYMBOLS_BLOCK: u32 = 4;
pub const SYMBOLS_BORDER: u32 = 8;
pub const SYMBOLS_GEOMETRIC: u32 = 16;
pub const SYMBOLS_HHALF: u32 = 32;
pub const SYMBOLS_VHALF: u32 = 64;
pub const SYMBOLS_ALL: u32 = 0xFFFF_FFFF;

/// Canvas color modes (kept as configuration).
pub const CANVAS_MODE_TRUECOLOR: u32 = 0;
pub const CANVAS_MODE_INDEXED_8: u32 = 1;

/// Largest canvas geometry accepted, in character cells.
pub const MAX_CANVAS_DIM: u16 = 10_000;

/// Largest pixel dimension accepted by the rasterizer.
pub const MAX_PIXEL_DIM: i32 = 1_000_000;

/// How the bytes of the pixel buffer are laid out.
#[derive(Clone, Copy, PartialEq, Eq, Structural, Debug)]
pub enum PixelType {
    /// Three bytes per pixel: red, green, blue.
    Rgb8,
    /// Four bytes per pixel: red, green, blue, alpha, not premultiplied.
    Rgba8Unassociated,
}

/// Bytes per pixel of a layout.
pub open spec fn bpp_of(pt: PixelType) -> int {
    match pt {
        PixelType::Rgb8 => 3,
        PixelType::Rgba8Unassociated => 4,
    }
}

/// A selection of symbol tags, accumulated by `add_by_tags`.
#[derive(Clone, Copy, PartialEq, Eq, Structural, Debug)]
pub struct SymbolMap {
    pub tags: u32,
}

impl SymbolMap {
    pub fn new() -> (r: SymbolMap)
        ensures
            r.tags == SYMBOLS_NONE,
    {
        SymbolMap { tags: SYMBOLS_NONE }
    }

    /// Add the given tags to the selection.
    pub fn add_by_tags(&mut self, symbol_tags: u32)
        ensures
            final(self).tags == old(self).tags | symbol_tags,
    {
        self.tags = self.tags | symbol_tags;
    }
}

/// Canvas configuration: output geometry in cells, symbol selection, and
/// color mode.
#[derive(Clone, Copy, PartialEq, Eq, Structural, Debug)]
pub struct Config {
    pub cols: u16,
    pub rows: u16,
    pub tags: u32,
    pub canvas_mode: u32,
    /// Rendering effort, in percent of the maximum.
    pub work_factor_percent: u32,
}

impl Config {
    /// A usable geometry: at least one cell, and bounded.
    pub open spec fn wf(self) -> bool {
        &&& 1 <= self.cols <= MAX_CANVAS_DIM
        &&& 1 <= self.rows <= MAX_CANVAS_DIM
    }

    pub fn new() -> (r: Config)
        ensures
            r.wf(),
            r.cols == 1,
            r.rows == 1,
            r.tags == SYMBOLS_NONE,
            r.canvas_mode == CANVAS_MODE_TRUECOLOR,
            r.work_factor_percent == 100,
    {
        Config {
            cols: 1,
            rows: 1,
            tags: SYMBOLS_NONE,
            canvas_mode: CANVAS_MODE_TRUECOLOR,
            work_factor_percent: 100,
        }
    }

    /// Set the rendering effort, in percent of the maximum (kept as
    /// configuration; the block rasterizer's effort is fixed).
    pub fn set_work_factor(&mut self, work_factor_percent: u32)
        requires
            work_factor_percent <= 100,
        ensures
            *final(self) == (Config {
                work_factor_percent: work_factor_percent,
                ..*old(self)
            }),
    {
        self.work_factor_percent = work_factor_percent;
    }

    /// Set the output geometry, in character cells.
    pub fn set_geometry(&mut self, width: i32, height: i32)
        requires
            1 <= width <= MAX_CANVAS_DIM,
            1 <= height <= MAX_CANVAS_DIM,
        ensures
            *final(self) == (Config { cols: width as u16, rows: height as u16, ..*old(self) }),
            final(self).wf(),
    {
        self.cols = width as u16;
        self.rows = height as u16;
    }

    /// Adopt a symbol selection.
    pub fn set_symbol_map(&mut self, symbol_map: SymbolMap)
        ensures
            *final(self) == (Config { tags: symbol_map.tags, ..*old(self) }),
    {
        self.tags = symbol_map.tags;
    }

    /// Select the color mode.
    pub fn set_canvas_mode(&mut self, canvas_mode: u32)
        ensures
            *final(self) == (Config { canvas_mode: canvas_mode, ..*old(self) }),
    {
        self.canvas_mode = canvas_mode;
    }
}

/// The pixel coordinate sampled for a cell: the cell's center, mapped into
/// the source extent.
pub open spec fn sample_coord(cell: int, n_cells: int, extent: int) -> int {
    (2 * cell + 1) * extent / (2 * n_cells)
}

/// Alpha premultiplication with the usual 8-bit shift approximation
/// (`(v*a + 127) / 256`), so a fully opaque 255 maps to 254.
pub open spec fn premul(v: int, a: int) -> int {
    (v * a + 127) / 256
}

/// The color of one cell: the sampled pixel's RGB, premultiplied by its
/// alpha for the four-byte layout.
pub open spec fn spec_cell_color(
    pt: PixelType,
    p: Seq<u8>,
    width: int,
    height: int,
    stride: int,
    cols: int,
    rows: int,
    cx: int,
    cy: int,
) -> (u8, u8, u8) {
    let px = sample_coord(cx, cols, width);
    let py = sample_coord(cy, rows, height);
    let base = py * stride + px * bpp_of(pt);
    let r = p[base] as int;
    let g = p[base + 1] as int;
    let b = p[base + 2] as int;
    match pt {
        PixelType::Rgb8 => (r as u8, g as u8, b as u8),
        PixelType::Rgba8Unassociated => {
            let a = p[base + 3] as int;
            (premul(r, a) as u8, premul(g, a) as u8, premul(b, a) as u8)
        },
    }
}

/// The cell at flat index `i` of the row-major cell grid.
pub open spec fn spec_cell_at(
    pt: PixelType,
    p: Seq<u8>,
    width: int,
    height: int,
    stride: int,
    cols: int,
    rows: int,
    i: int,
) -> (u8, u8, u8) {
    spec_cell_color(pt, p, width, height, stride, cols, rows, i % cols, i / cols)
}

/// The ANSI text of one cell: a 24-bit foreground color and a full block.
pub open spec fn spec_cell_text(c: (u8, u8, u8)) -> Seq<char> {
    "\u{1b}[38;2;"@ + spec_u64_digits(c.0 as int) + ";"@ + spec_u64_digits(c.1 as int)
        + ";"@ + spec_u64_digits(c.2 as int) + "m"@ + "█"@
}

/// The concatenated ANSI text of a run of cells.
pub open spec fn spec_cells_text(cells: Seq<(u8, u8, u8)>) -> Seq<char>
    decreases cells.len(),
{
    if cells.len() == 0 {
        Seq::empty()
    } else {
        spec_cells_text(cells.drop_last()) + spec_cell_text(cells.last())
    }
}

/// One row of the canvas: a reset, the cells, a reset.
pub open spec fn spec_row_text(cells: Seq<(u8, u8, u8)>, cols: int, row: int) -> Seq<char> {
    "\u{1b}[0m"@ + spec_cells_text(cells.subrange(row * cols, row * cols + cols)) + "\u{1b}[0m"@
}

/// The first `r` rows of the canvas text, newline-separated.
pub open spec fn spec_canvas_text_upto(cells: Seq<(u8, u8, u8)>, cols: int, r: int) -> Seq<char>
    decreases r,
{
    if r <= 0 {
        Seq::empty()
    } else if r == 1 {
        spec_row_text(cells, cols, 0)
    } else {
        spec_canvas_text_upto(cells, cols, r - 1) + "\n"@ + spec_row_text(cells, cols, r - 1)
    }
}

/// A canvas: a cell grid in its configured geometry, drawn from pixel
/// buffers and rendered as ANSI text.
pub struct Canvas {
    pub config: Config,
    pub cells: Vec<(u8, u8, u8)>,
}

impl Canvas {
    /// The canvas invariant: a usable geometry and a full cell grid.
    pub open spec fn wf(self) -> bool {
        &&& self.config.wf()
        &&& self.cells@.len() == self.config.rows * self.config.cols
    }

    /// A canvas of the configured geometry, all cells black.
    pub fn new(config: Config) -> (r: Canvas)
        requires
            config.wf(),
        ensures
            r.wf(),
            r.config == config,
            forall|i: int| 0 <= i < r.cells@.len() ==> #[trigger] r.cells@[i] == (0u8, 0u8, 0u8),
    {
        proof {
            assert(config.rows * config.cols <= 100_000_000) by (nonlinear_arith)
                requires config.rows <= MAX_CANVAS_DIM, config.cols <= MAX_CANVAS_DIM;
        }
        let n: usize = (config.rows as usize) * (config.cols as usize);
        let mut cells: Vec<(u8, u8, u8)> = Vec::new();
        let mut i: usize = 0;
        while i < n
            invariant
                0 <= i <= n,
                cells@.len() == i,
                forall|j: int| 0 <= j < i ==> #[trigger] cells@[j] == (0u8, 0u8, 0u8),
            decreases n - i,
        {
            cells.push((0u8, 0u8, 0u8));
            i = i + 1;
        }
        Canvas { config, cells }
    }

    /// Replace the cell grid with colors sampled from the given pixel
    /// buffer: cell `(cx, cy)` takes the pixel at the cell's center,
    /// premultiplied by alpha for the four-byte layout.
    pub fn draw_all_pixels(
        &mut self,
        pixel_type: PixelType,
        pixels: &[u8],
        width: i32,
        height: i32,
        rowstride: i32,
    )
        requires
            old(self).wf(),
            1 <= width <= MAX_PIXEL_DIM,
            1 <= height <= MAX_PIXEL_DIM,
            rowstride >= width * bpp_of(pixel_type),
            rowstride <= 100_000_000,
            pixels@.len() >= height * rowstride,
        ensures
            final(self).wf(),
            final(self).config == old(self).config,
            final(self).cells@ == Seq::new(
                (old(self).config.rows * old(self).config.cols) as nat,
                |i: int| spec_cell_at(
                    pixel_type, pixels@, width as int, height as int, rowstride as int,
                    old(self).config.cols as int, old(self).config.rows as int, i),
            ),
    {
        let cols: usize = self.config.cols as usize;
        let rows: usize = self.config.rows as usize;
        let bpp: usize = match pixel_type {
            PixelType::Rgb8 => 3,
            PixelType::Rgba8Unassociated => 4,
        };
        let ghost full = Seq::new(
            (self.config.rows * self.config.cols) as nat,
            |i: int| spec_cell_at(
                pixel_type, pixels@, width as int, height as int, rowstride as int,
                self.config.cols as int, self.config.rows as int, i),
        );
        let w: usize = width as usize;
        let h: usize = height as usize;
        let stride: usize = rowstride as usize;
        let plen: usize = pixels.len();
        let mut cells: Vec<(u8, u8, u8)> = Vec::new();
        let mut cy: usize = 0;
        while cy < rows
            invariant
                0 <= cy <= rows,
                cells@.len() == cy * cols,
                1 <= cols <= MAX_CANVAS_DIM,
                1 <= rows <= MAX_CANVAS_DIM,
                cols == self.config.cols,
                rows == self.config.rows,
                w == width,
                h == height,
                stride == rowstride,
                bpp == bpp_of(pixel_type),
                1 <= w <= MAX_PIXEL_DIM,
                1 <= h <= MAX_PIXEL_DIM,
                stride >= w * bpp,
                stride <= 100_000_000,
                pixels@.len() >= h * stride,
                plen == pixels@.len(),
                full == Seq::new(
                    (self.config.rows * self.config.cols) as nat,
                    |i: int| spec_cell_at(
                        pixel_type, pixels@, width as int, height as int, rowstride as int,
                        self.config.cols as int, self.config.rows as int, i),
                ),
                cells@ == full.take((cy * cols) as int),
            decreases rows - cy,
        {
            proof {
                assert(0 <= cy * cols && cy * cols <= 100_000_000) by (nonlinear_arith)
                    requires 0 <= cy <= MAX_CANVAS_DIM, 0 <= cols <= MAX_CANVAS_DIM;
                assert((2 * cy + 1) * h < 2 * rows * h
                    && (2 * cy + 1) * h <= 100_000_000_000_000int) by (nonlinear_arith)
                    requires 0 <= cy < rows, 1 <= h <= MAX_PIXEL_DIM, rows <= MAX_CANVAS_DIM;
                assert(((2 * cy + 1) * h) / (2 * rows) < h) by (nonlinear_arith)
                    requires
                        (2 * cy + 1) * h < 2 * rows * h,
                        1 <= rows,
                        0 <= (2 * cy + 1) * h,
                    ;
            }
            let py64: u64 = ((2 * (cy as u64) + 1) * (h as u64)) / (2 * (rows as u64));
            let py: usize = py64 as usize;
            let mut cx: usize = 0;
            while cx < cols
                invariant
                    0 <= cy < rows,
                    0 <= cx <= cols,
                    cells@.len() == cy * cols + cx,
                    1 <= cols <= MAX_CANVAS_DIM,
                    1 <= rows <= MAX_CANVAS_DIM,
                    cols == self.config.cols,
                    rows == self.config.rows,
                    w == width,
                    h == height,
                    stride == rowstride,
                    bpp == bpp_of(pixel_type),
                    1 <= w <= MAX_PIXEL_DIM,
                    1 <= h <= MAX_PIXEL_DIM,
                    stride >= w * bpp,
                    stride <= 100_000_000,
                    pixels@.len() >= h * stride,
                    plen == pixels@.len(),
                    py == sample_coord(cy as int, rows as int, h as int),
                    py < h,
                    full == Seq::new(
                        (self.config.rows * self.config.cols) as nat,
                        |i: int| spec_cell_at(
                            pixel_type, pixels@, width as int, height as int, rowstride as int,
                            self.config.cols as int, self.config.rows as int, i),
                    ),
                    cells@ == full.take((cy * cols + cx) as int),
                decreases cols - cx,
            {
                proof {
                    assert((2 * cx + 1) * w < 2 * cols * w
                        && (2 * cx + 1) * w <= 100_000_000_000_000int) by (nonlinear_arith)
                        requires 0 <= cx < cols, 1 <= w <= MAX_PIXEL_DIM, cols <= MAX_CANVAS_DIM;
                    assert(((2 * cx + 1) * w) / (2 * cols) < w) by (nonlinear_arith)
                        requires
                            (2 * cx + 1) * w < 2 * cols * w,
                            1 <= cols,
                            0 <= (2 * cx + 1) * w,
                        ;
                }
                let px64: u64 = ((2 * (cx as u64) + 1) * (w as u64)) / (2 * (cols as u64));
                let px: usize = px64 as usize;
                proof {
                    // the sampled pixel lies inside the buffer
                    assert(py * stride + (w - 1) * bpp + bpp <= h * stride) by (nonlinear_arith)
                        requires
                            0 <= py < h,
                            1 <= w,
                            stride >= w * bpp,
                            0 <= bpp,
                            0 <= stride,
                        ;
                    assert(px * bpp <= (w - 1) * bpp) by (nonlinear_arith)
                        requires 0 <= px < w, 0 <= bpp;
                    assert(0 <= py * stride) by (nonlinear_arith)
                        requires 0 <= py, 0 <= stride;
                    assert(0 <= px * bpp) by (nonlinear_arith)
                        requires 0 <= px, 0 <= bpp;
                }
                proof {
                    assert(py * stride <= 100_000_000_000_000int
                        && px * bpp <= 4_000_000) by (nonlinear_arith)
                        requires
                            0 <= py <= 1_000_000,
                            0 <= stride <= 100_000_000,
                            0 <= px <= 1_000_000,
                            0 <= bpp <= 4,
                        ;
                    assert(py * stride + px * bpp + bpp <= h * stride);
                }
                let base64: u64 = (py as u64) * (stride as u64) + (px as u64) * (bpp as u64);
                let base: usize = base64 as usize;
                let r = pixels[base];
                let g = pixels[base + 1];
                let b = pixels[base + 2];
                let cell: (u8, u8, u8) = match pixel_type {
                    PixelType::Rgb8 => (r, g, b),
                    PixelType::Rgba8Unassociated => {
                        let a = pixels[base + 3] as u32;
                        proof {
                            let pa = pixels@[base as int + 3] as int;
                            assert(r * pa <= 65_025 && g * pa <= 65_025 && b * pa <= 65_025
                                && 0 <= r * pa && 0 <= g * pa && 0 <= b * pa
                                && (r * pa + 127) / 256 <= 255
                                && (g * pa + 127) / 256 <= 255
                                && (b * pa + 127) / 256 <= 255)
                                by (nonlinear_arith)
                                requires
                                    0 <= r <= 255,
                                    0 <= g <= 255,
                                    0 <= b <= 255,
                                    0 <= pa <= 255,
                                ;
                        }
                        let pr = ((r as u32 * a + 127) / 256) as u8;
                        let pg = ((g as u32 * a + 127) / 256) as u8;
                        let pb = ((b as u32 * a + 127) / 256) as u8;
                        (pr, pg, pb)
                    },
                };
                proof {
                    assert(0 <= cy * cols + cx && cy * cols + cx < rows * cols)
                        by (nonlinear_arith)
                        requires 0 <= cy < rows, 0 <= cx < cols, 1 <= cols;
                    vstd::arithmetic::div_mod::lemma_fundamental_div_mod_converse(
                        cy * cols + cx, cols as int, cy as int, cx as int);
                    assert(cell == full[cy * cols + cx]);
                }
                cells.push(cell);
                proof {
                    assert(cells@ =~= full.take((cy * cols + cx + 1) as int));
                }
                cx = cx + 1;
            }
            cy = cy + 1;
            proof {
                assert(cy * cols == (cy - 1) * cols + cols) by (nonlinear_arith);
            }
        }
        proof {
            assert(full.take((rows * cols) as int) =~= full);
        }
        self.cells = cells;
    }

    /// Render the cell grid as ANSI text: rows separated by newlines, each
    /// row reset-framed, each cell a 24-bit-colored full block.
    pub fn build_ansi(&self) -> (s: String)
        requires
            self.wf(),
        ensures
            s@ == spec_canvas_text_upto(self.cells@, self.config.cols as int,
                self.config.rows as int),
    {
        let cols: usize = self.config.cols as usize;
        let rows: usize = self.config.rows as usize;
        let ghost cells = self.cells@;
        let mut s = String::new();
        let mut cy: usize = 0;
        while cy < rows
            invariant
                0 <= cy <= rows,
                1 <= cols <= MAX_CANVAS_DIM,
                1 <= rows <= MAX_CANVAS_DIM,
                cols == self.config.cols,
                rows == self.config.rows,
                cells == self.cells@,
                self.cells@.len() == rows * cols,
                s@ == spec_canvas_text_upto(cells, cols as int, cy as int),
            decreases rows - cy,
        {
            proof {
                reveal_strlit("\n");
                reveal_strlit("\u{1b}[0m");
                assert(cy * cols + cols <= rows * cols) by (nonlinear_arith)
                    requires 0 <= cy < rows, 0 <= cols;
                assert(0 <= cy * cols) by (nonlinear_arith)
                    requires 0 <= cy, 0 <= cols;
            }
            if cy > 0 {
                s.append("\n");
            }
            s.append("\u{1b}[0m");
            proof {
                assert(0 <= cy * cols && cy * cols + cols <= rows * cols
                    && rows * cols <= 100_000_000) by (nonlinear_arith)
                    requires 0 <= cy < rows, 1 <= cols <= MAX_CANVAS_DIM, rows <= MAX_CANVAS_DIM;
            }
            let row_start: usize = cy * cols;
            let ghost row_cells = cells.subrange(
                (cy * cols) as int, (cy * cols + cols) as int);
            let ghost head = s@;
            let mut cx: usize = 0;
            while cx < cols
                invariant
                    0 <= cy < rows,
                    0 <= cx <= cols,
                    cols == self.config.cols,
                    rows == self.config.rows,
                    cells == self.cells@,
                    self.cells@.len() == rows * cols,
                    row_start == cy * cols,
                    row_start + cols <= rows * cols,
                    row_start + cols <= 100_000_000,
                    row_cells == cells.subrange(row_start as int, (row_start + cols) as int),
                    head == s@.take(head.len() as int) && head.len() <= s@.len(),
                    s@ == head + spec_cells_text(row_cells.take(cx as int)),
                decreases cols - cx,
            {
                let cell = self.cells[row_start + cx];
                let t = cell_text(cell);
                s.append(t.as_str());
                proof {
                    assert(row_cells.take(cx as int + 1).drop_last()
                        =~= row_cells.take(cx as int));
                    assert(row_cells.take(cx as int + 1).last() == cells[(row_start + cx) as int]);
                    assert(s@ =~= head + spec_cells_text(row_cells.take(cx as int + 1)));
                    assert(s@.take(head.len() as int) =~= head);
                }
                cx = cx + 1;
            }
            s.append("\u{1b}[0m");
            proof {
                reveal_strlit("\u{1b}[0m");
                assert(row_cells.take(cols as int) =~= row_cells);
                assert(s@ =~= spec_canvas_text_upto(cells, cols as int, cy as int + 1));
            }
            cy = cy + 1;
        }
        s
    }
}

/// The ANSI text of one cell.
fn cell_text(c: (u8, u8, u8)) -> (s: String)
    ensures
        s@ == spec_cell_text(c),
{
    proof {
        reveal_strlit("\u{1b}[38;2;");
        reveal_strlit(";");
        reveal_strlit("m");
        reveal_strlit("█");
    }
    let mut s = String::from_str("\u{1b}[38;2;");
    let r = u64_to_string(c.0 as u64);
    s.append(r.as_str());
    s.append(";");
    let g = u64_to_string(c.1 as u64);
    s.append(g.as_str());
    s.append(";");
    let b = u64_to_string(c.2 as u64);
    s.append(b.as_str());
    s.append("m");
    s.append("█");
    proof {
        assert(s@ =~= spec_cell_text(c));
    }
    s
}

} // verus!

//! The display: a bit-packed monochrome pixel grid with two resolutions.
//!
//! The buffer is sized for the larger resolution and is never reallocated; the
//! mode only selects how many of its bits are the active picture and how a
//! row and a column address one of them. Pixel `(row, col)` is bit
//! `row * width + col` of the buffer, bit `i` being bit `i % 8` of byte
//! `i / 8`, least significant bit first.

use vstd::prelude::*;
use vstd::arithmetic::div_mod::{lemma_fundamental_div_mod, lemma_fundamental_div_mod_converse};
use crate::bits::{bit8, lemma_bit8_flip, lemma_bit8_or, lemma_bit8_shl4, lemma_bit8_shr4, lemma_bit8_zero};

verus! {

/// Rows of the picture in the standard resolution.
pub const STANDARD_SCREEN_HEIGHT: usize = 32;

/// Columns of the picture in the standard resolution.
pub const STANDARD_SCREEN_WIDTH: usize = 64;

/// Rows of the picture in the super resolution.
pub const SUPER_SCREEN_HEIGHT: usize = STANDARD_SCREEN_HEIGHT * 2;

/// Columns of the picture in the super resolution.
pub const SUPER_SCREEN_WIDTH: usize = STANDARD_SCREEN_WIDTH * 2;

/// Bytes in the pixel buffer: one bit for each pixel of the super resolution.
pub const SCREEN_BYTES: usize = 1024;

/// The resolution in force: 64 by 32 pixels, or 128 by 64.
#[derive(Copy, Clone, Debug, Eq, PartialEq, Structural)]
pub enum ScreenMode {
    Standard,
    Super,
}

/// What happens to a sprite pixel whose target lies outside the active
/// picture: it is dropped, or it wraps around to the opposite edge.
#[derive(Copy, Clone, Debug, Eq, PartialEq, Structural)]
pub enum DrawMode {
    Clip,
    Wrap,
}

/// The display.
pub struct Screen {
    /// The resolution in force.
    pub mode: ScreenMode,
    /// The pixel buffer, one bit to a pixel.
    pub pixels: [u8; SCREEN_BYTES],
}

/// Width in pixels of the picture in `mode`.
pub open spec fn mode_width(mode: ScreenMode) -> int {
    match mode {
        ScreenMode::Standard => 64,
        ScreenMode::Super => 128,
    }
}

/// Height in pixels of the picture in `mode`.
pub open spec fn mode_height(mode: ScreenMode) -> int {
    match mode {
        ScreenMode::Standard => 32,
        ScreenMode::Super => 64,
    }
}

/// The 8192 bits of a buffer of 1024 bytes in their addressing order: bit `i`
/// is bit `i % 8` of byte `i / 8`, counted from the least significant.
pub open spec fn unpack(bytes: Seq<u8>) -> Seq<bool> {
    Seq::new(8192, |i: int| bit8(bytes[i / 8], (i % 8) as u8))
}

/// The display as mathematics: the resolution mode and the 8192 bits of the
/// buffer in their addressing order.
#[verifier::ext_equal]
pub struct ScreenView {
    pub mode: ScreenMode,
    pub bits: Seq<bool>,
}

impl ScreenView {
    /// Every buffer has exactly 8192 bits.
    pub open spec fn wf(self) -> bool {
        self.bits.len() == 8192
    }

    /// Width in pixels of the active picture.
    pub open spec fn width(self) -> int {
        mode_width(self.mode)
    }

    /// Height in pixels of the active picture.
    pub open spec fn height(self) -> int {
        mode_height(self.mode)
    }

    /// Number of bits of the active picture; they are the first bits of the
    /// buffer.
    pub open spec fn active(self) -> int {
        self.width() * self.height()
    }

    /// The pixel at `row` and `col` of the active picture.
    pub open spec fn pixel(self, row: int, col: int) -> bool {
        self.bits[row * self.width() + col]
    }

    /// The same buffer read in another mode.
    pub open spec fn with_mode(self, mode: ScreenMode) -> ScreenView {
        ScreenView { mode, bits: self.bits }
    }

    /// The picture with every pixel off. Bits beyond the active picture stay.
    pub open spec fn cleared(self) -> ScreenView {
        ScreenView {
            mode: self.mode,
            bits: Seq::new(
                8192,
                |i: int|
                    if i < self.active() {
                        false
                    } else {
                        self.bits[i]
                    },
            ),
        }
    }

    /// The buffer with every bit off, in the standard resolution.
    pub open spec fn blank() -> ScreenView {
        ScreenView { mode: ScreenMode::Standard, bits: Seq::new(8192, |i: int| false) }
    }

    /// The buffer with the pixel at `row` and `col` inverted.
    pub open spec fn flipped(self, row: int, col: int) -> ScreenView {
        let i = row * self.width() + col;
        ScreenView { mode: self.mode, bits: self.bits.update(i, !self.bits[i]) }
    }

    /// The picture moved down by `rows` rows: a pixel shows what stood `rows`
    /// rows above it, and the rows that nothing moves into are off. Bits
    /// beyond the active picture stay.
    pub open spec fn scrolled_down(self, rows: int) -> ScreenView {
        ScreenView {
            mode: self.mode,
            bits: Seq::new(
                8192,
                |i: int|
                    if i < self.active() {
                        let row = i / self.width();
                        let col = i % self.width();
                        row >= rows && self.pixel(row - rows, col)
                    } else {
                        self.bits[i]
                    },
            ),
        }
    }

    /// The picture moved right by four pixels: a pixel shows what stood four
    /// columns to its left, and the four leftmost columns are off. Bits
    /// beyond the active picture stay.
    pub open spec fn scrolled_right(self) -> ScreenView {
        ScreenView {
            mode: self.mode,
            bits: Seq::new(
                8192,
                |i: int|
                    if i < self.active() {
                        let row = i / self.width();
                        let col = i % self.width();
                        col >= 4 && self.pixel(row, col - 4)
                    } else {
                        self.bits[i]
                    },
            ),
        }
    }

    /// The picture with the columns from `from` up to, not including, `to`
    /// turned off.
    pub open spec fn without_columns(self, from: int, to: int) -> ScreenView {
        ScreenView {
            mode: self.mode,
            bits: Seq::new(
                8192,
                |i: int|
                    if i < self.active() && from <= i % self.width() < to {
                        false
                    } else {
                        self.bits[i]
                    },
            ),
        }
    }

    /// The picture moved left by four pixels: a pixel shows what stood four
    /// columns to its right, and the four rightmost columns are off. Bits
    /// beyond the active picture stay.
    pub open spec fn scrolled_left(self) -> ScreenView {
        ScreenView {
            mode: self.mode,
            bits: Seq::new(
                8192,
                |i: int|
                    if i < self.active() {
                        let row = i / self.width();
                        let col = i % self.width();
                        col + 4 < self.width() && self.pixel(row, col + 4)
                    } else {
                        self.bits[i]
                    },
            ),
        }
    }
}

/// Byte `j` of a buffer whose rows of `row_bytes` bytes each moved four
/// pixels to the right: its low half comes up, and the high half of the byte
/// before it in the row comes in below.
spec fn right_byte(bytes: Seq<u8>, row_bytes: int, j: int) -> u8 {
    if j % row_bytes == 0 {
        bytes[j] << 4
    } else {
        (bytes[j] << 4) | (bytes[j - 1] >> 4)
    }
}

/// Byte `j` of a buffer whose rows of `row_bytes` bytes each moved four
/// pixels to the left: its high half comes down, and the low half of the byte
/// after it in the row comes in above.
spec fn left_byte(bytes: Seq<u8>, row_bytes: int, j: int) -> u8 {
    if j % row_bytes == row_bytes - 1 {
        bytes[j] >> 4
    } else {
        (bytes[j] >> 4) | (bytes[j + 1] << 4)
    }
}

/// Whether `width` and `height` are those of one of the two resolutions.
spec fn is_resolution(width: int, height: int) -> bool {
    (width == 64 && height == 32) || (width == 128 && height == 64)
}

/// The picture has 2048 bits in the standard resolution and 8192 in the super
/// resolution, eight to a byte.
proof fn lemma_area(width: int, height: int)
    requires
        is_resolution(width, height),
    ensures
        width * height == (if width == 64 {
            2048int
        } else {
            8192int
        }),
        (width / 8) * height * 8 == width * height,
{
    if width == 64 {
        assert(width * height == 2048 && (width / 8) * height == 256) by (nonlinear_arith)
            requires
                width == 64 && height == 32,
        ;
    } else {
        assert(width * height == 8192 && (width / 8) * height == 1024) by (nonlinear_arith)
            requires
                width == 128 && height == 64,
        ;
    }
}

/// A row and a column of the picture address one bit of it, from which both
/// can be read back.
proof fn lemma_grid_join(width: int, height: int, row: int, col: int)
    requires
        is_resolution(width, height),
        0 <= row < height,
        0 <= col < width,
    ensures
        0 <= row * width + col < width * height,
        (row * width + col) / width == row,
        (row * width + col) % width == col,
{
    lemma_area(width, height);
    if width == 64 {
        assert(row * width == row * 64);
    } else {
        assert(row * width == row * 128);
    }
}

/// A bit of the picture has a row and a column, and they address it.
proof fn lemma_grid_split(width: int, height: int, p: int)
    requires
        is_resolution(width, height),
        0 <= p < width * height,
    ensures
        0 <= p / width < height,
        0 <= p % width < width,
        (p / width) * width + p % width == p,
{
    lemma_area(width, height);
    if width == 64 {
        assert(p / width == p / 64 && p % width == p % 64);
        assert((p / width) * width == (p / 64) * 64);
    } else {
        assert(p / width == p / 128 && p % width == p % 128);
        assert((p / width) * width == (p / 128) * 128);
    }
}

/// Bytes and rows of 64 bits: the byte of bit `p` within its row, and its
/// place within the byte, are those of its column.
proof fn lemma_bytes_64(p: int)
    requires
        0 <= p,
    ensures
        (p / 8) % 8 == (p % 64) / 8,
        p % 8 == (p % 64) % 8,
{
    let q = p / 64;
    let r = p % 64;
    assert(p == 64 * q + r);
    assert(p / 8 == 8 * q + r / 8);
    assert(p % 8 == r % 8);
}

/// Bytes and rows of 128 bits: the byte of bit `p` within its row, and its
/// place within the byte, are those of its column.
proof fn lemma_bytes_128(p: int)
    requires
        0 <= p,
    ensures
        (p / 8) % 16 == (p % 128) / 8,
        p % 8 == (p % 128) % 8,
{
    let q = p / 128;
    let r = p % 128;
    assert(p == 128 * q + r);
    assert(p / 8 == 16 * q + r / 8);
    assert(p % 8 == r % 8);
}

/// How the byte and the place in the byte of a bit of the picture relate to
/// its column: rows start on byte boundaries.
proof fn lemma_grid_bytes(width: int, height: int, p: int)
    requires
        is_resolution(width, height),
        0 <= p < width * height,
    ensures
        (p / 8) % (width / 8) == (p % width) / 8,
        p % 8 == (p % width) % 8,
        p / 8 < (width / 8) * height,
{
    lemma_area(width, height);
    if width == 64 {
        lemma_bytes_64(p);
        assert(p % width == p % 64);
        assert((p / 8) % (width / 8) == (p / 8) % 8);
    } else {
        lemma_bytes_128(p);
        assert(p % width == p % 128);
        assert((p / 8) % (width / 8) == (p / 8) % 16);
    }
}

/// Going `i` steps on from `a` around a ring of `m` places and then `a` steps
/// back leads to `i`.
proof fn lemma_wrap_back(a: int, i: int, m: int)
    requires
        0 <= i < m,
    ensures
        (((a + i) % m) - a) % m == i,
{
    let q = (a + i) / m;
    let r = (a + i) % m;
    lemma_fundamental_div_mod(a + i, m);
    assert(r - a == (-q) * m + i) by (nonlinear_arith)
        requires
            a + i == m * q + r,
    ;
    lemma_fundamental_div_mod_converse(r - a, m, -q, i);
}

/// Only one place of a ring of `m` places lies `i` steps on from `a`.
proof fn lemma_wrap_unique(a: int, i: int, r: int, m: int)
    requires
        0 <= r < m,
        (r - a) % m == i,
    ensures
        r == (a + i) % m,
{
    let q = (r - a) / m;
    lemma_fundamental_div_mod(r - a, m);
    assert(a + i == (-q) * m + r) by (nonlinear_arith)
        requires
            r - a == m * q + i,
    ;
    lemma_fundamental_div_mod_converse(a + i, m, -q, r);
}

/// Bytes of the active picture in `mode`.
spec fn active_bytes(mode: ScreenMode) -> int {
    (mode_width(mode) / 8) * mode_height(mode)
}

/// A buffer whose bytes moved down by `shift` places within the active
/// picture, `shift` being the bytes of `rows` rows or of the whole picture,
/// shows the picture scrolled down by `rows` rows.
proof fn lemma_scroll_down_bytes(mode: ScreenMode, before: Seq<u8>, after: Seq<u8>, rows: int, shift: int)
    requires
        0 <= rows,
        shift == (if rows < mode_height(mode) {
            (mode_width(mode) / 8) * rows
        } else {
            active_bytes(mode)
        }),
        forall|j: int|
            0 <= j < active_bytes(mode) ==> after[j] == (if j >= shift {
                before[j - shift]
            } else {
                0u8
            }),
        forall|j: int| active_bytes(mode) <= j < 1024 ==> after[j] == before[j],
    ensures
        (ScreenView { mode, bits: unpack(after) }) == (ScreenView {
            mode,
            bits: unpack(before),
        }).scrolled_down(rows),
{
    let was = ScreenView { mode, bits: unpack(before) };
    let w = was.width();
    let h = was.height();
    lemma_area(w, h);
    assert(shift * 8 == (if rows < h {
        w * rows
    } else {
        w * h
    })) by (nonlinear_arith)
        requires
            is_resolution(w, h),
            shift == (if rows < h {
                (w / 8) * rows
            } else {
                (w / 8) * h
            }),
    ;
    assert forall|i: int| 0 <= i < 8192 implies unpack(after)[i] == was.scrolled_down(rows).bits[i] by {
        if i < was.active() {
            lemma_grid_split(w, h, i);
            lemma_grid_bytes(w, h, i);
            let j = i / 8;
            if j >= shift {
                assert(rows < h);
                assert((i / w - rows) * w == (i / w) * w - rows * w) by (nonlinear_arith);
                assert((i - 8 * shift) / 8 == j - shift);
            } else {
                lemma_bit8_zero((i % 8) as u8);
            }
        }
    }
    assert(unpack(after) =~= was.scrolled_down(rows).bits);
}

/// A buffer whose bytes moved up by half a byte within each row of the active
/// picture shows the picture scrolled right by four pixels.
proof fn lemma_scroll_right_bytes(mode: ScreenMode, before: Seq<u8>, after: Seq<u8>)
    requires
        forall|j: int|
            0 <= j < active_bytes(mode) ==> after[j] == right_byte(before, mode_width(mode) / 8, j),
        forall|j: int| active_bytes(mode) <= j < 1024 ==> after[j] == before[j],
    ensures
        (ScreenView { mode, bits: unpack(after) }) == (ScreenView {
            mode,
            bits: unpack(before),
        }).scrolled_right(),
{
    let was = ScreenView { mode, bits: unpack(before) };
    let w = was.width();
    let h = was.height();
    lemma_area(w, h);
    assert forall|i: int| 0 <= i < 8192 implies unpack(after)[i] == was.scrolled_right().bits[i] by {
        if i < was.active() {
            let j = i / 8;
            let k = (i % 8) as u8;
            lemma_grid_split(w, h, i);
            lemma_grid_bytes(w, h, i);
            lemma_bit8_shl4(before[j], k);
            if j % (w / 8) != 0 {
                lemma_bit8_shr4(before[j - 1], k);
                lemma_bit8_or(before[j] << 4, before[j - 1] >> 4, k);
            }
        }
    }
    assert(unpack(after) =~= was.scrolled_right().bits);
}

/// A buffer whose bytes moved down by half a byte within each row of the
/// active picture shows the picture scrolled left by four pixels.
proof fn lemma_scroll_left_bytes(mode: ScreenMode, before: Seq<u8>, after: Seq<u8>)
    requires
        forall|j: int|
            0 <= j < active_bytes(mode) ==> after[j] == left_byte(before, mode_width(mode) / 8, j),
        forall|j: int| active_bytes(mode) <= j < 1024 ==> after[j] == before[j],
    ensures
        (ScreenView { mode, bits: unpack(after) }) == (ScreenView {
            mode,
            bits: unpack(before),
        }).scrolled_left(),
{
    let was = ScreenView { mode, bits: unpack(before) };
    let w = was.width();
    let h = was.height();
    lemma_area(w, h);
    assert forall|i: int| 0 <= i < 8192 implies unpack(after)[i] == was.scrolled_left().bits[i] by {
        if i < was.active() {
            let j = i / 8;
            let k = (i % 8) as u8;
            lemma_grid_split(w, h, i);
            lemma_grid_bytes(w, h, i);
            lemma_bit8_shr4(before[j], k);
            if j % (w / 8) != w / 8 - 1 {
                lemma_bit8_shl4(before[j + 1], k);
                lemma_bit8_or(before[j] >> 4, before[j + 1] << 4, k);
            }
        }
    }
    assert(unpack(after) =~= was.scrolled_left().bits);
}

impl ScreenView {
    /// Scrolling right and then left restores the picture but for its four
    /// rightmost columns: what stood there was pushed out by the first
    /// scroll, and the second brings blank columns back in.
    pub proof fn lemma_scroll_right_then_left(self)
        requires
            self.wf(),
        ensures
            self.scrolled_right().scrolled_left() == self.without_columns(
                self.width() - 4,
                self.width(),
            ),
    {
        let w = self.width();
        let h = self.height();
        let right = self.scrolled_right();
        let there = right.scrolled_left();
        let wanted = self.without_columns(w - 4, w);
        assert forall|i: int| 0 <= i < 8192 implies there.bits[i] == wanted.bits[i] by {
            if i < self.active() {
                lemma_grid_split(w, h, i);
                if i % w + 4 < w {
                    lemma_grid_join(w, h, i / w, i % w + 4);
                }
            }
        }
        assert(there.bits =~= wanted.bits);
    }

    /// Scrolling left and then right restores the picture but for its four
    /// leftmost columns: what stood there was pushed out by the first scroll,
    /// and the second brings blank columns back in.
    pub proof fn lemma_scroll_left_then_right(self)
        requires
            self.wf(),
        ensures
            self.scrolled_left().scrolled_right() == self.without_columns(0, 4),
    {
        let w = self.width();
        let h = self.height();
        let left = self.scrolled_left();
        let there = left.scrolled_right();
        let wanted = self.without_columns(0, 4);
        assert forall|i: int| 0 <= i < 8192 implies there.bits[i] == wanted.bits[i] by {
            if i < self.active() {
                lemma_grid_split(w, h, i);
                if i % w >= 4 {
                    lemma_grid_join(w, h, i / w, i % w - 4);
                }
            }
        }
        assert(there.bits =~= wanted.bits);
    }
}

/// A sprite placed on the display: `rows` rows of `cols` pixels whose top
/// left corner goes to column `x` and row `y`. The rows are stored one after
/// the other, `cols / 8` bytes each, the leftmost pixel of a byte in its most
/// significant bit.
pub struct Sprite {
    pub x: int,
    pub y: int,
    pub rows: int,
    pub cols: int,
    pub data: Seq<u8>,
    pub policy: DrawMode,
}

impl Sprite {
    /// Whether the sprite's own pixel in its row `i` and column `j` is set.
    pub open spec fn bit(self, i: int, j: int) -> bool {
        self.data[i * (self.cols / 8) + j / 8] & (0x80u8 >> ((j % 8) as u8)) != 0
    }
}

/// The sprite that a draw of height `n` at `x` and `y` means in `mode`: `n`
/// rows of eight pixels, but sixteen rows of sixteen pixels where the super
/// resolution is in force and `n` is zero.
pub open spec fn sprite_for(mode: ScreenMode, x: int, y: int, n: int, data: Seq<u8>, policy: DrawMode) -> Sprite {
    if mode == ScreenMode::Super && n == 0 {
        Sprite { x, y, rows: 16, cols: 16, data, policy }
    } else {
        Sprite { x, y, rows: n, cols: 8, data, policy }
    }
}

/// Bytes of sprite data that a draw of height `n` reads in `mode`: one for
/// each of `n` rows, but 32 where the super resolution is in force and `n` is
/// zero.
pub open spec fn sprite_len(mode: ScreenMode, n: int) -> int {
    if mode == ScreenMode::Super && n == 0 {
        32
    } else {
        n
    }
}

impl ScreenView {
    /// The row of the sprite that lands on display row `row`: under `Clip`
    /// the distance from the sprite's top, under `Wrap` that distance around
    /// the picture's height.
    pub open spec fn source_row(self, s: Sprite, row: int) -> int {
        match s.policy {
            DrawMode::Clip => row - s.y,
            DrawMode::Wrap => (row - s.y) % self.height(),
        }
    }

    /// The column of the sprite that lands on display column `col`.
    pub open spec fn source_col(self, s: Sprite, col: int) -> int {
        match s.policy {
            DrawMode::Clip => col - s.x,
            DrawMode::Wrap => (col - s.x) % self.width(),
        }
    }

    /// Whether a set pixel of the sprite lands on bit `p` of the active
    /// picture. A sprite is at most sixteen pixels wide and high, less than
    /// the picture in either resolution, so no two of its pixels land on the
    /// same bit, and the one that lands on `p` is found from `p`.
    pub open spec fn hit(self, s: Sprite, p: int) -> bool {
        let i = self.source_row(s, p / self.width());
        let j = self.source_col(s, p % self.width());
        0 <= i < s.rows && 0 <= j < s.cols && s.bit(i, j)
    }

    /// The picture after the sprite was drawn: every pixel that a set pixel of
    /// the sprite lands on is inverted, every other bit stays.
    pub open spec fn drawn(self, s: Sprite) -> ScreenView {
        ScreenView {
            mode: self.mode,
            bits: Seq::new(
                8192,
                |p: int|
                    if p < self.active() {
                        self.bits[p] != self.hit(s, p)
                    } else {
                        self.bits[p]
                    },
            ),
        }
    }

    /// Whether drawing the sprite turns off a pixel that was on.
    pub open spec fn collides(self, s: Sprite) -> bool {
        exists|p: int| 0 <= p < self.active() && self.bits[p] && self.hit(s, p)
    }

    /// Whether a set pixel of the sprite that comes before row `row` and
    /// column `col` of the sprite, rows counted first, lands on bit `p`.
    spec fn hit_before(self, s: Sprite, p: int, row: int, col: int) -> bool {
        let i = self.source_row(s, p / self.width());
        let j = self.source_col(s, p % self.width());
        self.hit(s, p) && (i < row || (i == row && j < col))
    }

    /// The picture when only the sprite's pixels before row `row` and column
    /// `col` have been drawn.
    spec fn drawn_before(self, s: Sprite, row: int, col: int) -> ScreenView {
        ScreenView {
            mode: self.mode,
            bits: Seq::new(
                8192,
                |p: int|
                    if p < self.active() {
                        self.bits[p] != self.hit_before(s, p, row, col)
                    } else {
                        self.bits[p]
                    },
            ),
        }
    }

    /// Whether one of the sprite's pixels before row `row` and column `col`
    /// lands on a pixel that was on.
    spec fn collides_before(self, s: Sprite, row: int, col: int) -> bool {
        exists|p: int| 0 <= p < self.active() && self.bits[p] && self.hit_before(s, p, row, col)
    }

    /// The bit of the active picture on which the sprite's pixel in its row
    /// `i` and column `j` lands: row `y + i` and column `x + j`, taken around
    /// the picture under `Wrap`, and no bit at all under `Clip` where that
    /// row or column lies outside the picture.
    pub open spec fn target(self, s: Sprite, i: int, j: int) -> Option<int> {
        match s.policy {
            DrawMode::Clip => if s.y + i < self.height() && s.x + j < self.width() {
                Some((s.y + i) * self.width() + (s.x + j))
            } else {
                None
            },
            DrawMode::Wrap => Some(
                ((s.y + i) % self.height()) * self.width() + (s.x + j) % self.width(),
            ),
        }
    }

    /// Whether the sprite is one that the machine can ask for: at most
    /// sixteen rows, eight or sixteen columns, at a position that a register
    /// can hold.
    pub open spec fn fits(self, s: Sprite) -> bool {
        &&& self.wf()
        &&& 0 <= s.x < 256
        &&& 0 <= s.y < 256
        &&& 0 <= s.rows <= 16
        &&& (s.cols == 8 || s.cols == 16)
    }

    /// Drawing a sprite twice in the same place brings the display back to
    /// what it was. The second draw reports a collision exactly if the sprite
    /// covers a pixel that was off before the first draw: then the first draw
    /// turned it on and the second turns it off again.
    pub proof fn lemma_draw_twice(self, s: Sprite)
        requires
            self.wf(),
        ensures
            self.drawn(s).drawn(s) == self,
            self.drawn(s).collides(s) <==> exists|p: int|
                0 <= p < self.active() && !self.bits[p] && self.hit(s, p),
    {
        let once = self.drawn(s);
        assert forall|p: int| 0 <= p < once.active() implies once.hit(s, p) == self.hit(s, p) by {}
        assert(once.drawn(s).bits =~= self.bits);
        lemma_area(self.width(), self.height());
        if once.collides(s) {
            let p = choose|p: int| 0 <= p < once.active() && once.bits[p] && once.hit(s, p);
            assert(0 <= p < self.active() && !self.bits[p] && self.hit(s, p));
        }
        if exists|p: int| 0 <= p < self.active() && !self.bits[p] && self.hit(s, p) {
            let p = choose|p: int| 0 <= p < self.active() && !self.bits[p] && self.hit(s, p);
            assert(0 <= p < once.active() && once.bits[p] && once.hit(s, p));
        }
    }

    /// A bit of the picture is hit exactly if it is the target of a set pixel
    /// of the sprite.
    pub proof fn lemma_hit_is_target(self, s: Sprite, p: int)
        requires
            self.fits(s),
            0 <= p < self.active(),
        ensures
            self.hit(s, p) <==> exists|i: int, j: int|
                0 <= i < s.rows && 0 <= j < s.cols && s.bit(i, j) && #[trigger] self.target(s, i, j)
                    == Some(p),
    {
        let w = self.width();
        if self.hit(s, p) {
            let i = self.source_row(s, p / w);
            let j = self.source_col(s, p % w);
            self.lemma_source_unique(s, i, j, p);
            assert(0 <= i < s.rows && 0 <= j < s.cols && s.bit(i, j) && self.target(s, i, j)
                == Some(p));
        }
        if exists|i: int, j: int|
            0 <= i < s.rows && 0 <= j < s.cols && s.bit(i, j) && #[trigger] self.target(s, i, j)
                == Some(p) {
            let (i, j) = choose|i: int, j: int|
                0 <= i < s.rows && 0 <= j < s.cols && s.bit(i, j) && #[trigger] self.target(s, i, j)
                    == Some(p);
            self.lemma_target_source(s, i, j);
        }
    }

    /// A sprite without rows changes nothing and collides with nothing.
    pub proof fn lemma_draw_nothing(self, s: Sprite)
        requires
            self.wf(),
            s.rows <= 0,
        ensures
            self.drawn(s) == self,
            !self.collides(s),
    {
        assert(self.drawn(s).bits =~= self.bits);
    }

    /// Nothing is drawn before the sprite's first pixel.
    proof fn lemma_draw_start(self, s: Sprite)
        requires
            self.fits(s),
        ensures
            self.drawn_before(s, 0, 0) == self,
            !self.collides_before(s, 0, 0),
    {
        assert(self.drawn_before(s, 0, 0).bits =~= self.bits);
    }

    /// The end of one row of the sprite is the start of the next.
    proof fn lemma_draw_next_row(self, s: Sprite, row: int)
        requires
            self.fits(s),
        ensures
            self.drawn_before(s, row, s.cols) == self.drawn_before(s, row + 1, 0),
            self.collides_before(s, row, s.cols) == self.collides_before(s, row + 1, 0),
    {
        assert forall|p: int| 0 <= p < self.active() implies self.hit_before(s, p, row, s.cols)
            == self.hit_before(s, p, row + 1, 0) by {}
        assert(self.drawn_before(s, row, s.cols).bits =~= self.drawn_before(s, row + 1, 0).bits);
        if self.collides_before(s, row, s.cols) {
            let p = choose|p: int|
                0 <= p < self.active() && self.bits[p] && self.hit_before(s, p, row, s.cols);
            assert(self.hit_before(s, p, row + 1, 0));
        }
        if self.collides_before(s, row + 1, 0) {
            let p = choose|p: int|
                0 <= p < self.active() && self.bits[p] && self.hit_before(s, p, row + 1, 0);
            assert(self.hit_before(s, p, row, s.cols));
        }
    }

    /// After the sprite's last row everything is drawn.
    proof fn lemma_draw_end(self, s: Sprite)
        requires
            self.fits(s),
        ensures
            self.drawn_before(s, s.rows, 0) == self.drawn(s),
            self.collides_before(s, s.rows, 0) == self.collides(s),
    {
        assert forall|p: int| 0 <= p < self.active() implies self.hit_before(s, p, s.rows, 0)
            == self.hit(s, p) by {}
        assert(self.drawn_before(s, s.rows, 0).bits =~= self.drawn(s).bits);
        if self.collides_before(s, s.rows, 0) {
            let p = choose|p: int|
                0 <= p < self.active() && self.bits[p] && self.hit_before(s, p, s.rows, 0);
            assert(self.hit(s, p));
        }
        if self.collides(s) {
            let p = choose|p: int| 0 <= p < self.active() && self.bits[p] && self.hit(s, p);
            assert(self.hit_before(s, p, s.rows, 0));
        }
    }

    /// A pixel of the sprite that is off, or that lands outside the picture,
    /// changes nothing.
    proof fn lemma_draw_skip(self, s: Sprite, row: int, col: int)
        requires
            self.fits(s),
            0 <= row < s.rows,
            0 <= col < s.cols,
            !s.bit(row, col) || self.target(s, row, col) is None,
        ensures
            self.drawn_before(s, row, col + 1) == self.drawn_before(s, row, col),
            self.collides_before(s, row, col + 1) == self.collides_before(s, row, col),
    {
        assert forall|p: int| 0 <= p < self.active() implies self.hit_before(s, p, row, col + 1)
            == self.hit_before(s, p, row, col) by {}
        assert(self.drawn_before(s, row, col + 1).bits =~= self.drawn_before(s, row, col).bits);
        if self.collides_before(s, row, col + 1) {
            let p = choose|p: int|
                0 <= p < self.active() && self.bits[p] && self.hit_before(s, p, row, col + 1);
            assert(self.hit_before(s, p, row, col));
        }
        if self.collides_before(s, row, col) {
            let p = choose|p: int|
                0 <= p < self.active() && self.bits[p] && self.hit_before(s, p, row, col);
            assert(self.hit_before(s, p, row, col + 1));
        }
    }

    /// The sprite's pixel that lands on a bit of the picture is found again
    /// from that bit.
    proof fn lemma_target_source(self, s: Sprite, row: int, col: int)
        requires
            self.fits(s),
            0 <= row < s.rows,
            0 <= col < s.cols,
            self.target(s, row, col) is Some,
        ensures
            ({
                let t = self.target(s, row, col)->0;
                &&& 0 <= t < self.active()
                &&& self.source_row(s, t / self.width()) == row
                &&& self.source_col(s, t % self.width()) == col
            }),
    {
        let w = self.width();
        let h = self.height();
        match s.policy {
            DrawMode::Clip => {
                lemma_grid_join(w, h, s.y + row, s.x + col);
            },
            DrawMode::Wrap => {
                lemma_grid_join(w, h, (s.y + row) % h, (s.x + col) % w);
                lemma_wrap_back(s.y, row, h);
                lemma_wrap_back(s.x, col, w);
            },
        }
    }

    /// No two bits of the picture receive the same pixel of the sprite.
    proof fn lemma_source_unique(self, s: Sprite, row: int, col: int, p: int)
        requires
            self.fits(s),
            0 <= row < s.rows,
            0 <= col < s.cols,
            0 <= p < self.active(),
            self.source_row(s, p / self.width()) == row,
            self.source_col(s, p % self.width()) == col,
        ensures
            self.target(s, row, col) == Some(p),
    {
        let w = self.width();
        let h = self.height();
        lemma_grid_split(w, h, p);
        match s.policy {
            DrawMode::Clip => {},
            DrawMode::Wrap => {
                lemma_wrap_unique(s.y, row, p / w, h);
                lemma_wrap_unique(s.x, col, p % w, w);
            },
        }
    }

    /// A set pixel of the sprite that lands in the picture inverts its
    /// target, which no earlier pixel of the sprite has touched, and nothing
    /// else.
    proof fn lemma_draw_flip(self, s: Sprite, row: int, col: int)
        requires
            self.fits(s),
            0 <= row < s.rows,
            0 <= col < s.cols,
            s.bit(row, col),
            self.target(s, row, col) is Some,
        ensures
            ({
                let t = self.target(s, row, col)->0;
                let r = t / self.width();
                let c = t % self.width();
                &&& 0 <= t < self.active()
                &&& 0 <= r < self.height()
                &&& 0 <= c < self.width()
                &&& self.drawn_before(s, row, col).bits[t] == self.bits[t]
                &&& self.drawn_before(s, row, col + 1) == self.drawn_before(s, row, col).flipped(r, c)
                &&& self.collides_before(s, row, col + 1) == (self.collides_before(s, row, col)
                    || self.bits[t])
            }),
    {
        let t = self.target(s, row, col)->0;
        let w = self.width();
        let h = self.height();
        self.lemma_target_source(s, row, col);
        lemma_grid_split(w, h, t);
        assert forall|p: int| 0 <= p < self.active() && p != t implies self.hit_before(
            s,
            p,
            row,
            col + 1,
        ) == self.hit_before(s, p, row, col) by {
            if self.source_row(s, p / w) == row && self.source_col(s, p % w) == col {
                self.lemma_source_unique(s, row, col, p);
            }
        }
        assert(self.hit_before(s, t, row, col + 1));
        assert(!self.hit_before(s, t, row, col));
        let flipped = self.drawn_before(s, row, col).flipped(t / w, t % w);
        assert forall|p: int| 0 <= p < 8192 implies self.drawn_before(s, row, col + 1).bits[p]
            == flipped.bits[p] by {}
        assert(self.drawn_before(s, row, col + 1).bits =~= flipped.bits);
        if self.collides_before(s, row, col + 1) {
            let p = choose|p: int|
                0 <= p < self.active() && self.bits[p] && self.hit_before(s, p, row, col + 1);
            if p != t {
                assert(self.hit_before(s, p, row, col));
            }
        }
        if self.collides_before(s, row, col) {
            let p = choose|p: int|
                0 <= p < self.active() && self.bits[p] && self.hit_before(s, p, row, col);
            assert(p != t);
            assert(self.hit_before(s, p, row, col + 1));
        }
    }
}

impl View for Screen {
    type V = ScreenView;

    open spec fn view(&self) -> ScreenView {
        ScreenView { mode: self.mode, bits: unpack(self.pixels@) }
    }
}

impl Screen {
    /// A blank display in the standard resolution.
    pub fn new() -> (screen: Screen)
        ensures
            screen@ == ScreenView::blank(),
    {
        let screen = Screen { mode: ScreenMode::Standard, pixels: [0;SCREEN_BYTES] };
        proof {
            assert forall|i: int| 0 <= i < 8192 implies !screen@.bits[i] by {
                lemma_bit8_zero((i % 8) as u8);
            }
        }
        screen
    }

    /// Reads the pixel at `row` and `col` of the active picture.
    pub fn get_pixel(&self, row: usize, col: usize) -> (lit: bool)
        requires
            row < self@.height(),
            col < self@.width(),
        ensures
            lit == self@.pixel(row as int, col as int),
    {
        let index = row * self.width() + col;
        let byte_index = index / 8;
        let bit_index = index % 8;
        self.pixels[byte_index] & (1 << bit_index) != 0
    }

    /// Inverts the pixel at `row` and `col` of the active picture.
    pub fn flip_pixel(&mut self, row: usize, col: usize)
        requires
            row < old(self)@.height(),
            col < old(self)@.width(),
        ensures
            final(self)@ == old(self)@.flipped(row as int, col as int),
    {
        let index = row * self.width() + col;
        let byte_index = index / 8;
        let bit_index = index % 8;
        self.pixels[byte_index] ^= 1 << bit_index;
        proof {
            assert forall|i: int| 0 <= i < 8192 implies self@.bits[i] == old(self)@.flipped(
                row as int,
                col as int,
            ).bits[i] by {
                if i / 8 == byte_index {
                    lemma_bit8_flip(old(self).pixels@[i / 8], bit_index as u8, (i % 8) as u8);
                }
            }
        }
    }

    /// Draws a sprite by exclusive or: every set pixel of the sprite inverts
    /// the pixel it lands on. `n` rows of eight pixels are read from `sprite`,
    /// or sixteen rows of sixteen pixels where the super resolution is in
    /// force and `n` is zero. Under `Clip` a pixel that lands outside the
    /// picture is dropped; under `Wrap` it comes back in from the opposite
    /// edge. Returns whether a pixel that was on has been turned off.
    pub fn draw_sprite(&mut self, x: u8, y: u8, n: u8, sprite: &[u8], policy: DrawMode) -> (collision: bool)
        requires
            n < 16,
            sprite@.len() >= sprite_len(old(self)@.mode, n as int),
        ensures
            final(self)@ == old(self)@.drawn(
                sprite_for(old(self)@.mode, x as int, y as int, n as int, sprite@, policy),
            ),
            collision == old(self)@.collides(
                sprite_for(old(self)@.mode, x as int, y as int, n as int, sprite@, policy),
            ),
    {
        let large = self.get_mode() == ScreenMode::Super && n == 0;
        let rows: usize = if large {
            16
        } else {
            n as usize
        };
        let cols: usize = if large {
            16
        } else {
            8
        };
        let stride = cols / 8;
        let width = self.width();
        let height = self.height();
        let ghost before = old(self)@;
        let ghost s = sprite_for(before.mode, x as int, y as int, n as int, sprite@, policy);
        let mut collision = false;
        let mut row: usize = 0;
        proof {
            before.lemma_draw_start(s);
            assert(rows * stride == sprite_len(before.mode, n as int)) by (nonlinear_arith)
                requires
                    (rows == 16 && stride == 2 && sprite_len(before.mode, n as int) == 32) || (
                    stride == 1 && rows == sprite_len(before.mode, n as int)),
            ;
        }
        while row < rows
            invariant
                row <= rows,
                before.fits(s),
                s == sprite_for(before.mode, x as int, y as int, n as int, sprite@, policy),
                s.rows == rows,
                s.cols == cols,
                stride == cols / 8,
                sprite@.len() >= rows * stride,
                width == before.width(),
                height == before.height(),
                self@ == before.drawn_before(s, row as int, 0),
                collision == before.collides_before(s, row as int, 0),
            decreases rows - row,
        {
            let mut col: usize = 0;
            while col < cols
                invariant
                    row < rows,
                    col <= cols,
                    before.fits(s),
                    s == sprite_for(before.mode, x as int, y as int, n as int, sprite@, policy),
                    s.rows == rows,
                    s.cols == cols,
                    stride == cols / 8,
                    sprite@.len() >= rows * stride,
                    width == before.width(),
                    height == before.height(),
                    self@ == before.drawn_before(s, row as int, col as int),
                    collision == before.collides_before(s, row as int, col as int),
                decreases cols - col,
            {
                assert(row * stride + col / 8 < rows * stride) by (nonlinear_arith)
                    requires
                        row < rows,
                        col / 8 < stride,
                ;
                assert(row * stride <= 30) by (nonlinear_arith)
                    requires
                        row <= 15,
                        stride <= 2,
                ;
                let bitcode = sprite[row * stride + col / 8];
                let mut visible = bitcode & (0x80 >> (col % 8)) != 0;
                let mut r = y as usize + row;
                let mut c = x as usize + col;
                match policy {
                    DrawMode::Clip => {
                        if r >= height || c >= width {
                            visible = false;
                        }
                    },
                    DrawMode::Wrap => {
                        r %= height;
                        c %= width;
                    },
                }
                if visible {
                    proof {
                        before.lemma_draw_flip(s, row as int, col as int);
                        lemma_grid_join(width as int, height as int, r as int, c as int);
                    }
                    if self.get_pixel(r, c) {
                        collision = true;
                    }
                    self.flip_pixel(r, c);
                } else {
                    proof {
                        before.lemma_draw_skip(s, row as int, col as int);
                    }
                }
                col += 1;
            }
            proof {
                before.lemma_draw_next_row(s, row as int);
            }
            row += 1;
        }
        proof {
            before.lemma_draw_end(s);
        }
        collision
    }

    /// Moves the active picture down by `rows` rows and blanks the rows at
    /// the top that nothing moved into.
    pub fn scroll_down(&mut self, rows: usize)
        ensures
            final(self)@ == old(self)@.scrolled_down(rows as int),
    {
        let row_bytes = self.width() / 8;
        let height = self.height();
        let total = row_bytes * height;
        let shift = if rows < height {
            row_bytes * rows
        } else {
            total
        };
        let mut index = total;
        while index > 0
            invariant
                index <= total <= 1024,
                shift <= total,
                self.mode == old(self).mode,
                forall|j: int|
                    index <= j < total ==> self.pixels@[j] == (if j >= shift {
                        old(self).pixels@[j - shift]
                    } else {
                        0u8
                    }),
                forall|j: int|
                    0 <= j < index || total <= j < 1024 ==> self.pixels@[j] == old(self).pixels@[j],
            decreases index,
        {
            index -= 1;
            if index >= shift {
                self.pixels[index] = self.pixels[index - shift];
            } else {
                self.pixels[index] = 0;
            }
        }
        proof {
            lemma_scroll_down_bytes(self.mode, old(self).pixels@, self.pixels@, rows as int, shift as int);
        }
    }

    /// Moves the active picture right by four pixels and blanks the four
    /// columns at the left edge.
    pub fn scroll_right(&mut self)
        ensures
            final(self)@ == old(self)@.scrolled_right(),
    {
        let row_bytes = self.width() / 8;
        let total = row_bytes * self.height();
        let mut index = total;
        while index > 0
            invariant
                index <= total <= 1024,
                row_bytes == 8 || row_bytes == 16,
                self.mode == old(self).mode,
                forall|j: int|
                    index <= j < total ==> self.pixels@[j] == right_byte(
                        old(self).pixels@,
                        row_bytes as int,
                        j,
                    ),
                forall|j: int|
                    0 <= j < index || total <= j < 1024 ==> self.pixels@[j] == old(self).pixels@[j],
            decreases index,
        {
            index -= 1;
            self.pixels[index] <<= 4;
            if index % row_bytes != 0 {
                self.pixels[index] |= self.pixels[index - 1] >> 4;
            }
        }
        proof {
            lemma_scroll_right_bytes(self.mode, old(self).pixels@, self.pixels@);
        }
    }

    /// Moves the active picture left by four pixels and blanks the four
    /// columns at the right edge.
    pub fn scroll_left(&mut self)
        ensures
            final(self)@ == old(self)@.scrolled_left(),
    {
        let row_bytes = self.width() / 8;
        let total = row_bytes * self.height();
        let mut index: usize = 0;
        while index < total
            invariant
                index <= total <= 1024,
                row_bytes == 8 || row_bytes == 16,
                total % row_bytes == 0,
                self.mode == old(self).mode,
                forall|j: int|
                    0 <= j < index ==> self.pixels@[j] == left_byte(
                        old(self).pixels@,
                        row_bytes as int,
                        j,
                    ),
                forall|j: int| index <= j < 1024 ==> self.pixels@[j] == old(self).pixels@[j],
            decreases total - index,
        {
            self.pixels[index] >>= 4;
            if index % row_bytes != row_bytes - 1 {
                self.pixels[index] |= self.pixels[index + 1] << 4;
            }
            index += 1;
        }
        proof {
            lemma_scroll_left_bytes(self.mode, old(self).pixels@, self.pixels@);
        }
    }

    /// Turns every pixel of the active picture off. The rest of the buffer
    /// stays as it is.
    pub fn clear_screen(&mut self)
        ensures
            final(self)@ == old(self)@.cleared(),
    {
        let total = self.width() / 8 * self.height();
        let mut i: usize = 0;
        while i < total
            invariant
                i <= total <= 1024,
                total == active_bytes(old(self).mode),
                self.mode == old(self).mode,
                forall|j: int| 0 <= j < i ==> self.pixels@[j] == 0,
                forall|j: int| i <= j < 1024 ==> self.pixels@[j] == old(self).pixels@[j],
            decreases total - i,
        {
            self.pixels[i] = 0;
            i += 1;
        }
        proof {
            let before = old(self)@;
            lemma_area(before.width(), before.height());
            assert forall|k: int| 0 <= k < 8192 implies self@.bits[k] == before.cleared().bits[k] by {
                lemma_bit8_zero((k % 8) as u8);
            }
        }
    }

    /// The bytes of the active picture, `width * height / 8` of them, row by
    /// row, eight pixels to a byte with the leftmost in the lowest bit.
    pub fn pixels(&self) -> (bytes: &[u8])
        ensures
            bytes@.len() * 8 == self@.active(),
            bytes@ == self.pixels@.subrange(0, self@.active() / 8),
            forall|i: int| 0 <= i < self@.active() ==> self@.bits[i] == bit8(bytes@[i / 8], (i % 8) as u8),
    {
        let len = self.width() * self.height() / 8;
        vstd::slice::slice_subrange(&self.pixels, 0, len)
    }

    /// Width in pixels of the active picture.
    pub fn width(&self) -> (w: usize)
        ensures
            w == self@.width(),
    {
        match self.mode {
            ScreenMode::Standard => STANDARD_SCREEN_WIDTH,
            ScreenMode::Super => SUPER_SCREEN_WIDTH,
        }
    }

    /// Height in pixels of the active picture.
    pub fn height(&self) -> (h: usize)
        ensures
            h == self@.height(),
    {
        match self.mode {
            ScreenMode::Standard => STANDARD_SCREEN_HEIGHT,
            ScreenMode::Super => SUPER_SCREEN_HEIGHT,
        }
    }

    /// The resolution in force. The display is left as it was.
    pub fn get_mode(&mut self) -> (mode: ScreenMode)
        ensures
            mode == old(self)@.mode,
            *final(self) == *old(self),
    {
        self.mode
    }

    /// Switches the resolution. The buffer is kept bit for bit; only the
    /// addressing of rows and columns changes.
    pub fn set_mode(&mut self, mode: ScreenMode)
        ensures
            final(self)@ == old(self)@.with_mode(mode),
    {
        self.mode = mode;
    }
}

} // verus!

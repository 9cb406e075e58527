//! The video memory: a 64x32 monochrome pixel grid, row-major. Pixels are
//! only mutated through a full clear or through the sprite blit, which
//! XORs sprite bits onto the grid and reports whether any lit pixel was
//! erased. After a blit the full frame is handed to the external renderer
//! as an immutable snapshot.

use vstd::prelude::*;

use crate::error::Chip8Error;
use crate::memory::Memory;
use crate::memory::MEMORY_SIZE;

verus! {

broadcast use vstd::array::group_array_axioms;

/// Width of the pixel grid.
pub const WIDTH: usize = 64;

/// Height of the pixel grid.
pub const HEIGHT: usize = 32;

/// Every sprite row is one byte: eight pixels wide.
pub const SPRITE_WIDTH: usize = 8;

/// Number of pixels in the grid.
pub const VRAM_SIZE: usize = WIDTH * HEIGHT;

/// The all-dark grid.
pub open spec fn blank_grid() -> Seq<bool> {
    Seq::new(VRAM_SIZE as nat, |i: int| false)
}

/// Whether bit `dc` of a sprite row byte is lit; bit 7 (the most
/// significant) is the leftmost pixel on screen.
pub open spec fn sprite_bit(byte: u8, dc: int) -> bool {
    (byte >> ((7 - dc) as u8)) & 1 == 1
}

/// The pixel at `(row, col)` after blitting a sprite of `rows` rows read
/// from `mem` at `addr` onto `grid` at position `(x, y)`: pixels under the
/// sprite are XORed with the sprite bit, all others keep their value.
/// Sprite rows and columns falling outside the grid are skipped, without
/// wraparound.
pub open spec fn blit_pixel(
    grid: Seq<bool>,
    mem: Seq<u8>,
    addr: int,
    x: int,
    y: int,
    rows: int,
    row: int,
    col: int,
) -> bool {
    if y <= row < y + rows && x <= col < x + SPRITE_WIDTH {
        grid[row * WIDTH + col] ^ sprite_bit(mem[addr + (row - y)], col - x)
    } else {
        grid[row * WIDTH + col]
    }
}

/// The pixel at `(row, col)` while the blit described at [`blit_pixel`]
/// is in progress: the first `full` sprite rows are applied whole, and of
/// sprite row `full` only the first `cols` bits are applied yet.
pub open spec fn blit_pixel_upto(
    grid: Seq<bool>,
    mem: Seq<u8>,
    addr: int,
    x: int,
    y: int,
    full: int,
    cols: int,
    row: int,
    col: int,
) -> bool {
    if (y <= row < y + full && x <= col < x + SPRITE_WIDTH) || (row == y + full && x <= col < x
        + cols) {
        grid[row * WIDTH + col] ^ sprite_bit(mem[addr + (row - y)], col - x)
    } else {
        grid[row * WIDTH + col]
    }
}

/// The whole grid after the blit described at [`blit_pixel`].
pub open spec fn blit_grid(
    grid: Seq<bool>,
    mem: Seq<u8>,
    addr: int,
    x: int,
    y: int,
    rows: int,
) -> Seq<bool> {
    Seq::new(VRAM_SIZE as nat, |p: int| blit_pixel(grid, mem, addr, x, y, rows, p / WIDTH as int, p % WIDTH as int))
}

/// Whether the lit sprite bit `(dr, dc)` lands on a lit on-screen pixel
/// of `grid`, for a blit of a sprite read from `mem` at `addr` onto
/// position `(x, y)`.
pub open spec fn blit_hit(
    grid: Seq<bool>,
    mem: Seq<u8>,
    addr: int,
    x: int,
    y: int,
    dr: int,
    dc: int,
) -> bool {
    y + dr < HEIGHT && x + dc < WIDTH && grid[(y + dr) * WIDTH + (x + dc)]
        && sprite_bit(mem[addr + dr], dc)
}

/// Whether the blit described at [`blit_pixel`] erases some lit pixel:
/// a lit sprite bit lands on a lit on-screen pixel.
pub open spec fn blit_collides(
    grid: Seq<bool>,
    mem: Seq<u8>,
    addr: int,
    x: int,
    y: int,
    rows: int,
) -> bool {
    exists|dr: int, dc: int|
        0 <= dr < rows && 0 <= dc < SPRITE_WIDTH && #[trigger] blit_hit(grid, mem, addr, x, y, dr, dc)
}

/// How many rows of a sprite of `rows` rows blitted at vertical position
/// `y` land on screen; they are a prefix of the sprite.
pub open spec fn visible_rows(y: int, rows: int) -> int {
    if y >= HEIGHT {
        0
    } else if rows <= HEIGHT - y {
        rows
    } else {
        HEIGHT - y
    }
}

/// Whether every sprite row that lands on screen can be read from memory:
/// rows skipped for falling below the grid are never read.
pub open spec fn sprite_reads_ok(addr: int, y: int, rows: int) -> bool {
    visible_rows(y, rows) <= 0 || addr + visible_rows(y, rows) <= MEMORY_SIZE
}

/// One full frame: a row-major copy of the pixel grid.
pub struct PixelBuffer {
    /// The pixels, row-major, `true` for a lit pixel.
    pub data: [bool; 2048],
}

/// Hand-off slot for the frame snapshot of the latest draw.
pub struct VideoSink {
    /// The most recent frame, if a draw occurred since the last take.
    pub buffer: Option<PixelBuffer>,
}

impl View for VideoSink {
    type V = Option<Seq<bool>>;

    open spec fn view(&self) -> Option<Seq<bool>> {
        match self.buffer {
            Some(pb) => Some(pb.data@),
            None => None,
        }
    }
}

impl VideoSink {
    /// An empty sink.
    pub fn new() -> (s: VideoSink)
        ensures
            s@ is None,
    {
        VideoSink { buffer: None }
    }

    /// Takes the pending frame, leaving the sink empty.
    pub fn get(&mut self) -> (r: Option<PixelBuffer>)
        ensures
            final(self)@ is None,
            match r {
                Some(pb) => old(self)@ == Some(pb.data@),
                None => old(self)@ is None,
            },
    {
        self.buffer.take()
    }
}

/// The pixel grid. Its view is the row-major sequence of pixel states.
#[derive(Debug)]
pub struct Vram {
    data: [bool; 2048],
}

impl View for Vram {
    type V = Seq<bool>;

    closed spec fn view(&self) -> Seq<bool> {
        self.data@
    }
}

impl Vram {
    /// An all-dark grid.
    pub fn new() -> (v: Vram)
        ensures
            v@ == blank_grid(),
    {
        let v = Vram { data: [false; 2048] };
        proof {
            assert(v@ =~= blank_grid());
        }
        v
    }

    /// Sets every pixel dark.
    pub fn clear(&mut self)
        ensures
            final(self)@ == blank_grid(),
    {
        self.data = [false; 2048];
        proof {
            assert(self@ =~= blank_grid());
        }
    }

    /// The pixel at `(row, col)`.
    pub fn pixel(&self, row: usize, col: usize) -> (p: bool)
        requires
            row < HEIGHT,
            col < WIDTH,
        ensures
            p == self@[row as int * WIDTH + col as int],
    {
        self.data[row * WIDTH + col]
    }

    /// Blits a sprite of `rows` rows, read from `memory` at `addr`, onto
    /// the grid at `(x, y)` by XORing each sprite bit into its pixel;
    /// rows and columns falling outside the grid are skipped. Returns
    /// whether some lit pixel was erased, and leaves the new frame in
    /// `sink`. Fails with `OutOfBounds` when a sprite row that lands on
    /// screen would be read from outside memory; nothing is changed then.
    pub fn draw_sprite(
        &mut self,
        memory: &Memory,
        addr: u16,
        x: u8,
        y: u8,
        rows: u8,
        sink: &mut VideoSink,
    ) -> (r: Result<bool, Chip8Error>)
        ensures
            r is Ok <==> sprite_reads_ok(addr as int, y as int, rows as int),
            r is Ok ==> {
                &&& final(self)@ == blit_grid(old(self)@, memory@, addr as int, x as int, y as int, rows as int)
                &&& r == Ok::<bool, Chip8Error>(blit_collides(old(self)@, memory@, addr as int, x as int, y as int, rows as int))
                &&& final(sink)@ == Some(final(self)@)
            },
            r is Err ==> {
                &&& r == Err::<bool, Chip8Error>(Chip8Error::OutOfBounds(
                    if addr as int >= MEMORY_SIZE { addr } else { MEMORY_SIZE as u16 },
                ))
                &&& final(self)@ == old(self)@
                &&& final(sink)@ == old(sink)@
            },
    {
        // The rows that land on screen are a prefix of the sprite, so it
        // is enough to bounds-check the read of the last one.
        let visible: usize = if (y as usize) < HEIGHT {
            if (rows as usize) < HEIGHT - y as usize {
                rows as usize
            } else {
                HEIGHT - y as usize
            }
        } else {
            0
        };
        proof {
            assert(visible == visible_rows(y as int, rows as int));
        }
        if visible > 0 && addr as usize + (visible - 1) >= MEMORY_SIZE {
            let oob: u16 = if addr as usize >= MEMORY_SIZE {
                addr
            } else {
                MEMORY_SIZE as u16
            };
            return Err(Chip8Error::OutOfBounds(oob));
        }
        let ghost g0 = self@;
        let ghost a = addr as int;
        let ghost sx = x as int;
        let ghost sy = y as int;
        let mut collided = false;
        let mut dr: usize = 0;
        while dr < visible
            invariant
                dr <= visible,
                visible == visible_rows(sy, rows as int),
                visible > 0 ==> a + visible <= MEMORY_SIZE,
                a == addr as int && sx == x as int && sy == y as int,
                self@.len() == VRAM_SIZE,
                g0.len() == VRAM_SIZE,
                forall|r2: int, c2: int| 0 <= r2 < HEIGHT && 0 <= c2 < WIDTH
                    ==> self@[r2 * WIDTH + c2] == #[trigger] blit_pixel(g0, memory@, a, sx, sy, dr as int, r2, c2),
                collided == blit_collides(g0, memory@, a, sx, sy, dr as int),
            decreases visible - dr,
        {
            let byte = memory.byte_at(addr as usize + dr);
            let row = y as usize + dr;
            let mut dc: usize = 0;
            proof {
                assert forall|r2: int, c2: int| 0 <= r2 < HEIGHT && 0 <= c2 < WIDTH
                    implies self@[r2 * WIDTH + c2]
                        == #[trigger] blit_pixel_upto(g0, memory@, a, sx, sy, dr as int, 0, r2, c2) by {
                    assert(self@[r2 * WIDTH + c2] == blit_pixel(g0, memory@, a, sx, sy, dr as int, r2, c2));
                }
            }
            while dc < SPRITE_WIDTH
                invariant
                    dr < visible,
                    visible == visible_rows(sy, rows as int),
                    visible > 0 ==> a + visible <= MEMORY_SIZE,
                    a == addr as int && sx == x as int && sy == y as int,
                    row == y as usize + dr,
                    row < HEIGHT,
                    byte == memory@[a + dr],
                    dc <= SPRITE_WIDTH,
                    self@.len() == VRAM_SIZE,
                    g0.len() == VRAM_SIZE,
                    forall|r2: int, c2: int| 0 <= r2 < HEIGHT && 0 <= c2 < WIDTH
                        ==> self@[r2 * WIDTH + c2] == #[trigger] blit_pixel_upto(g0, memory@, a, sx, sy, dr as int, dc as int, r2, c2),
                    collided == (blit_collides(g0, memory@, a, sx, sy, dr as int) || exists|c3: int|
                        0 <= c3 < dc && #[trigger] blit_hit(g0, memory@, a, sx, sy, dr as int, c3)),
                decreases SPRITE_WIDTH - dc,
            {
                let col = x as usize + dc;
                if col < WIDTH {
                    let bit = (byte >> (7 - dc) as u8) & 1 == 1;
                    let idx = row * WIDTH + col;
                    proof {
                        assert(blit_pixel_upto(g0, memory@, a, sx, sy, dr as int, dc as int, row as int, col as int)
                            == g0[idx as int]);
                    }
                    let px = self.data[idx];
                    self.data[idx] = px ^ bit;
                    if px && bit {
                        collided = true;
                        proof {
                            assert(blit_hit(g0, memory@, a, sx, sy, dr as int, dc as int));
                        }
                    }
                }
                proof {
                    assert forall|r2: int, c2: int| 0 <= r2 < HEIGHT && 0 <= c2 < WIDTH
                        implies self@[r2 * WIDTH + c2]
                            == #[trigger] blit_pixel_upto(g0, memory@, a, sx, sy, dr as int, dc as int + 1, r2, c2) by {
                        assert(self@[r2 * WIDTH + c2]
                            == blit_pixel_upto(g0, memory@, a, sx, sy, dr as int, dc as int, r2, c2)
                            || (r2 == row && c2 == sx + dc));
                    }
                }
                dc = dc + 1;
            }
            proof {
                assert forall|r2: int, c2: int| 0 <= r2 < HEIGHT && 0 <= c2 < WIDTH
                    implies self@[r2 * WIDTH + c2]
                        == #[trigger] blit_pixel(g0, memory@, a, sx, sy, dr as int + 1, r2, c2) by {
                    assert(self@[r2 * WIDTH + c2]
                        == blit_pixel_upto(g0, memory@, a, sx, sy, dr as int, SPRITE_WIDTH as int, r2, c2));
                }
                if collided {
                    assert(blit_collides(g0, memory@, a, sx, sy, dr as int + 1)) by {
                        if blit_collides(g0, memory@, a, sx, sy, dr as int) {
                            let (b1, b2) = choose|b1: int, b2: int|
                                0 <= b1 < dr && 0 <= b2 < SPRITE_WIDTH && #[trigger] blit_hit(g0, memory@, a, sx, sy, b1, b2);
                            assert(blit_hit(g0, memory@, a, sx, sy, b1, b2));
                        } else {
                            let c3 = choose|c3: int|
                                0 <= c3 < SPRITE_WIDTH && #[trigger] blit_hit(g0, memory@, a, sx, sy, dr as int, c3);
                            assert(blit_hit(g0, memory@, a, sx, sy, dr as int, c3));
                        }
                    }
                } else {
                    assert(!blit_collides(g0, memory@, a, sx, sy, dr as int + 1)) by {
                        if blit_collides(g0, memory@, a, sx, sy, dr as int + 1) {
                            let (b1, b2) = choose|b1: int, b2: int|
                                0 <= b1 < dr + 1 && 0 <= b2 < SPRITE_WIDTH && #[trigger] blit_hit(g0, memory@, a, sx, sy, b1, b2);
                            if b1 < dr {
                                assert(blit_collides(g0, memory@, a, sx, sy, dr as int));
                            } else {
                                assert(0 <= b2 < SPRITE_WIDTH && blit_hit(g0, memory@, a, sx, sy, dr as int, b2));
                            }
                        }
                    }
                }
            }
            dr = dr + 1;
        }
        proof {
            assert forall|r2: int, c2: int| 0 <= r2 < HEIGHT && 0 <= c2 < WIDTH
                implies self@[r2 * WIDTH + c2]
                    == #[trigger] blit_pixel(g0, memory@, a, sx, sy, rows as int, r2, c2) by {
                assert(self@[r2 * WIDTH + c2] == blit_pixel(g0, memory@, a, sx, sy, visible as int, r2, c2));
            }
            assert(blit_collides(g0, memory@, a, sx, sy, rows as int)
                == blit_collides(g0, memory@, a, sx, sy, visible as int)) by {
                if blit_collides(g0, memory@, a, sx, sy, visible as int) {
                    let (b1, b2) = choose|b1: int, b2: int|
                        0 <= b1 < visible && 0 <= b2 < SPRITE_WIDTH && #[trigger] blit_hit(g0, memory@, a, sx, sy, b1, b2);
                    assert(b1 < rows as int && blit_hit(g0, memory@, a, sx, sy, b1, b2));
                }
                if blit_collides(g0, memory@, a, sx, sy, rows as int) {
                    let (b1, b2) = choose|b1: int, b2: int|
                        0 <= b1 < rows && 0 <= b2 < SPRITE_WIDTH && #[trigger] blit_hit(g0, memory@, a, sx, sy, b1, b2);
                    assert(b1 < visible as int && blit_hit(g0, memory@, a, sx, sy, b1, b2));
                }
            }
            assert forall|p: int| 0 <= p < VRAM_SIZE
                implies self@[p] == blit_grid(g0, memory@, a, sx, sy, rows as int)[p] by {
                let r2 = p / (WIDTH as int);
                let c2 = p % (WIDTH as int);
                assert(p == r2 * WIDTH + c2);
                assert(self@[r2 * WIDTH + c2] == blit_pixel(g0, memory@, a, sx, sy, rows as int, r2, c2));
            }
            assert(self@ =~= blit_grid(g0, memory@, a, sx, sy, rows as int));
        }
        let mut frame = PixelBuffer { data: [false; 2048] };
        let mut p: usize = 0;
        while p < VRAM_SIZE
            invariant
                p <= VRAM_SIZE,
                self@.len() == VRAM_SIZE,
                frame.data@.len() == VRAM_SIZE,
                forall|q: int| 0 <= q < p ==> frame.data@[q] == self@[q],
            decreases VRAM_SIZE - p,
        {
            frame.data[p] = self.data[p];
            p = p + 1;
        }
        proof {
            assert(frame.data@ =~= self@);
        }
        sink.buffer = Some(frame);
        Ok(collided)
    }
}

} // verus!

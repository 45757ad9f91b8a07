//! Sprite drawing on the framebuffer.
//!
//! A sprite is `n` bytes of memory starting at the index register, one byte
//! per row, the leftmost pixel in the most significant bit. It is drawn by
//! inverting the framebuffer pixels under its set bits. The origin is taken
//! modulo the screen size, and a sprite that crosses the right or the bottom
//! edge continues on the opposite side.

use vstd::prelude::*;
use crate::chip8::{pixel_index, Machine, RAM_SIZE, SCREEN_SIZE};
use crate::emulator::{refused, Emulator};
use crate::error::Chip8Error;

verus! {

/// Whether the bit for column `col` of a sprite row is set; column 0 is the
/// most significant bit.
pub open spec fn sprite_bit(row_byte: u8, col: u8) -> bool {
    row_byte & (0x80u8 >> col) != 0
}

/// The sprite column that falls on pixel `p` when the sprite's origin is in
/// screen column `vx mod 64`.
pub open spec fn sprite_col(vx: u8, p: int) -> int {
    (p % 64 - vx) % 64
}

/// The sprite row that falls on pixel `p` when the sprite's origin is in
/// screen row `vy mod 32`.
pub open spec fn sprite_row(vy: u8, p: int) -> int {
    (p / 64 - vy) % 32
}

/// Whether a sprite of `n` rows, read from `ram` at address `i` and drawn
/// with its origin at (`vx`, `vy`), has a set bit on pixel `p`.
pub open spec fn sprite_covers(ram: Seq<u8>, i: u16, vx: u8, vy: u8, n: u8, p: int) -> bool {
    &&& sprite_col(vx, p) < 8
    &&& sprite_row(vy, p) < n
    &&& sprite_bit(ram[i + sprite_row(vy, p)], sprite_col(vx, p) as u8)
}

/// The framebuffer after drawing the sprite: every pixel under a set bit of
/// the sprite is inverted, every other pixel is kept.
pub open spec fn display_after_draw(
    display: Seq<bool>,
    ram: Seq<u8>,
    i: u16,
    vx: u8,
    vy: u8,
    n: u8,
) -> Seq<bool> {
    Seq::new(SCREEN_SIZE as nat, |p: int| display[p] != sprite_covers(ram, i, vx, vy, n, p))
}

/// Whether drawing the sprite turns a lit pixel off.
pub open spec fn draw_collides(
    display: Seq<bool>,
    ram: Seq<u8>,
    i: u16,
    vx: u8,
    vy: u8,
    n: u8,
) -> bool {
    exists|p: int|
        0 <= p < SCREEN_SIZE && display[p] && #[trigger] sprite_covers(ram, i, vx, vy, n, p)
}

/// Whether the sprite bit for pixel `p` lies before column `c` of row `r` in
/// drawing order.
spec fn drawn_before(vx: u8, vy: u8, r: int, c: int, p: int) -> bool {
    sprite_row(vy, p) < r || (sprite_row(vy, p) == r && sprite_col(vx, p) < c)
}

/// The part of the sprite that has been drawn before column `c` of row `r`.
spec fn covers_before(ram: Seq<u8>, i: u16, vx: u8, vy: u8, n: u8, r: int, c: int, p: int) -> bool {
    sprite_covers(ram, i, vx, vy, n, p) && drawn_before(vx, vy, r, c, p)
}

/// Whether the part drawn before column `c` of row `r` has hit a lit pixel.
spec fn collides_before(
    display: Seq<bool>,
    ram: Seq<u8>,
    i: u16,
    vx: u8,
    vy: u8,
    n: u8,
    r: int,
    c: int,
) -> bool {
    exists|p: int|
        0 <= p < SCREEN_SIZE && display[p] && #[trigger] covers_before(ram, i, vx, vy, n, r, c, p)
}

/// The pixel under sprite bit (`r`, `c`) is the only one under that bit.
proof fn lemma_pixel_of_bit(vx: u8, vy: u8, r: int, c: int, p: int)
    requires
        0 <= r < 32,
        0 <= c < 64,
        0 <= p < SCREEN_SIZE,
    ensures
        (sprite_row(vy, p) == r && sprite_col(vx, p) == c) <==> p == pixel_index(
            (vx + c) % 64,
            (vy + r) % 32,
        ),
        0 <= pixel_index((vx + c) % 64, (vy + r) % 32) < SCREEN_SIZE,
{
}

/// Whether a sprite of `n` rows at address `i` can be drawn: it has at most
/// 15 rows, and if it has any, they all lie within memory.
pub open spec fn sprite_in_memory(i: u16, n: u8) -> bool {
    n < 16 && (n > 0 ==> i + n <= RAM_SIZE)
}

/// Draws the sprite of `n` rows found at the index register with its origin
/// at (`vx mod 64`, `vy mod 32`) and says whether a lit pixel was turned off.
/// A sprite of more than 15 rows, or one that reaches beyond memory, is a
/// fault, and nothing is drawn.
pub fn draw_sprite(emu: &mut Emulator, vx: u8, vy: u8, n: u8) -> (res: Result<bool, Chip8Error>)
    ensures
        final(emu)@.wf(),
        sprite_in_memory(old(emu)@.i, n) ==> res == Ok::<bool, Chip8Error>(
            draw_collides(old(emu)@.display, old(emu)@.ram, old(emu)@.i, vx, vy, n),
        ) && final(emu)@ == (Machine {
            display: display_after_draw(
                old(emu)@.display,
                old(emu)@.ram,
                old(emu)@.i,
                vx,
                vy,
                n,
            ),
            ..old(emu)@
        }),
        !sprite_in_memory(old(emu)@.i, n) ==> refused(
            res,
            Chip8Error::IndexFault,
            old(emu)@,
            final(emu)@,
        ),
{
    let i: u16 = emu.get_i();
    if n >= 16 || (n > 0 && i as usize + n as usize > RAM_SIZE) {
        return Err(Chip8Error::IndexFault);
    }
    let ghost before = emu@;
    let mut collision: bool = false;
    let mut row: u8 = 0;
    while row < n
        invariant
            row <= n < 16,
            n > 0 ==> i + n <= RAM_SIZE,
            before.wf(),
            before.i == i,
            emu@.wf(),
            emu@ == (Machine { display: emu@.display, ..before }),
            forall|p: int|
                0 <= p < SCREEN_SIZE ==> emu@.display[p] == (before.display[p] != covers_before(
                    before.ram,
                    i,
                    vx,
                    vy,
                    n,
                    row as int,
                    0,
                    p,
                )),
            collision == collides_before(before.display, before.ram, i, vx, vy, n, row as int, 0),
        decreases n - row,
    {
        let fetched = emu.get_from_ram(i as usize + row as usize);
        let row_byte: u8 = match fetched {
            Ok(b) => b,
            Err(e) => {
                return Err(e);
            },
        };
        let mut col: u8 = 0;
        while col < 8
            invariant
                col <= 8,
                row < n < 16,
                i + n <= RAM_SIZE,
                before.wf(),
                before.i == i,
                row_byte == before.ram[i + row],
                emu@.wf(),
                emu@ == (Machine { display: emu@.display, ..before }),
                forall|p: int|
                    0 <= p < SCREEN_SIZE ==> emu@.display[p] == (before.display[p]
                        != covers_before(before.ram, i, vx, vy, n, row as int, col as int, p)),
                collision == collides_before(
                    before.display,
                    before.ram,
                    i,
                    vx,
                    vy,
                    n,
                    row as int,
                    col as int,
                ),
            decreases 8 - col,
        {
            let ghost shown = emu@.display;
            let ghost hit = pixel_index((vx + col) % 64, (vy + row) % 32);
            let lit: bool = (row_byte & (0x80u8 >> col)) != 0;
            let mut was_lit: bool = false;
            if lit {
                let x: u8 = ((vx as u16 + col as u16) % 64) as u8;
                let y: u8 = ((vy as u16 + row as u16) % 32) as u8;
                was_lit = emu.toggle_pixel(x, y);
            }
            proof {
                assert forall|p: int| 0 <= p < SCREEN_SIZE implies covers_before(
                    before.ram,
                    i,
                    vx,
                    vy,
                    n,
                    row as int,
                    col + 1,
                    p,
                ) == (covers_before(before.ram, i, vx, vy, n, row as int, col as int, p) || (lit
                    && p == hit)) by {
                    lemma_pixel_of_bit(vx, vy, row as int, col as int, p);
                }
                lemma_pixel_of_bit(vx, vy, row as int, col as int, hit);
                assert(!covers_before(before.ram, i, vx, vy, n, row as int, col as int, hit));
                assert(lit ==> was_lit == before.display[hit]);
                if collision || (lit && was_lit) {
                    if collision {
                        let w = choose|w: int|
                            0 <= w < SCREEN_SIZE && before.display[w] && #[trigger] covers_before(
                                before.ram,
                                i,
                                vx,
                                vy,
                                n,
                                row as int,
                                col as int,
                                w,
                            );
                        assert(covers_before(before.ram, i, vx, vy, n, row as int, col + 1, w));
                    } else {
                        assert(covers_before(before.ram, i, vx, vy, n, row as int, col + 1, hit));
                    }
                    assert(collides_before(
                        before.display,
                        before.ram,
                        i,
                        vx,
                        vy,
                        n,
                        row as int,
                        col + 1,
                    ));
                } else {
                    assert forall|p: int|
                        0 <= p < SCREEN_SIZE && before.display[p] implies !covers_before(
                        before.ram,
                        i,
                        vx,
                        vy,
                        n,
                        row as int,
                        col + 1,
                        p,
                    ) by {
                        assert(!covers_before(before.ram, i, vx, vy, n, row as int, col as int, p));
                    }
                }
            }
            collision = collision || was_lit;
            col += 1;
        }
        proof {
            assert forall|p: int| 0 <= p < SCREEN_SIZE implies covers_before(
                before.ram,
                i,
                vx,
                vy,
                n,
                row as int,
                8,
                p,
            ) == covers_before(before.ram, i, vx, vy, n, row + 1, 0, p) by {}
            if collision {
                let w = choose|w: int|
                    0 <= w < SCREEN_SIZE && before.display[w] && #[trigger] covers_before(
                        before.ram,
                        i,
                        vx,
                        vy,
                        n,
                        row as int,
                        8,
                        w,
                    );
                assert(covers_before(before.ram, i, vx, vy, n, row + 1, 0, w));
            } else {
                assert forall|p: int|
                        0 <= p < SCREEN_SIZE && before.display[p] implies !covers_before(
                    before.ram,
                    i,
                    vx,
                    vy,
                    n,
                    row + 1,
                    0,
                    p,
                ) by {
                    assert(!covers_before(before.ram, i, vx, vy, n, row as int, 8, p));
                }
            }
        }
        row += 1;
    }
    proof {
        assert forall|p: int| 0 <= p < SCREEN_SIZE implies covers_before(
            before.ram,
            i,
            vx,
            vy,
            n,
            n as int,
            0,
            p,
        ) == sprite_covers(before.ram, i, vx, vy, n, p) by {}
        assert(emu@.display =~= display_after_draw(before.display, before.ram, i, vx, vy, n));
        if collision {
            let w = choose|w: int|
                0 <= w < SCREEN_SIZE && before.display[w] && #[trigger] covers_before(
                    before.ram,
                    i,
                    vx,
                    vy,
                    n,
                    n as int,
                    0,
                    w,
                );
            assert(sprite_covers(before.ram, i, vx, vy, n, w));
        } else {
            assert forall|p: int| 0 <= p < SCREEN_SIZE && before.display[p] implies !sprite_covers(
                before.ram,
                i,
                vx,
                vy,
                n,
                p,
            ) by {
                assert(!covers_before(before.ram, i, vx, vy, n, n as int, 0, p));
            }
        }
    }
    Ok(collision)
}

} // verus!

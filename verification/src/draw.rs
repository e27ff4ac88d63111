//! Framebuffer compositing: XOR-drawing a sprite onto the 64x32 pixel grid.
//!
//! The grid is a sequence of 2048 bytes, one pixel per byte, each 0 or 1.
//! A sprite is a sequence of row bytes; bit 7 of a row is its leftmost
//! pixel. Rows land at (x0, y0) and following lines; pixels that fall off
//! the right or bottom edge are clipped, never wrapped.

use vstd::prelude::*;

verus! {

/// Every pixel byte of the grid holds 0 or 1.
pub open spec fn gfx_bytes_binary(gfx: Seq<u8>) -> bool {
    forall|k: int| 0 <= k < gfx.len() ==> gfx[k] == 0 || gfx[k] == 1
}

/// Pixel `c` of a sprite row, counted from the left (bit 7 first).
pub open spec fn sprite_row_bit(row: u8, c: int) -> u8 {
    (row >> ((7 - c) as u8)) & 1
}

/// Whether screen pixel (px, py) is a target of a sprite of `nrows` rows
/// drawn at (x0, y0). Pixels beyond the screen never carry such (px, py).
pub open spec fn draw_hits(x0: int, y0: int, nrows: int, px: int, py: int) -> bool {
    x0 <= px < x0 + 8 && y0 <= py < y0 + nrows
}

/// The grid after the whole sprite has been XOR-composited at (x0, y0).
pub open spec fn spec_draw_gfx(gfx: Seq<u8>, sprite: Seq<u8>, x0: int, y0: int) -> Seq<u8> {
    Seq::new(
        2048,
        |k: int|
            {
                let px = k % 64;
                let py = k / 64;
                if draw_hits(x0, y0, sprite.len() as int, px, py) {
                    gfx[k] ^ sprite_row_bit(sprite[py - y0], px - x0)
                } else {
                    gfx[k]
                }
            },
    )
}

/// Whether the draw unsets some originally-set pixel: a set sprite bit
/// lands on a pixel that already holds 1.
pub open spec fn spec_draw_collision(gfx: Seq<u8>, sprite: Seq<u8>, x0: int, y0: int) -> bool {
    exists|k: int|
        0 <= k < 2048 && draw_hits(x0, y0, sprite.len() as int, k % 64, k / 64)
            && sprite_row_bit(sprite[k / 64 - y0], k % 64 - x0) == 1 && gfx[k] == 1
}

/// Whether (px, py) is a target among the first `r` full rows, or among the
/// first `c` columns of row `r`: the part a row-major draw has walked.
pub open spec fn draw_hits_prefix(x0: int, y0: int, r: int, c: int, px: int, py: int) -> bool {
    x0 <= px < x0 + 8 && y0 <= py && (py < y0 + r || (py == y0 + r && px < x0 + c))
}

/// The grid after the first `r` rows and `c` columns of row `r` are drawn.
pub open spec fn spec_draw_gfx_prefix(
    gfx: Seq<u8>,
    sprite: Seq<u8>,
    x0: int,
    y0: int,
    r: int,
    c: int,
) -> Seq<u8> {
    Seq::new(
        2048,
        |k: int|
            {
                let px = k % 64;
                let py = k / 64;
                if draw_hits_prefix(x0, y0, r, c, px, py) {
                    gfx[k] ^ sprite_row_bit(sprite[py - y0], px - x0)
                } else {
                    gfx[k]
                }
            },
    )
}

/// Collision among the part a row-major draw has walked.
pub open spec fn spec_draw_collision_prefix(
    gfx: Seq<u8>,
    sprite: Seq<u8>,
    x0: int,
    y0: int,
    r: int,
    c: int,
) -> bool {
    exists|k: int|
        0 <= k < 2048 && draw_hits_prefix(x0, y0, r, c, k % 64, k / 64)
            && sprite_row_bit(sprite[k / 64 - y0], k % 64 - x0) == 1 && gfx[k] == 1
}

pub proof fn lemma_bit01()
    by (bit_vector)
    ensures
        forall|row: u8, sh: u8| (#[trigger] ((row >> sh) & 1)) == 0 || ((row >> sh) & 1) == 1,
{
}

pub proof fn lemma_xor_facts()
    by (bit_vector)
    ensures
        forall|a: u8| (#[trigger] (a ^ 0)) == a,
        forall|a: u8, b: u8| (#[trigger] ((a ^ b) ^ b)) == a,
        0u8 ^ 1 == 1,
        1u8 ^ 1 == 0,
{
}

/// Relates a flat pixel index to its coordinates.
pub proof fn lemma_pixel_index(px: int, py: int)
    requires
        0 <= px < 64,
        0 <= py < 32,
    ensures
        0 <= py * 64 + px < 2048,
        (py * 64 + px) % 64 == px,
        (py * 64 + px) / 64 == py,
{
    assert(0 <= py * 64 + px < 2048 && (py * 64 + px) % 64 == px && (py * 64 + px) / 64 == py)
        by (nonlinear_arith)
        requires
            0 <= px < 64,
            0 <= py < 32,
    ;
}

/// Before any row is drawn, the grid is unchanged and nothing collided.
pub proof fn lemma_draw_init(gfx: Seq<u8>, sprite: Seq<u8>, x0: int, y0: int)
    requires
        gfx.len() == 2048,
    ensures
        spec_draw_gfx_prefix(gfx, sprite, x0, y0, 0, 0) == gfx,
        !spec_draw_collision_prefix(gfx, sprite, x0, y0, 0, 0),
{
    assert(spec_draw_gfx_prefix(gfx, sprite, x0, y0, 0, 0) =~= gfx);
}

/// Finishing row `r` is the same as standing at the start of row `r + 1`.
pub proof fn lemma_draw_row_end(gfx: Seq<u8>, sprite: Seq<u8>, x0: int, y0: int, r: int)
    ensures
        spec_draw_gfx_prefix(gfx, sprite, x0, y0, r, 8) == spec_draw_gfx_prefix(
            gfx,
            sprite,
            x0,
            y0,
            r + 1,
            0,
        ),
        spec_draw_collision_prefix(gfx, sprite, x0, y0, r, 8) == spec_draw_collision_prefix(
            gfx,
            sprite,
            x0,
            y0,
            r + 1,
            0,
        ),
{
    assert(spec_draw_gfx_prefix(gfx, sprite, x0, y0, r, 8) =~= spec_draw_gfx_prefix(
        gfx,
        sprite,
        x0,
        y0,
        r + 1,
        0,
    ));
    if spec_draw_collision_prefix(gfx, sprite, x0, y0, r, 8) {
        let k = choose|k: int|
            0 <= k < 2048 && draw_hits_prefix(x0, y0, r, 8, k % 64, k / 64) && sprite_row_bit(
                sprite[k / 64 - y0],
                k % 64 - x0,
            ) == 1 && gfx[k] == 1;
        assert(draw_hits_prefix(x0, y0, r + 1, 0, k % 64, k / 64));
        assert(spec_draw_collision_prefix(gfx, sprite, x0, y0, r + 1, 0));
    }
    if spec_draw_collision_prefix(gfx, sprite, x0, y0, r + 1, 0) {
        let k = choose|k: int|
            0 <= k < 2048 && draw_hits_prefix(x0, y0, r + 1, 0, k % 64, k / 64) && sprite_row_bit(
                sprite[k / 64 - y0],
                k % 64 - x0,
            ) == 1 && gfx[k] == 1;
        assert(draw_hits_prefix(x0, y0, r, 8, k % 64, k / 64));
        assert(spec_draw_collision_prefix(gfx, sprite, x0, y0, r, 8));
    }
}

/// A row whose line lies below the screen leaves nothing to draw.
pub proof fn lemma_draw_row_skip(gfx: Seq<u8>, sprite: Seq<u8>, x0: int, y0: int, r: int)
    requires
        y0 + r >= 32,
    ensures
        spec_draw_gfx_prefix(gfx, sprite, x0, y0, r, 0) == spec_draw_gfx_prefix(
            gfx,
            sprite,
            x0,
            y0,
            r + 1,
            0,
        ),
        spec_draw_collision_prefix(gfx, sprite, x0, y0, r, 0) == spec_draw_collision_prefix(
            gfx,
            sprite,
            x0,
            y0,
            r + 1,
            0,
        ),
{
    assert forall|k: int| 0 <= k < 2048 implies spec_draw_gfx_prefix(gfx, sprite, x0, y0, r, 0)[k]
        == spec_draw_gfx_prefix(gfx, sprite, x0, y0, r + 1, 0)[k] by {
        assert(k / 64 < 32) by (nonlinear_arith)
            requires
                0 <= k < 2048,
        ;
    }
    assert(spec_draw_gfx_prefix(gfx, sprite, x0, y0, r, 0) =~= spec_draw_gfx_prefix(
        gfx,
        sprite,
        x0,
        y0,
        r + 1,
        0,
    ));
    if spec_draw_collision_prefix(gfx, sprite, x0, y0, r, 0) {
        let k = choose|k: int|
            0 <= k < 2048 && draw_hits_prefix(x0, y0, r, 0, k % 64, k / 64) && sprite_row_bit(
                sprite[k / 64 - y0],
                k % 64 - x0,
            ) == 1 && gfx[k] == 1;
        assert(k / 64 < 32) by (nonlinear_arith)
            requires
                0 <= k < 2048,
        ;
        assert(draw_hits_prefix(x0, y0, r + 1, 0, k % 64, k / 64));
        assert(spec_draw_collision_prefix(gfx, sprite, x0, y0, r + 1, 0));
    }
    if spec_draw_collision_prefix(gfx, sprite, x0, y0, r + 1, 0) {
        let k = choose|k: int|
            0 <= k < 2048 && draw_hits_prefix(x0, y0, r + 1, 0, k % 64, k / 64) && sprite_row_bit(
                sprite[k / 64 - y0],
                k % 64 - x0,
            ) == 1 && gfx[k] == 1;
        assert(k / 64 < 32) by (nonlinear_arith)
            requires
                0 <= k < 2048,
        ;
        assert(draw_hits_prefix(x0, y0, r, 0, k % 64, k / 64));
        assert(spec_draw_collision_prefix(gfx, sprite, x0, y0, r, 0));
    }
}

/// A column of the current row that falls off the right edge is clipped.
pub proof fn lemma_draw_col_skip(gfx: Seq<u8>, sprite: Seq<u8>, x0: int, y0: int, r: int, c: int)
    requires
        x0 + c >= 64,
    ensures
        spec_draw_gfx_prefix(gfx, sprite, x0, y0, r, c) == spec_draw_gfx_prefix(
            gfx,
            sprite,
            x0,
            y0,
            r,
            c + 1,
        ),
        spec_draw_collision_prefix(gfx, sprite, x0, y0, r, c) == spec_draw_collision_prefix(
            gfx,
            sprite,
            x0,
            y0,
            r,
            c + 1,
        ),
{
    assert forall|k: int| 0 <= k < 2048 implies spec_draw_gfx_prefix(gfx, sprite, x0, y0, r, c)[k]
        == spec_draw_gfx_prefix(gfx, sprite, x0, y0, r, c + 1)[k] by {
        assert(0 <= k % 64 < 64) by (nonlinear_arith)
            requires
                0 <= k < 2048,
        ;
    }
    assert(spec_draw_gfx_prefix(gfx, sprite, x0, y0, r, c) =~= spec_draw_gfx_prefix(
        gfx,
        sprite,
        x0,
        y0,
        r,
        c + 1,
    ));
    if spec_draw_collision_prefix(gfx, sprite, x0, y0, r, c) {
        let k = choose|k: int|
            0 <= k < 2048 && draw_hits_prefix(x0, y0, r, c, k % 64, k / 64) && sprite_row_bit(
                sprite[k / 64 - y0],
                k % 64 - x0,
            ) == 1 && gfx[k] == 1;
        assert(0 <= k % 64 < 64) by (nonlinear_arith)
            requires
                0 <= k < 2048,
        ;
        assert(draw_hits_prefix(x0, y0, r, c + 1, k % 64, k / 64));
        assert(spec_draw_collision_prefix(gfx, sprite, x0, y0, r, c + 1));
    }
    if spec_draw_collision_prefix(gfx, sprite, x0, y0, r, c + 1) {
        let k = choose|k: int|
            0 <= k < 2048 && draw_hits_prefix(x0, y0, r, c + 1, k % 64, k / 64) && sprite_row_bit(
                sprite[k / 64 - y0],
                k % 64 - x0,
            ) == 1 && gfx[k] == 1;
        assert(0 <= k % 64 < 64) by (nonlinear_arith)
            requires
                0 <= k < 2048,
        ;
        assert(draw_hits_prefix(x0, y0, r, c, k % 64, k / 64));
        assert(spec_draw_collision_prefix(gfx, sprite, x0, y0, r, c));
    }
}

/// Processing one on-screen pixel of the current row: the grid gains the
/// XOR of that sprite bit, and a collision is exactly a set bit landing on
/// a set pixel.
pub proof fn lemma_draw_step(
    gfx: Seq<u8>,
    sprite: Seq<u8>,
    x0: int,
    y0: int,
    r: int,
    c: int,
    g: Seq<u8>,
)
    requires
        gfx.len() == 2048,
        0 <= x0,
        0 <= y0,
        0 <= r < sprite.len(),
        0 <= c < 8,
        y0 + r < 32,
        x0 + c < 64,
        g == spec_draw_gfx_prefix(gfx, sprite, x0, y0, r, c),
    ensures
        ({
            let idx = (y0 + r) * 64 + (x0 + c);
            let bit = sprite_row_bit(sprite[r], c);
            0 <= idx < 2048 && g[idx] == gfx[idx] && spec_draw_gfx_prefix(
                gfx,
                sprite,
                x0,
                y0,
                r,
                c + 1,
            ) == (if bit == 1 {
                g.update(idx, (gfx[idx] ^ 1) as u8)
            } else {
                g
            }) && spec_draw_collision_prefix(gfx, sprite, x0, y0, r, c + 1) == (
            spec_draw_collision_prefix(gfx, sprite, x0, y0, r, c) || (bit == 1 && gfx[idx] == 1))
        }),
{
    let idx = (y0 + r) * 64 + (x0 + c);
    let bit = sprite_row_bit(sprite[r], c);
    lemma_pixel_index(x0 + c, y0 + r);
    assert(idx % 64 == x0 + c && idx / 64 == y0 + r);
    // the pixel at idx is not yet walked, so g still holds its old value
    assert(!draw_hits_prefix(x0, y0, r, c, idx % 64, idx / 64));
    assert(g[idx] == gfx[idx]);
    lemma_xor_facts();
    lemma_bit01();
    assert(bit == 0 || bit == 1);
    assert(draw_hits_prefix(x0, y0, r, c + 1, idx % 64, idx / 64));
    // a pixel index determines its coordinates, so every other pixel keeps
    // its membership in the walked region
    if bit == 1 {
        let g2 = g.update(idx, (gfx[idx] ^ 1) as u8);
        assert forall|k: int| 0 <= k < 2048 implies spec_draw_gfx_prefix(
            gfx,
            sprite,
            x0,
            y0,
            r,
            c + 1,
        )[k] == g2[k] by {
            if k != idx {
                assert(k == 64 * (k / 64) + k % 64) by (nonlinear_arith);
                assert(idx == 64 * (idx / 64) + idx % 64) by (nonlinear_arith);
                assert(!(k % 64 == idx % 64 && k / 64 == idx / 64));
                assert(draw_hits_prefix(x0, y0, r, c, k % 64, k / 64) <==> draw_hits_prefix(
                    x0,
                    y0,
                    r,
                    c + 1,
                    k % 64,
                    k / 64,
                ));
            }
        }
        assert(spec_draw_gfx_prefix(gfx, sprite, x0, y0, r, c + 1) =~= g2);
    } else {
        assert(gfx[idx] ^ bit == gfx[idx]);
        assert forall|k: int| 0 <= k < 2048 implies spec_draw_gfx_prefix(
            gfx,
            sprite,
            x0,
            y0,
            r,
            c + 1,
        )[k] == g[k] by {
            if k != idx {
                assert(k == 64 * (k / 64) + k % 64) by (nonlinear_arith);
                assert(idx == 64 * (idx / 64) + idx % 64) by (nonlinear_arith);
                assert(!(k % 64 == idx % 64 && k / 64 == idx / 64));
                assert(draw_hits_prefix(x0, y0, r, c, k % 64, k / 64) <==> draw_hits_prefix(
                    x0,
                    y0,
                    r,
                    c + 1,
                    k % 64,
                    k / 64,
                ));
            }
        }
        assert(spec_draw_gfx_prefix(gfx, sprite, x0, y0, r, c + 1) =~= g);
    }
    // collision: the walked region grew by exactly the pixel at idx
    let col_old = spec_draw_collision_prefix(gfx, sprite, x0, y0, r, c);
    let col_new = spec_draw_collision_prefix(gfx, sprite, x0, y0, r, c + 1);
    if col_old {
        let k = choose|k: int|
            0 <= k < 2048 && draw_hits_prefix(x0, y0, r, c, k % 64, k / 64) && sprite_row_bit(
                sprite[k / 64 - y0],
                k % 64 - x0,
            ) == 1 && gfx[k] == 1;
        assert(draw_hits_prefix(x0, y0, r, c + 1, k % 64, k / 64));
        assert(col_new);
    }
    if bit == 1 && gfx[idx] == 1 {
        assert(draw_hits_prefix(x0, y0, r, c + 1, idx % 64, idx / 64) && sprite_row_bit(
            sprite[idx / 64 - y0],
            idx % 64 - x0,
        ) == 1 && gfx[idx] == 1);
        assert(col_new);
    }
    if col_new {
        let k = choose|k: int|
            0 <= k < 2048 && draw_hits_prefix(x0, y0, r, c + 1, k % 64, k / 64) && sprite_row_bit(
                sprite[k / 64 - y0],
                k % 64 - x0,
            ) == 1 && gfx[k] == 1;
        if k == idx {
            assert(bit == 1 && gfx[idx] == 1);
        } else {
            assert(k == 64 * (k / 64) + k % 64) by (nonlinear_arith);
            assert(idx == 64 * (idx / 64) + idx % 64) by (nonlinear_arith);
            assert(!(k % 64 == idx % 64 && k / 64 == idx / 64));
            assert(draw_hits_prefix(x0, y0, r, c, k % 64, k / 64));
            assert(col_old);
        }
    }
}

/// Walking all rows of the sprite reaches the full draw.
pub proof fn lemma_draw_full(gfx: Seq<u8>, sprite: Seq<u8>, x0: int, y0: int)
    ensures
        spec_draw_gfx_prefix(gfx, sprite, x0, y0, sprite.len() as int, 0) == spec_draw_gfx(
            gfx,
            sprite,
            x0,
            y0,
        ),
        spec_draw_collision_prefix(gfx, sprite, x0, y0, sprite.len() as int, 0)
            == spec_draw_collision(gfx, sprite, x0, y0),
{
    let n = sprite.len() as int;
    assert(forall|px: int, py: int|
        draw_hits_prefix(x0, y0, n, 0, px, py) <==> draw_hits(x0, y0, n, px, py));
    assert(spec_draw_gfx_prefix(gfx, sprite, x0, y0, n, 0) =~= spec_draw_gfx(gfx, sprite, x0, y0));
    if spec_draw_collision_prefix(gfx, sprite, x0, y0, n, 0) {
        let k = choose|k: int|
            0 <= k < 2048 && draw_hits_prefix(x0, y0, n, 0, k % 64, k / 64) && sprite_row_bit(
                sprite[k / 64 - y0],
                k % 64 - x0,
            ) == 1 && gfx[k] == 1;
        assert(draw_hits(x0, y0, n, k % 64, k / 64));
        assert(spec_draw_collision(gfx, sprite, x0, y0));
    }
    if spec_draw_collision(gfx, sprite, x0, y0) {
        let k = choose|k: int|
            0 <= k < 2048 && draw_hits(x0, y0, n, k % 64, k / 64) && sprite_row_bit(
                sprite[k / 64 - y0],
                k % 64 - x0,
            ) == 1 && gfx[k] == 1;
        assert(draw_hits_prefix(x0, y0, n, 0, k % 64, k / 64));
        assert(spec_draw_collision_prefix(gfx, sprite, x0, y0, n, 0));
    }
}

/// The draw keeps every pixel byte 0 or 1.
pub proof fn lemma_draw_binary(gfx: Seq<u8>, sprite: Seq<u8>, x0: int, y0: int)
    requires
        gfx.len() == 2048,
        gfx_bytes_binary(gfx),
    ensures
        gfx_bytes_binary(spec_draw_gfx(gfx, sprite, x0, y0)),
{
    lemma_bit01();
    lemma_xor_facts();
    assert forall|k: int| 0 <= k < 2048 implies spec_draw_gfx(gfx, sprite, x0, y0)[k] == 0
        || spec_draw_gfx(gfx, sprite, x0, y0)[k] == 1 by {
        let px = k % 64;
        let py = k / 64;
        if draw_hits(x0, y0, sprite.len() as int, px, py) {
            let b = sprite_row_bit(sprite[py - y0], px - x0);
            assert(b == 0 || b == 1);
            assert(gfx[k] == 0 || gfx[k] == 1);
            if b == 0 {
                assert(gfx[k] ^ b == gfx[k]);
            } else {
                assert(gfx[k] ^ b == 0 || gfx[k] ^ b == 1);
            }
        }
    }
}

/// XOR-compositing the same sprite twice at the same spot restores the
/// grid exactly.
pub proof fn lemma_draw_involution(gfx: Seq<u8>, sprite: Seq<u8>, x0: int, y0: int)
    requires
        gfx.len() == 2048,
    ensures
        spec_draw_gfx(spec_draw_gfx(gfx, sprite, x0, y0), sprite, x0, y0) == gfx,
{
    lemma_xor_facts();
    let g1 = spec_draw_gfx(gfx, sprite, x0, y0);
    assert(spec_draw_gfx(g1, sprite, x0, y0) =~= gfx);
}

/// The second of two identical draws reports a collision exactly where the
/// sprite has a visible set bit over a pixel that was clear at the start:
/// on a cleared region, any visible sprite pixel makes the second draw set
/// the collision flag.
pub proof fn lemma_draw_twice_collision(gfx: Seq<u8>, sprite: Seq<u8>, x0: int, y0: int)
    requires
        gfx.len() == 2048,
        gfx_bytes_binary(gfx),
    ensures
        spec_draw_collision(spec_draw_gfx(gfx, sprite, x0, y0), sprite, x0, y0) <==> exists|k: int|
            0 <= k < 2048 && draw_hits(x0, y0, sprite.len() as int, k % 64, k / 64)
                && sprite_row_bit(sprite[k / 64 - y0], k % 64 - x0) == 1 && gfx[k] == 0,
{
    lemma_xor_facts();
    let g1 = spec_draw_gfx(gfx, sprite, x0, y0);
    let n = sprite.len() as int;
    if spec_draw_collision(g1, sprite, x0, y0) {
        let k = choose|k: int|
            0 <= k < 2048 && draw_hits(x0, y0, n, k % 64, k / 64) && sprite_row_bit(
                sprite[k / 64 - y0],
                k % 64 - x0,
            ) == 1 && g1[k] == 1;
        assert(g1[k] == gfx[k] ^ 1);
        assert(gfx[k] == 0 || gfx[k] == 1);
        assert(gfx[k] == 0);
    }
    if exists|k: int|
        0 <= k < 2048 && draw_hits(x0, y0, n, k % 64, k / 64) && sprite_row_bit(
            sprite[k / 64 - y0],
            k % 64 - x0,
        ) == 1 && gfx[k] == 0 {
        let k = choose|k: int|
            0 <= k < 2048 && draw_hits(x0, y0, n, k % 64, k / 64) && sprite_row_bit(
                sprite[k / 64 - y0],
                k % 64 - x0,
            ) == 1 && gfx[k] == 0;
        assert(g1[k] == gfx[k] ^ 1);
        assert(g1[k] == 1);
        assert(spec_draw_collision(g1, sprite, x0, y0));
    }
}

/// Pixel `c` of a sprite row, for the drawing loop.
pub fn row_bit(row: u8, c: usize) -> (r: u8)
    requires
        c < 8,
    ensures
        r == sprite_row_bit(row, c as int),
        r == 0 || r == 1,
{
    proof {
        lemma_bit01();
    }
    (row >> ((7 - c) as u8)) & 1
}

} // verus!

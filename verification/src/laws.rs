//! Properties that relate several operations of the interpreter, stated
//! over the step relations and proved once and for all: the program counter
//! never leaves the 12-bit address space, drawing a sprite twice restores
//! the frame buffer, a register block store followed by a load is the
//! identity, and wait-for-key stalls exactly until a key is down.

use vstd::prelude::*;

use crate::emu::{
    draw_collision, draw_hit, draw_lit, known_opcode, lemma_block_stored_pointwise, op_x, op_y,
    rel_dxyn, rel_fx0a, rel_fx55, rel_fx65, step, wrap12, Emu, RAM_SIZE,
};
use crate::{GFX_H, GFX_W};

verus! {

/// Every instruction leaves the program counter inside the 12-bit address
/// space: whatever known opcode ran, `0 <= pc <= 0xfff` holds afterwards.
pub proof fn lemma_pc_stays_in_range(pre: Emu, post: Emu)
    requires
        pre.wf(),
        known_opcode(pre.opcode),
        step(pre, post),
    ensures
        post.pc <= 0xfff,
{
}

/// The draw geometry — sprite size, sprite bits and target positions — is
/// a function of the opcode, the mode, RAM, the index register and the two
/// coordinate registers alone; two states that agree there draw alike.
proof fn lemma_same_draw_geometry(a: Emu, b: Emu)
    requires
        b.opcode == a.opcode,
        b.mode == a.mode,
        b.ram@ == a.ram@,
        b.ram_idx == a.ram_idx,
        b.v@[op_x(a.opcode)] == a.v@[op_x(a.opcode)],
        b.v@[op_y(a.opcode)] == a.v@[op_y(a.opcode)],
    ensures
        b.sprite_h() == a.sprite_h(),
        b.sprite_w() == a.sprite_w(),
        forall|row: int, xo: int| #[trigger] b.sprite_bit(row, xo) == a.sprite_bit(row, xo),
        forall|xo: int| #[trigger] b.tgt_x(xo) == a.tgt_x(xo),
        forall|row: int| #[trigger] b.tgt_y(row) == a.tgt_y(row),
        forall|gx: int, gy: int| #[trigger] draw_hit(b, gx, gy) == draw_hit(a, gx, gy),
{
    assert forall|row: int, xo: int| #[trigger] b.sprite_bit(row, xo) == a.sprite_bit(
        row,
        xo,
    ) by {
        assert(b.sprite_byte(row, xo / 8) == a.sprite_byte(row, xo / 8));
    }
    assert forall|gx: int, gy: int| #[trigger] draw_hit(b, gx, gy) == draw_hit(a, gx, gy) by {
        if draw_hit(a, gx, gy) {
            let (row, xo) = choose|row: int, xo: int|
                {
                    &&& 0 <= row < a.sprite_h()
                    &&& 0 <= xo < a.sprite_w()
                    &&& row < a.sprite_h() || (row == a.sprite_h() && xo < 0)
                    &&& a.tgt_x(xo) == gx
                    &&& a.tgt_y(row) == gy
                    &&& #[trigger] a.sprite_bit(row, xo)
                };
            assert(b.sprite_bit(row, xo));
            assert(draw_hit(b, gx, gy));
        }
        if draw_hit(b, gx, gy) {
            let (row, xo) = choose|row: int, xo: int|
                {
                    &&& 0 <= row < b.sprite_h()
                    &&& 0 <= xo < b.sprite_w()
                    &&& row < b.sprite_h() || (row == b.sprite_h() && xo < 0)
                    &&& b.tgt_x(xo) == gx
                    &&& b.tgt_y(row) == gy
                    &&& #[trigger] b.sprite_bit(row, xo)
                };
            assert(a.sprite_bit(row, xo));
            assert(draw_hit(a, gx, gy));
        }
    }
}

/// Drawing the same sprite twice at the same coordinates restores every
/// pixel to its pre-draw state, and — provided the first draw turned some
/// pixel on — the second draw reports a collision in `v[15]`. The
/// coordinate registers must not be the flag register, which the first
/// draw overwrites. (When the first draw turned no pixel on, every hit
/// pixel went dark, so the second draw turns them back on and reports no
/// collision; such inputs are left out.)
pub proof fn lemma_draw_twice_restores(pre: Emu, mid: Emu, post: Emu)
    requires
        pre.wf(),
        rel_dxyn(pre, mid),
        rel_dxyn(mid, post),
        op_x(pre.opcode) != 15,
        op_y(pre.opcode) != 15,
        draw_lit(pre),
    ensures
        forall|gx: int, gy: int|
            0 <= gx < GFX_W as int && 0 <= gy < GFX_H as int ==> #[trigger] post.pix(gx, gy)
                == pre.pix(gx, gy),
        post.v@[15] == 1,
{
    lemma_same_draw_geometry(pre, mid);
    assert forall|gx: int, gy: int|
        0 <= gx < GFX_W as int && 0 <= gy < GFX_H as int implies #[trigger] post.pix(gx, gy)
        == pre.pix(gx, gy) by {
        assert(mid.pix(gx, gy) == (pre.pix(gx, gy) != draw_hit(pre, gx, gy)));
        assert(post.pix(gx, gy) == (mid.pix(gx, gy) != draw_hit(mid, gx, gy)));
    }
    let (row, xo) = choose|row: int, xo: int|
        {
            &&& 0 <= row < pre.sprite_h()
            &&& 0 <= xo < pre.sprite_w()
            &&& row < pre.sprite_h() || (row == pre.sprite_h() && xo < 0)
            &&& !pre.pix(pre.tgt_x(xo), pre.tgt_y(row))
            &&& #[trigger] pre.sprite_bit(row, xo)
        };
    let gx = pre.tgt_x(xo);
    let gy = pre.tgt_y(row);
    assert(draw_hit(pre, gx, gy));
    assert(0 <= gx < GFX_W as int && 0 <= gy < GFX_H as int) by {
        vstd::arithmetic::div_mod::lemma_mod_bound(
            pre.v@[op_x(pre.opcode)] + xo,
            pre.scr_w(),
        );
        vstd::arithmetic::div_mod::lemma_mod_bound(
            pre.v@[op_y(pre.opcode)] + row,
            pre.scr_h(),
        );
    }
    assert(mid.pix(gx, gy) == (pre.pix(gx, gy) != draw_hit(pre, gx, gy)));
    assert(mid.pix(gx, gy));
    assert(mid.sprite_bit(row, xo) && mid.tgt_x(xo) == gx && mid.tgt_y(row) == gy);
    assert(draw_collision(mid));
}

/// A register block store followed by a block load over the same index
/// register address and the same register count reproduces the register
/// file exactly: the round trip is the identity.
pub proof fn lemma_store_load_round_trip(a: Emu, b: Emu, b2: Emu, c: Emu)
    requires
        a.wf(),
        rel_fx55(a, b),
        b2 == (Emu { opcode: b2.opcode, ..b }),
        op_x(b2.opcode) == op_x(a.opcode),
        rel_fx65(b2, c),
    ensures
        c.v@ == a.v@,
{
    let idx = a.ram_idx as int;
    let x = op_x(a.opcode);
    lemma_block_stored_pointwise(a.ram@, idx, a.v@, x + 1);
    assert forall|i: int| 0 <= i < 16 implies c.v@[i] == a.v@[i] by {
        if i <= x {
            assert(b.ram@[(idx + i) % RAM_SIZE as int] == a.v@[i]);
        }
    }
    assert(c.v@ =~= a.v@);
}

/// With no key pressed, the wait-for-key operation changes nothing at all:
/// however many times it runs, the program counter stays put and the
/// instruction is simply executed again.
pub proof fn lemma_wait_for_key_stalls(pre: Emu, post: Emu)
    requires
        rel_fx0a(pre, post),
        forall|i: int| 0 <= i < 16 ==> !pre.keys@[i],
    ensures
        post == pre,
{
    crate::emu::lemma_lowest_none(pre.keys@, 0);
}

/// Once a key is down, wait-for-key advances the program counter by two
/// and captures the lowest-indexed pressed key into `vx`.
pub proof fn lemma_wait_for_key_captures(pre: Emu, post: Emu, k: int)
    requires
        pre.wf(),
        rel_fx0a(pre, post),
        0 <= k < 16,
        pre.keys@[k],
        forall|i: int| 0 <= i < k ==> !pre.keys@[i],
    ensures
        post.pc == wrap12(pre.pc + 2),
        post.v@[op_x(pre.opcode)] == k,
{
    crate::emu::lemma_lowest_found(pre.keys@, 0, k);
}

} // verus!

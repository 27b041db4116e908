//! The law that instructions leave the address space's layout alone: no segment
//! appears, disappears, moves, grows or changes permissions while instructions run.

use vstd::prelude::*;

use crate::cpu::bitfield::write_each;
use crate::cpu::execute::step_spec;
use crate::cpu::movem::{load_regs, store_regs};
use crate::cpu::operand::{read_operand_spec, write_operand_spec};
use crate::cpu::CpuModel;
use crate::decoder::{AddressingMode, Instruction, InstructionKind, Size};
use crate::memory::{lemma_write_same_layout, mem_write, same_layout, SegmentView};

verus! {

/// Where each segment is, how long it is, and its permissions and alignment.
pub open spec fn layout(mem: Seq<SegmentView>) -> Seq<(int, nat, u32, usize)> {
    mem.map_values(|s: SegmentView| (s.vaddr, s.bytes.len(), s.flags, s.align))
}

/// A write within one segment keeps the layout.
pub broadcast proof fn lemma_write_keeps_layout(mem: Seq<SegmentView>, addr: int, data: Seq<u8>)
    ensures
        #[trigger] mem_write(mem, addr, data) matches Some(m2) ==> layout(m2) == layout(mem),
{
    if mem_write(mem, addr, data) is Some {
        let m2 = mem_write(mem, addr, data).unwrap();
        lemma_write_same_layout(mem, addr, data);
        assert(layout(m2) =~= layout(mem));
    }
}

/// Bytes written one by one keep the layout.
pub broadcast proof fn lemma_write_each_keeps_layout(mem: Seq<SegmentView>, start: int, data: Seq<u8>)
    ensures
        #[trigger] write_each(mem, start, data) matches Ok(m2) ==> layout(m2) == layout(mem),
    decreases data.len(),
{
    if data.len() > 0 {
        lemma_write_each_keeps_layout(mem, start, data.drop_last());
        match write_each(mem, start, data.drop_last()) {
            Ok(m1) => {
                lemma_write_keeps_layout(m1, start + data.len() - 1, seq![data.last()]);
            },
            Err(_) => {},
        }
    }
}

/// Registers stored by MOVEM keep the layout.
pub broadcast proof fn lemma_store_regs_keeps_layout(m: CpuModel, addr: usize, size: Size, mask: u16, predec: bool, k: nat)
    ensures
        #[trigger] store_regs(m, addr, size, mask, predec, k) matches Ok(p) ==> layout(p.0.mem) == layout(m.mem),
    decreases k,
{
    broadcast use lemma_write_keeps_layout;

    if k > 0 {
        lemma_store_regs_keeps_layout(m, addr, size, mask, predec, (k - 1) as nat);
    }
}

/// Reading an operand leaves memory alone.
pub broadcast proof fn lemma_read_operand_keeps_mem(m: CpuModel, mode: AddressingMode, size: Size, inst_addr: usize)
    ensures
        #[trigger] read_operand_spec(m, mode, size, inst_addr) matches Ok(p) ==> p.0.mem == m.mem,
{
}

/// Writing an operand keeps the layout.
pub broadcast proof fn lemma_write_operand_keeps_layout(
    m: CpuModel,
    mode: AddressingMode,
    size: Size,
    inst_addr: usize,
    value: u32,
)
    ensures
        #[trigger] write_operand_spec(m, mode, size, inst_addr, value) matches Ok(m2) ==> layout(m2.mem) == layout(
            m.mem,
        ),
{
    broadcast use lemma_write_keeps_layout;

}

/// Registers loaded by MOVEM leave memory alone.
pub broadcast proof fn lemma_load_regs_keeps_mem(m: CpuModel, addr: usize, size: Size, mask: u16, k: nat)
    ensures
        #[trigger] load_regs(m, addr, size, mask, k) matches Ok(p) ==> p.0.mem == m.mem,
    decreases k,
{
    if k > 0 {
        lemma_load_regs_keeps_mem(m, addr, size, mask, (k - 1) as nat);
    }
}

/// The layout law for Nop.
proof fn lemma_layout_nop(m: CpuModel, inst: Instruction)
    requires
        inst.kind is Nop,
    ensures
        step_spec(m, inst) matches Ok(p) ==> layout(p.0.mem) == layout(m.mem),
{
    broadcast use lemma_write_keeps_layout, lemma_write_each_keeps_layout, lemma_store_regs_keeps_layout,
        lemma_read_operand_keeps_mem, lemma_write_operand_keeps_layout, lemma_load_regs_keeps_mem;

}

/// The layout law for Addq.
proof fn lemma_layout_addq(m: CpuModel, inst: Instruction)
    requires
        inst.kind is Addq,
    ensures
        step_spec(m, inst) matches Ok(p) ==> layout(p.0.mem) == layout(m.mem),
{
    broadcast use lemma_write_keeps_layout, lemma_write_each_keeps_layout, lemma_store_regs_keeps_layout,
        lemma_read_operand_keeps_mem, lemma_write_operand_keeps_layout, lemma_load_regs_keeps_mem;

}

/// The layout law for Moveq.
proof fn lemma_layout_moveq(m: CpuModel, inst: Instruction)
    requires
        inst.kind is Moveq,
    ensures
        step_spec(m, inst) matches Ok(p) ==> layout(p.0.mem) == layout(m.mem),
{
    broadcast use lemma_write_keeps_layout, lemma_write_each_keeps_layout, lemma_store_regs_keeps_layout,
        lemma_read_operand_keeps_mem, lemma_write_operand_keeps_layout, lemma_load_regs_keeps_mem;

}

/// The layout law for Move.
proof fn lemma_layout_move(m: CpuModel, inst: Instruction)
    requires
        inst.kind is Move,
    ensures
        step_spec(m, inst) matches Ok(p) ==> layout(p.0.mem) == layout(m.mem),
{
    broadcast use lemma_write_keeps_layout, lemma_write_each_keeps_layout, lemma_store_regs_keeps_layout,
        lemma_read_operand_keeps_mem, lemma_write_operand_keeps_layout, lemma_load_regs_keeps_mem;

}

/// The layout law for Lea.
proof fn lemma_layout_lea(m: CpuModel, inst: Instruction)
    requires
        inst.kind is Lea,
    ensures
        step_spec(m, inst) matches Ok(p) ==> layout(p.0.mem) == layout(m.mem),
{
    broadcast use lemma_write_keeps_layout, lemma_write_each_keeps_layout, lemma_store_regs_keeps_layout,
        lemma_read_operand_keeps_mem, lemma_write_operand_keeps_layout, lemma_load_regs_keeps_mem;

}

/// The layout law for Mulu.
proof fn lemma_layout_mulu(m: CpuModel, inst: Instruction)
    requires
        inst.kind is Mulu,
    ensures
        step_spec(m, inst) matches Ok(p) ==> layout(p.0.mem) == layout(m.mem),
{
    broadcast use lemma_write_keeps_layout, lemma_write_each_keeps_layout, lemma_store_regs_keeps_layout,
        lemma_read_operand_keeps_mem, lemma_write_operand_keeps_layout, lemma_load_regs_keeps_mem;

}

/// The layout law for Muls.
proof fn lemma_layout_muls(m: CpuModel, inst: Instruction)
    requires
        inst.kind is Muls,
    ensures
        step_spec(m, inst) matches Ok(p) ==> layout(p.0.mem) == layout(m.mem),
{
    broadcast use lemma_write_keeps_layout, lemma_write_each_keeps_layout, lemma_store_regs_keeps_layout,
        lemma_read_operand_keeps_mem, lemma_write_operand_keeps_layout, lemma_load_regs_keeps_mem;

}

/// The layout law for Trap.
proof fn lemma_layout_trap(m: CpuModel, inst: Instruction)
    requires
        inst.kind is Trap,
    ensures
        step_spec(m, inst) matches Ok(p) ==> layout(p.0.mem) == layout(m.mem),
{
    broadcast use lemma_write_keeps_layout, lemma_write_each_keeps_layout, lemma_store_regs_keeps_layout,
        lemma_read_operand_keeps_mem, lemma_write_operand_keeps_layout, lemma_load_regs_keeps_mem;

}

/// The layout law for Trapcc.
proof fn lemma_layout_trapcc(m: CpuModel, inst: Instruction)
    requires
        inst.kind is Trapcc,
    ensures
        step_spec(m, inst) matches Ok(p) ==> layout(p.0.mem) == layout(m.mem),
{
    broadcast use lemma_write_keeps_layout, lemma_write_each_keeps_layout, lemma_store_regs_keeps_layout,
        lemma_read_operand_keeps_mem, lemma_write_operand_keeps_layout, lemma_load_regs_keeps_mem;

}

/// The layout law for Bkpt.
proof fn lemma_layout_bkpt(m: CpuModel, inst: Instruction)
    requires
        inst.kind is Bkpt,
    ensures
        step_spec(m, inst) matches Ok(p) ==> layout(p.0.mem) == layout(m.mem),
{
    broadcast use lemma_write_keeps_layout, lemma_write_each_keeps_layout, lemma_store_regs_keeps_layout,
        lemma_read_operand_keeps_mem, lemma_write_operand_keeps_layout, lemma_load_regs_keeps_mem;

}

/// The layout law for Rts.
proof fn lemma_layout_rts(m: CpuModel, inst: Instruction)
    requires
        inst.kind is Rts,
    ensures
        step_spec(m, inst) matches Ok(p) ==> layout(p.0.mem) == layout(m.mem),
{
    broadcast use lemma_write_keeps_layout, lemma_write_each_keeps_layout, lemma_store_regs_keeps_layout,
        lemma_read_operand_keeps_mem, lemma_write_operand_keeps_layout, lemma_load_regs_keeps_mem;

}

/// The layout law for Rtd.
proof fn lemma_layout_rtd(m: CpuModel, inst: Instruction)
    requires
        inst.kind is Rtd,
    ensures
        step_spec(m, inst) matches Ok(p) ==> layout(p.0.mem) == layout(m.mem),
{
    broadcast use lemma_write_keeps_layout, lemma_write_each_keeps_layout, lemma_store_regs_keeps_layout,
        lemma_read_operand_keeps_mem, lemma_write_operand_keeps_layout, lemma_load_regs_keeps_mem;

}

/// The layout law for Tst.
proof fn lemma_layout_tst(m: CpuModel, inst: Instruction)
    requires
        inst.kind is Tst,
    ensures
        step_spec(m, inst) matches Ok(p) ==> layout(p.0.mem) == layout(m.mem),
{
    broadcast use lemma_write_keeps_layout, lemma_write_each_keeps_layout, lemma_store_regs_keeps_layout,
        lemma_read_operand_keeps_mem, lemma_write_operand_keeps_layout, lemma_load_regs_keeps_mem;

}

/// The layout law for Bra.
proof fn lemma_layout_bra(m: CpuModel, inst: Instruction)
    requires
        inst.kind is Bra,
    ensures
        step_spec(m, inst) matches Ok(p) ==> layout(p.0.mem) == layout(m.mem),
{
    broadcast use lemma_write_keeps_layout, lemma_write_each_keeps_layout, lemma_store_regs_keeps_layout,
        lemma_read_operand_keeps_mem, lemma_write_operand_keeps_layout, lemma_load_regs_keeps_mem;

}

/// The layout law for Bcc.
proof fn lemma_layout_bcc(m: CpuModel, inst: Instruction)
    requires
        inst.kind is Bcc,
    ensures
        step_spec(m, inst) matches Ok(p) ==> layout(p.0.mem) == layout(m.mem),
{
    broadcast use lemma_write_keeps_layout, lemma_write_each_keeps_layout, lemma_store_regs_keeps_layout,
        lemma_read_operand_keeps_mem, lemma_write_operand_keeps_layout, lemma_load_regs_keeps_mem;

}

/// The layout law for Clr.
proof fn lemma_layout_clr(m: CpuModel, inst: Instruction)
    requires
        inst.kind is Clr,
    ensures
        step_spec(m, inst) matches Ok(p) ==> layout(p.0.mem) == layout(m.mem),
{
    broadcast use lemma_write_keeps_layout, lemma_write_each_keeps_layout, lemma_store_regs_keeps_layout,
        lemma_read_operand_keeps_mem, lemma_write_operand_keeps_layout, lemma_load_regs_keeps_mem;

}

/// The layout law for Neg.
proof fn lemma_layout_neg(m: CpuModel, inst: Instruction)
    requires
        inst.kind is Neg,
    ensures
        step_spec(m, inst) matches Ok(p) ==> layout(p.0.mem) == layout(m.mem),
{
    broadcast use lemma_write_keeps_layout, lemma_write_each_keeps_layout, lemma_store_regs_keeps_layout,
        lemma_read_operand_keeps_mem, lemma_write_operand_keeps_layout, lemma_load_regs_keeps_mem;

}

/// The layout law for Not.
proof fn lemma_layout_not(m: CpuModel, inst: Instruction)
    requires
        inst.kind is Not,
    ensures
        step_spec(m, inst) matches Ok(p) ==> layout(p.0.mem) == layout(m.mem),
{
    broadcast use lemma_write_keeps_layout, lemma_write_each_keeps_layout, lemma_store_regs_keeps_layout,
        lemma_read_operand_keeps_mem, lemma_write_operand_keeps_layout, lemma_load_regs_keeps_mem;

}

/// The layout law for Negx.
proof fn lemma_layout_negx(m: CpuModel, inst: Instruction)
    requires
        inst.kind is Negx,
    ensures
        step_spec(m, inst) matches Ok(p) ==> layout(p.0.mem) == layout(m.mem),
{
    broadcast use lemma_write_keeps_layout, lemma_write_each_keeps_layout, lemma_store_regs_keeps_layout,
        lemma_read_operand_keeps_mem, lemma_write_operand_keeps_layout, lemma_load_regs_keeps_mem;

}

/// The layout law for Add.
proof fn lemma_layout_add(m: CpuModel, inst: Instruction)
    requires
        inst.kind is Add,
    ensures
        step_spec(m, inst) matches Ok(p) ==> layout(p.0.mem) == layout(m.mem),
{
    broadcast use lemma_write_keeps_layout, lemma_write_each_keeps_layout, lemma_store_regs_keeps_layout,
        lemma_read_operand_keeps_mem, lemma_write_operand_keeps_layout, lemma_load_regs_keeps_mem;

}

/// The layout law for Sub.
proof fn lemma_layout_sub(m: CpuModel, inst: Instruction)
    requires
        inst.kind is Sub,
    ensures
        step_spec(m, inst) matches Ok(p) ==> layout(p.0.mem) == layout(m.mem),
{
    broadcast use lemma_write_keeps_layout, lemma_write_each_keeps_layout, lemma_store_regs_keeps_layout,
        lemma_read_operand_keeps_mem, lemma_write_operand_keeps_layout, lemma_load_regs_keeps_mem;

}

/// The layout law for Cmp.
proof fn lemma_layout_cmp(m: CpuModel, inst: Instruction)
    requires
        inst.kind is Cmp,
    ensures
        step_spec(m, inst) matches Ok(p) ==> layout(p.0.mem) == layout(m.mem),
{
    broadcast use lemma_write_keeps_layout, lemma_write_each_keeps_layout, lemma_store_regs_keeps_layout,
        lemma_read_operand_keeps_mem, lemma_write_operand_keeps_layout, lemma_load_regs_keeps_mem;

}

/// The layout law for Cmpa.
proof fn lemma_layout_cmpa(m: CpuModel, inst: Instruction)
    requires
        inst.kind is Cmpa,
    ensures
        step_spec(m, inst) matches Ok(p) ==> layout(p.0.mem) == layout(m.mem),
{
    broadcast use lemma_write_keeps_layout, lemma_write_each_keeps_layout, lemma_store_regs_keeps_layout,
        lemma_read_operand_keeps_mem, lemma_write_operand_keeps_layout, lemma_load_regs_keeps_mem;

}

/// The layout law for And.
proof fn lemma_layout_and(m: CpuModel, inst: Instruction)
    requires
        inst.kind is And,
    ensures
        step_spec(m, inst) matches Ok(p) ==> layout(p.0.mem) == layout(m.mem),
{
    broadcast use lemma_write_keeps_layout, lemma_write_each_keeps_layout, lemma_store_regs_keeps_layout,
        lemma_read_operand_keeps_mem, lemma_write_operand_keeps_layout, lemma_load_regs_keeps_mem;

}

/// The layout law for Or.
proof fn lemma_layout_or(m: CpuModel, inst: Instruction)
    requires
        inst.kind is Or,
    ensures
        step_spec(m, inst) matches Ok(p) ==> layout(p.0.mem) == layout(m.mem),
{
    broadcast use lemma_write_keeps_layout, lemma_write_each_keeps_layout, lemma_store_regs_keeps_layout,
        lemma_read_operand_keeps_mem, lemma_write_operand_keeps_layout, lemma_load_regs_keeps_mem;

}

/// The layout law for Eor.
proof fn lemma_layout_eor(m: CpuModel, inst: Instruction)
    requires
        inst.kind is Eor,
    ensures
        step_spec(m, inst) matches Ok(p) ==> layout(p.0.mem) == layout(m.mem),
{
    broadcast use lemma_write_keeps_layout, lemma_write_each_keeps_layout, lemma_store_regs_keeps_layout,
        lemma_read_operand_keeps_mem, lemma_write_operand_keeps_layout, lemma_load_regs_keeps_mem;

}

/// The layout law for Jsr.
proof fn lemma_layout_jsr(m: CpuModel, inst: Instruction)
    requires
        inst.kind is Jsr,
    ensures
        step_spec(m, inst) matches Ok(p) ==> layout(p.0.mem) == layout(m.mem),
{
    broadcast use lemma_write_keeps_layout, lemma_write_each_keeps_layout, lemma_store_regs_keeps_layout,
        lemma_read_operand_keeps_mem, lemma_write_operand_keeps_layout, lemma_load_regs_keeps_mem;

}

/// The layout law for Jmp.
proof fn lemma_layout_jmp(m: CpuModel, inst: Instruction)
    requires
        inst.kind is Jmp,
    ensures
        step_spec(m, inst) matches Ok(p) ==> layout(p.0.mem) == layout(m.mem),
{
    broadcast use lemma_write_keeps_layout, lemma_write_each_keeps_layout, lemma_store_regs_keeps_layout,
        lemma_read_operand_keeps_mem, lemma_write_operand_keeps_layout, lemma_load_regs_keeps_mem;

}

/// The layout law for Bsr.
proof fn lemma_layout_bsr(m: CpuModel, inst: Instruction)
    requires
        inst.kind is Bsr,
    ensures
        step_spec(m, inst) matches Ok(p) ==> layout(p.0.mem) == layout(m.mem),
{
    broadcast use lemma_write_keeps_layout, lemma_write_each_keeps_layout, lemma_store_regs_keeps_layout,
        lemma_read_operand_keeps_mem, lemma_write_operand_keeps_layout, lemma_load_regs_keeps_mem;

}

/// The layout law for Subq.
proof fn lemma_layout_subq(m: CpuModel, inst: Instruction)
    requires
        inst.kind is Subq,
    ensures
        step_spec(m, inst) matches Ok(p) ==> layout(p.0.mem) == layout(m.mem),
{
    broadcast use lemma_write_keeps_layout, lemma_write_each_keeps_layout, lemma_store_regs_keeps_layout,
        lemma_read_operand_keeps_mem, lemma_write_operand_keeps_layout, lemma_load_regs_keeps_mem;

}

/// The layout law for Adda.
proof fn lemma_layout_adda(m: CpuModel, inst: Instruction)
    requires
        inst.kind is Adda,
    ensures
        step_spec(m, inst) matches Ok(p) ==> layout(p.0.mem) == layout(m.mem),
{
    broadcast use lemma_write_keeps_layout, lemma_write_each_keeps_layout, lemma_store_regs_keeps_layout,
        lemma_read_operand_keeps_mem, lemma_write_operand_keeps_layout, lemma_load_regs_keeps_mem;

}

/// The layout law for Suba.
proof fn lemma_layout_suba(m: CpuModel, inst: Instruction)
    requires
        inst.kind is Suba,
    ensures
        step_spec(m, inst) matches Ok(p) ==> layout(p.0.mem) == layout(m.mem),
{
    broadcast use lemma_write_keeps_layout, lemma_write_each_keeps_layout, lemma_store_regs_keeps_layout,
        lemma_read_operand_keeps_mem, lemma_write_operand_keeps_layout, lemma_load_regs_keeps_mem;

}

/// The layout law for Movea.
proof fn lemma_layout_movea(m: CpuModel, inst: Instruction)
    requires
        inst.kind is Movea,
    ensures
        step_spec(m, inst) matches Ok(p) ==> layout(p.0.mem) == layout(m.mem),
{
    broadcast use lemma_write_keeps_layout, lemma_write_each_keeps_layout, lemma_store_regs_keeps_layout,
        lemma_read_operand_keeps_mem, lemma_write_operand_keeps_layout, lemma_load_regs_keeps_mem;

}

/// The layout law for Ext.
proof fn lemma_layout_ext(m: CpuModel, inst: Instruction)
    requires
        inst.kind is Ext,
    ensures
        step_spec(m, inst) matches Ok(p) ==> layout(p.0.mem) == layout(m.mem),
{
    broadcast use lemma_write_keeps_layout, lemma_write_each_keeps_layout, lemma_store_regs_keeps_layout,
        lemma_read_operand_keeps_mem, lemma_write_operand_keeps_layout, lemma_load_regs_keeps_mem;

}

/// The layout law for Swap.
proof fn lemma_layout_swap(m: CpuModel, inst: Instruction)
    requires
        inst.kind is Swap,
    ensures
        step_spec(m, inst) matches Ok(p) ==> layout(p.0.mem) == layout(m.mem),
{
    broadcast use lemma_write_keeps_layout, lemma_write_each_keeps_layout, lemma_store_regs_keeps_layout,
        lemma_read_operand_keeps_mem, lemma_write_operand_keeps_layout, lemma_load_regs_keeps_mem;

}

/// The layout law for Pea.
proof fn lemma_layout_pea(m: CpuModel, inst: Instruction)
    requires
        inst.kind is Pea,
    ensures
        step_spec(m, inst) matches Ok(p) ==> layout(p.0.mem) == layout(m.mem),
{
    broadcast use lemma_write_keeps_layout, lemma_write_each_keeps_layout, lemma_store_regs_keeps_layout,
        lemma_read_operand_keeps_mem, lemma_write_operand_keeps_layout, lemma_load_regs_keeps_mem;

}

/// The layout law for Link.
proof fn lemma_layout_link(m: CpuModel, inst: Instruction)
    requires
        inst.kind is Link,
    ensures
        step_spec(m, inst) matches Ok(p) ==> layout(p.0.mem) == layout(m.mem),
{
    broadcast use lemma_write_keeps_layout, lemma_write_each_keeps_layout, lemma_store_regs_keeps_layout,
        lemma_read_operand_keeps_mem, lemma_write_operand_keeps_layout, lemma_load_regs_keeps_mem;

}

/// The layout law for Unlk.
proof fn lemma_layout_unlk(m: CpuModel, inst: Instruction)
    requires
        inst.kind is Unlk,
    ensures
        step_spec(m, inst) matches Ok(p) ==> layout(p.0.mem) == layout(m.mem),
{
    broadcast use lemma_write_keeps_layout, lemma_write_each_keeps_layout, lemma_store_regs_keeps_layout,
        lemma_read_operand_keeps_mem, lemma_write_operand_keeps_layout, lemma_load_regs_keeps_mem;

}

/// The layout law for Addi.
proof fn lemma_layout_addi(m: CpuModel, inst: Instruction)
    requires
        inst.kind is Addi,
    ensures
        step_spec(m, inst) matches Ok(p) ==> layout(p.0.mem) == layout(m.mem),
{
    broadcast use lemma_write_keeps_layout, lemma_write_each_keeps_layout, lemma_store_regs_keeps_layout,
        lemma_read_operand_keeps_mem, lemma_write_operand_keeps_layout, lemma_load_regs_keeps_mem;

}

/// The layout law for Subi.
proof fn lemma_layout_subi(m: CpuModel, inst: Instruction)
    requires
        inst.kind is Subi,
    ensures
        step_spec(m, inst) matches Ok(p) ==> layout(p.0.mem) == layout(m.mem),
{
    broadcast use lemma_write_keeps_layout, lemma_write_each_keeps_layout, lemma_store_regs_keeps_layout,
        lemma_read_operand_keeps_mem, lemma_write_operand_keeps_layout, lemma_load_regs_keeps_mem;

}

/// The layout law for Andi.
proof fn lemma_layout_andi(m: CpuModel, inst: Instruction)
    requires
        inst.kind is Andi,
    ensures
        step_spec(m, inst) matches Ok(p) ==> layout(p.0.mem) == layout(m.mem),
{
    broadcast use lemma_write_keeps_layout, lemma_write_each_keeps_layout, lemma_store_regs_keeps_layout,
        lemma_read_operand_keeps_mem, lemma_write_operand_keeps_layout, lemma_load_regs_keeps_mem;

}

/// The layout law for Ori.
proof fn lemma_layout_ori(m: CpuModel, inst: Instruction)
    requires
        inst.kind is Ori,
    ensures
        step_spec(m, inst) matches Ok(p) ==> layout(p.0.mem) == layout(m.mem),
{
    broadcast use lemma_write_keeps_layout, lemma_write_each_keeps_layout, lemma_store_regs_keeps_layout,
        lemma_read_operand_keeps_mem, lemma_write_operand_keeps_layout, lemma_load_regs_keeps_mem;

}

/// The layout law for Eori.
proof fn lemma_layout_eori(m: CpuModel, inst: Instruction)
    requires
        inst.kind is Eori,
    ensures
        step_spec(m, inst) matches Ok(p) ==> layout(p.0.mem) == layout(m.mem),
{
    broadcast use lemma_write_keeps_layout, lemma_write_each_keeps_layout, lemma_store_regs_keeps_layout,
        lemma_read_operand_keeps_mem, lemma_write_operand_keeps_layout, lemma_load_regs_keeps_mem;

}

/// The layout law for Cmpi.
proof fn lemma_layout_cmpi(m: CpuModel, inst: Instruction)
    requires
        inst.kind is Cmpi,
    ensures
        step_spec(m, inst) matches Ok(p) ==> layout(p.0.mem) == layout(m.mem),
{
    broadcast use lemma_write_keeps_layout, lemma_write_each_keeps_layout, lemma_store_regs_keeps_layout,
        lemma_read_operand_keeps_mem, lemma_write_operand_keeps_layout, lemma_load_regs_keeps_mem;

}

/// The layout law for Asd.
proof fn lemma_layout_asd(m: CpuModel, inst: Instruction)
    requires
        inst.kind is Asd,
    ensures
        step_spec(m, inst) matches Ok(p) ==> layout(p.0.mem) == layout(m.mem),
{
    broadcast use lemma_write_keeps_layout, lemma_write_each_keeps_layout, lemma_store_regs_keeps_layout,
        lemma_read_operand_keeps_mem, lemma_write_operand_keeps_layout, lemma_load_regs_keeps_mem;

}

/// The layout law for Lsd.
proof fn lemma_layout_lsd(m: CpuModel, inst: Instruction)
    requires
        inst.kind is Lsd,
    ensures
        step_spec(m, inst) matches Ok(p) ==> layout(p.0.mem) == layout(m.mem),
{
    broadcast use lemma_write_keeps_layout, lemma_write_each_keeps_layout, lemma_store_regs_keeps_layout,
        lemma_read_operand_keeps_mem, lemma_write_operand_keeps_layout, lemma_load_regs_keeps_mem;

}

/// The layout law for Rod.
proof fn lemma_layout_rod(m: CpuModel, inst: Instruction)
    requires
        inst.kind is Rod,
    ensures
        step_spec(m, inst) matches Ok(p) ==> layout(p.0.mem) == layout(m.mem),
{
    broadcast use lemma_write_keeps_layout, lemma_write_each_keeps_layout, lemma_store_regs_keeps_layout,
        lemma_read_operand_keeps_mem, lemma_write_operand_keeps_layout, lemma_load_regs_keeps_mem;

}

/// The layout law for Roxd.
proof fn lemma_layout_roxd(m: CpuModel, inst: Instruction)
    requires
        inst.kind is Roxd,
    ensures
        step_spec(m, inst) matches Ok(p) ==> layout(p.0.mem) == layout(m.mem),
{
    broadcast use lemma_write_keeps_layout, lemma_write_each_keeps_layout, lemma_store_regs_keeps_layout,
        lemma_read_operand_keeps_mem, lemma_write_operand_keeps_layout, lemma_load_regs_keeps_mem;

}

/// The layout law for Btst.
proof fn lemma_layout_btst(m: CpuModel, inst: Instruction)
    requires
        inst.kind is Btst,
    ensures
        step_spec(m, inst) matches Ok(p) ==> layout(p.0.mem) == layout(m.mem),
{
    broadcast use lemma_write_keeps_layout, lemma_write_each_keeps_layout, lemma_store_regs_keeps_layout,
        lemma_read_operand_keeps_mem, lemma_write_operand_keeps_layout, lemma_load_regs_keeps_mem;

}

/// The layout law for Bchg.
proof fn lemma_layout_bchg(m: CpuModel, inst: Instruction)
    requires
        inst.kind is Bchg,
    ensures
        step_spec(m, inst) matches Ok(p) ==> layout(p.0.mem) == layout(m.mem),
{
    broadcast use lemma_write_keeps_layout, lemma_write_each_keeps_layout, lemma_store_regs_keeps_layout,
        lemma_read_operand_keeps_mem, lemma_write_operand_keeps_layout, lemma_load_regs_keeps_mem;

}

/// The layout law for Bclr.
proof fn lemma_layout_bclr(m: CpuModel, inst: Instruction)
    requires
        inst.kind is Bclr,
    ensures
        step_spec(m, inst) matches Ok(p) ==> layout(p.0.mem) == layout(m.mem),
{
    broadcast use lemma_write_keeps_layout, lemma_write_each_keeps_layout, lemma_store_regs_keeps_layout,
        lemma_read_operand_keeps_mem, lemma_write_operand_keeps_layout, lemma_load_regs_keeps_mem;

}

/// The layout law for Bset.
proof fn lemma_layout_bset(m: CpuModel, inst: Instruction)
    requires
        inst.kind is Bset,
    ensures
        step_spec(m, inst) matches Ok(p) ==> layout(p.0.mem) == layout(m.mem),
{
    broadcast use lemma_write_keeps_layout, lemma_write_each_keeps_layout, lemma_store_regs_keeps_layout,
        lemma_read_operand_keeps_mem, lemma_write_operand_keeps_layout, lemma_load_regs_keeps_mem;

}

/// The layout law for Scc.
proof fn lemma_layout_scc(m: CpuModel, inst: Instruction)
    requires
        inst.kind is Scc,
    ensures
        step_spec(m, inst) matches Ok(p) ==> layout(p.0.mem) == layout(m.mem),
{
    broadcast use lemma_write_keeps_layout, lemma_write_each_keeps_layout, lemma_store_regs_keeps_layout,
        lemma_read_operand_keeps_mem, lemma_write_operand_keeps_layout, lemma_load_regs_keeps_mem;

}

/// The layout law for DBcc.
proof fn lemma_layout_d_bcc(m: CpuModel, inst: Instruction)
    requires
        inst.kind is DBcc,
    ensures
        step_spec(m, inst) matches Ok(p) ==> layout(p.0.mem) == layout(m.mem),
{
    broadcast use lemma_write_keeps_layout, lemma_write_each_keeps_layout, lemma_store_regs_keeps_layout,
        lemma_read_operand_keeps_mem, lemma_write_operand_keeps_layout, lemma_load_regs_keeps_mem;

}

/// The layout law for Divu.
proof fn lemma_layout_divu(m: CpuModel, inst: Instruction)
    requires
        inst.kind is Divu,
    ensures
        step_spec(m, inst) matches Ok(p) ==> layout(p.0.mem) == layout(m.mem),
{
    broadcast use lemma_write_keeps_layout, lemma_write_each_keeps_layout, lemma_store_regs_keeps_layout,
        lemma_read_operand_keeps_mem, lemma_write_operand_keeps_layout, lemma_load_regs_keeps_mem;

}

/// The layout law for Divs.
proof fn lemma_layout_divs(m: CpuModel, inst: Instruction)
    requires
        inst.kind is Divs,
    ensures
        step_spec(m, inst) matches Ok(p) ==> layout(p.0.mem) == layout(m.mem),
{
    broadcast use lemma_write_keeps_layout, lemma_write_each_keeps_layout, lemma_store_regs_keeps_layout,
        lemma_read_operand_keeps_mem, lemma_write_operand_keeps_layout, lemma_load_regs_keeps_mem;

}

/// The layout law for DivuL.
proof fn lemma_layout_divu_l(m: CpuModel, inst: Instruction)
    requires
        inst.kind is DivuL,
    ensures
        step_spec(m, inst) matches Ok(p) ==> layout(p.0.mem) == layout(m.mem),
{
    broadcast use lemma_write_keeps_layout, lemma_write_each_keeps_layout, lemma_store_regs_keeps_layout,
        lemma_read_operand_keeps_mem, lemma_write_operand_keeps_layout, lemma_load_regs_keeps_mem;

}

/// The layout law for DivsL.
proof fn lemma_layout_divs_l(m: CpuModel, inst: Instruction)
    requires
        inst.kind is DivsL,
    ensures
        step_spec(m, inst) matches Ok(p) ==> layout(p.0.mem) == layout(m.mem),
{
    broadcast use lemma_write_keeps_layout, lemma_write_each_keeps_layout, lemma_store_regs_keeps_layout,
        lemma_read_operand_keeps_mem, lemma_write_operand_keeps_layout, lemma_load_regs_keeps_mem;

}

/// The layout law for MuluL.
proof fn lemma_layout_mulu_l(m: CpuModel, inst: Instruction)
    requires
        inst.kind is MuluL,
    ensures
        step_spec(m, inst) matches Ok(p) ==> layout(p.0.mem) == layout(m.mem),
{
    broadcast use lemma_write_keeps_layout, lemma_write_each_keeps_layout, lemma_store_regs_keeps_layout,
        lemma_read_operand_keeps_mem, lemma_write_operand_keeps_layout, lemma_load_regs_keeps_mem;

}

/// The layout law for MulsL.
proof fn lemma_layout_muls_l(m: CpuModel, inst: Instruction)
    requires
        inst.kind is MulsL,
    ensures
        step_spec(m, inst) matches Ok(p) ==> layout(p.0.mem) == layout(m.mem),
{
    broadcast use lemma_write_keeps_layout, lemma_write_each_keeps_layout, lemma_store_regs_keeps_layout,
        lemma_read_operand_keeps_mem, lemma_write_operand_keeps_layout, lemma_load_regs_keeps_mem;

}

/// The layout law for Cas.
proof fn lemma_layout_cas(m: CpuModel, inst: Instruction)
    requires
        inst.kind is Cas,
    ensures
        step_spec(m, inst) matches Ok(p) ==> layout(p.0.mem) == layout(m.mem),
{
    broadcast use lemma_write_keeps_layout, lemma_write_each_keeps_layout, lemma_store_regs_keeps_layout,
        lemma_read_operand_keeps_mem, lemma_write_operand_keeps_layout, lemma_load_regs_keeps_mem;

}

/// The layout law for Cas2.
proof fn lemma_layout_cas2(m: CpuModel, inst: Instruction)
    requires
        inst.kind is Cas2,
    ensures
        step_spec(m, inst) matches Ok(p) ==> layout(p.0.mem) == layout(m.mem),
{
    broadcast use lemma_write_keeps_layout, lemma_write_each_keeps_layout, lemma_store_regs_keeps_layout,
        lemma_read_operand_keeps_mem, lemma_write_operand_keeps_layout, lemma_load_regs_keeps_mem;

}

/// The layout law for Cmp2.
proof fn lemma_layout_cmp2(m: CpuModel, inst: Instruction)
    requires
        inst.kind is Cmp2,
    ensures
        step_spec(m, inst) matches Ok(p) ==> layout(p.0.mem) == layout(m.mem),
{
    broadcast use lemma_write_keeps_layout, lemma_write_each_keeps_layout, lemma_store_regs_keeps_layout,
        lemma_read_operand_keeps_mem, lemma_write_operand_keeps_layout, lemma_load_regs_keeps_mem;

}

/// The layout law for Chk2.
proof fn lemma_layout_chk2(m: CpuModel, inst: Instruction)
    requires
        inst.kind is Chk2,
    ensures
        step_spec(m, inst) matches Ok(p) ==> layout(p.0.mem) == layout(m.mem),
{
    broadcast use lemma_write_keeps_layout, lemma_write_each_keeps_layout, lemma_store_regs_keeps_layout,
        lemma_read_operand_keeps_mem, lemma_write_operand_keeps_layout, lemma_load_regs_keeps_mem;

}

/// The layout law for Exg.
proof fn lemma_layout_exg(m: CpuModel, inst: Instruction)
    requires
        inst.kind is Exg,
    ensures
        step_spec(m, inst) matches Ok(p) ==> layout(p.0.mem) == layout(m.mem),
{
    broadcast use lemma_write_keeps_layout, lemma_write_each_keeps_layout, lemma_store_regs_keeps_layout,
        lemma_read_operand_keeps_mem, lemma_write_operand_keeps_layout, lemma_load_regs_keeps_mem;

}

/// The layout law for Addx.
proof fn lemma_layout_addx(m: CpuModel, inst: Instruction)
    requires
        inst.kind is Addx,
    ensures
        step_spec(m, inst) matches Ok(p) ==> layout(p.0.mem) == layout(m.mem),
{
    broadcast use lemma_write_keeps_layout, lemma_write_each_keeps_layout, lemma_store_regs_keeps_layout,
        lemma_read_operand_keeps_mem, lemma_write_operand_keeps_layout, lemma_load_regs_keeps_mem;

}

/// The layout law for Subx.
proof fn lemma_layout_subx(m: CpuModel, inst: Instruction)
    requires
        inst.kind is Subx,
    ensures
        step_spec(m, inst) matches Ok(p) ==> layout(p.0.mem) == layout(m.mem),
{
    broadcast use lemma_write_keeps_layout, lemma_write_each_keeps_layout, lemma_store_regs_keeps_layout,
        lemma_read_operand_keeps_mem, lemma_write_operand_keeps_layout, lemma_load_regs_keeps_mem;

}

/// The layout law for Abcd.
proof fn lemma_layout_abcd(m: CpuModel, inst: Instruction)
    requires
        inst.kind is Abcd,
    ensures
        step_spec(m, inst) matches Ok(p) ==> layout(p.0.mem) == layout(m.mem),
{
    broadcast use lemma_write_keeps_layout, lemma_write_each_keeps_layout, lemma_store_regs_keeps_layout,
        lemma_read_operand_keeps_mem, lemma_write_operand_keeps_layout, lemma_load_regs_keeps_mem;

}

/// The layout law for Sbcd.
proof fn lemma_layout_sbcd(m: CpuModel, inst: Instruction)
    requires
        inst.kind is Sbcd,
    ensures
        step_spec(m, inst) matches Ok(p) ==> layout(p.0.mem) == layout(m.mem),
{
    broadcast use lemma_write_keeps_layout, lemma_write_each_keeps_layout, lemma_store_regs_keeps_layout,
        lemma_read_operand_keeps_mem, lemma_write_operand_keeps_layout, lemma_load_regs_keeps_mem;

}

/// The layout law for Movem.
proof fn lemma_layout_movem(m: CpuModel, inst: Instruction)
    requires
        inst.kind is Movem,
    ensures
        step_spec(m, inst) matches Ok(p) ==> layout(p.0.mem) == layout(m.mem),
{
    broadcast use lemma_write_keeps_layout, lemma_write_each_keeps_layout, lemma_store_regs_keeps_layout,
        lemma_read_operand_keeps_mem, lemma_write_operand_keeps_layout, lemma_load_regs_keeps_mem;

}

/// The layout law for Cmpm.
proof fn lemma_layout_cmpm(m: CpuModel, inst: Instruction)
    requires
        inst.kind is Cmpm,
    ensures
        step_spec(m, inst) matches Ok(p) ==> layout(p.0.mem) == layout(m.mem),
{
    broadcast use lemma_write_keeps_layout, lemma_write_each_keeps_layout, lemma_store_regs_keeps_layout,
        lemma_read_operand_keeps_mem, lemma_write_operand_keeps_layout, lemma_load_regs_keeps_mem;

}

/// The layout law for Tas.
proof fn lemma_layout_tas(m: CpuModel, inst: Instruction)
    requires
        inst.kind is Tas,
    ensures
        step_spec(m, inst) matches Ok(p) ==> layout(p.0.mem) == layout(m.mem),
{
    broadcast use lemma_write_keeps_layout, lemma_write_each_keeps_layout, lemma_store_regs_keeps_layout,
        lemma_read_operand_keeps_mem, lemma_write_operand_keeps_layout, lemma_load_regs_keeps_mem;

}

/// The layout law for OriToCcr.
proof fn lemma_layout_ori_to_ccr(m: CpuModel, inst: Instruction)
    requires
        inst.kind is OriToCcr,
    ensures
        step_spec(m, inst) matches Ok(p) ==> layout(p.0.mem) == layout(m.mem),
{
    broadcast use lemma_write_keeps_layout, lemma_write_each_keeps_layout, lemma_store_regs_keeps_layout,
        lemma_read_operand_keeps_mem, lemma_write_operand_keeps_layout, lemma_load_regs_keeps_mem;

}

/// The layout law for EoriToCcr.
proof fn lemma_layout_eori_to_ccr(m: CpuModel, inst: Instruction)
    requires
        inst.kind is EoriToCcr,
    ensures
        step_spec(m, inst) matches Ok(p) ==> layout(p.0.mem) == layout(m.mem),
{
    broadcast use lemma_write_keeps_layout, lemma_write_each_keeps_layout, lemma_store_regs_keeps_layout,
        lemma_read_operand_keeps_mem, lemma_write_operand_keeps_layout, lemma_load_regs_keeps_mem;

}

/// The layout law for Bftst.
proof fn lemma_layout_bftst(m: CpuModel, inst: Instruction)
    requires
        inst.kind is Bftst,
    ensures
        step_spec(m, inst) matches Ok(p) ==> layout(p.0.mem) == layout(m.mem),
{
    broadcast use lemma_write_keeps_layout, lemma_write_each_keeps_layout, lemma_store_regs_keeps_layout,
        lemma_read_operand_keeps_mem, lemma_write_operand_keeps_layout, lemma_load_regs_keeps_mem;

}

/// The layout law for Bfchg.
proof fn lemma_layout_bfchg(m: CpuModel, inst: Instruction)
    requires
        inst.kind is Bfchg,
    ensures
        step_spec(m, inst) matches Ok(p) ==> layout(p.0.mem) == layout(m.mem),
{
    broadcast use lemma_write_keeps_layout, lemma_write_each_keeps_layout, lemma_store_regs_keeps_layout,
        lemma_read_operand_keeps_mem, lemma_write_operand_keeps_layout, lemma_load_regs_keeps_mem;

}

/// The layout law for Bfclr.
proof fn lemma_layout_bfclr(m: CpuModel, inst: Instruction)
    requires
        inst.kind is Bfclr,
    ensures
        step_spec(m, inst) matches Ok(p) ==> layout(p.0.mem) == layout(m.mem),
{
    broadcast use lemma_write_keeps_layout, lemma_write_each_keeps_layout, lemma_store_regs_keeps_layout,
        lemma_read_operand_keeps_mem, lemma_write_operand_keeps_layout, lemma_load_regs_keeps_mem;

}

/// The layout law for Bfset.
proof fn lemma_layout_bfset(m: CpuModel, inst: Instruction)
    requires
        inst.kind is Bfset,
    ensures
        step_spec(m, inst) matches Ok(p) ==> layout(p.0.mem) == layout(m.mem),
{
    broadcast use lemma_write_keeps_layout, lemma_write_each_keeps_layout, lemma_store_regs_keeps_layout,
        lemma_read_operand_keeps_mem, lemma_write_operand_keeps_layout, lemma_load_regs_keeps_mem;

}

/// The layout law for Bfextu.
proof fn lemma_layout_bfextu(m: CpuModel, inst: Instruction)
    requires
        inst.kind is Bfextu,
    ensures
        step_spec(m, inst) matches Ok(p) ==> layout(p.0.mem) == layout(m.mem),
{
    broadcast use lemma_write_keeps_layout, lemma_write_each_keeps_layout, lemma_store_regs_keeps_layout,
        lemma_read_operand_keeps_mem, lemma_write_operand_keeps_layout, lemma_load_regs_keeps_mem;

}

/// The layout law for Bfexts.
proof fn lemma_layout_bfexts(m: CpuModel, inst: Instruction)
    requires
        inst.kind is Bfexts,
    ensures
        step_spec(m, inst) matches Ok(p) ==> layout(p.0.mem) == layout(m.mem),
{
    broadcast use lemma_write_keeps_layout, lemma_write_each_keeps_layout, lemma_store_regs_keeps_layout,
        lemma_read_operand_keeps_mem, lemma_write_operand_keeps_layout, lemma_load_regs_keeps_mem;

}

/// The layout law for Bfins.
proof fn lemma_layout_bfins(m: CpuModel, inst: Instruction)
    requires
        inst.kind is Bfins,
    ensures
        step_spec(m, inst) matches Ok(p) ==> layout(p.0.mem) == layout(m.mem),
{
    broadcast use lemma_write_keeps_layout, lemma_write_each_keeps_layout, lemma_store_regs_keeps_layout,
        lemma_read_operand_keeps_mem, lemma_write_operand_keeps_layout, lemma_load_regs_keeps_mem;

}

/// The layout law for Bfffo.
proof fn lemma_layout_bfffo(m: CpuModel, inst: Instruction)
    requires
        inst.kind is Bfffo,
    ensures
        step_spec(m, inst) matches Ok(p) ==> layout(p.0.mem) == layout(m.mem),
{
    broadcast use lemma_write_keeps_layout, lemma_write_each_keeps_layout, lemma_store_regs_keeps_layout,
        lemma_read_operand_keeps_mem, lemma_write_operand_keeps_layout, lemma_load_regs_keeps_mem;

}

/// The layout law for MoveToCcr.
proof fn lemma_layout_move_to_ccr(m: CpuModel, inst: Instruction)
    requires
        inst.kind is MoveToCcr,
    ensures
        step_spec(m, inst) matches Ok(p) ==> layout(p.0.mem) == layout(m.mem),
{
    broadcast use lemma_write_keeps_layout, lemma_write_each_keeps_layout, lemma_store_regs_keeps_layout,
        lemma_read_operand_keeps_mem, lemma_write_operand_keeps_layout, lemma_load_regs_keeps_mem;

}

/// The layout law for Other.
proof fn lemma_layout_other(m: CpuModel, inst: Instruction)
    requires
        inst.kind is Other,
    ensures
        step_spec(m, inst) matches Ok(p) ==> layout(p.0.mem) == layout(m.mem),
{
    broadcast use lemma_write_keeps_layout, lemma_write_each_keeps_layout, lemma_store_regs_keeps_layout,
        lemma_read_operand_keeps_mem, lemma_write_operand_keeps_layout, lemma_load_regs_keeps_mem;

}

/// An instruction leaves the layout of the address space as it was: no segment
/// appears, disappears, moves, changes length or changes permissions.
pub proof fn law_step_keeps_layout(m: CpuModel, inst: Instruction)
    ensures
        step_spec(m, inst) matches Ok(p) ==> layout(p.0.mem) == layout(m.mem),
{
    match inst.kind {
        InstructionKind::Nop { .. } => lemma_layout_nop(m, inst),
        InstructionKind::Addq { .. } => lemma_layout_addq(m, inst),
        InstructionKind::Moveq { .. } => lemma_layout_moveq(m, inst),
        InstructionKind::Move { .. } => lemma_layout_move(m, inst),
        InstructionKind::Lea { .. } => lemma_layout_lea(m, inst),
        InstructionKind::Mulu { .. } => lemma_layout_mulu(m, inst),
        InstructionKind::Muls { .. } => lemma_layout_muls(m, inst),
        InstructionKind::Trap { .. } => lemma_layout_trap(m, inst),
        InstructionKind::Trapcc { .. } => lemma_layout_trapcc(m, inst),
        InstructionKind::Bkpt { .. } => lemma_layout_bkpt(m, inst),
        InstructionKind::Rts { .. } => lemma_layout_rts(m, inst),
        InstructionKind::Rtd { .. } => lemma_layout_rtd(m, inst),
        InstructionKind::Tst { .. } => lemma_layout_tst(m, inst),
        InstructionKind::Bra { .. } => lemma_layout_bra(m, inst),
        InstructionKind::Bcc { .. } => lemma_layout_bcc(m, inst),
        InstructionKind::Clr { .. } => lemma_layout_clr(m, inst),
        InstructionKind::Neg { .. } => lemma_layout_neg(m, inst),
        InstructionKind::Not { .. } => lemma_layout_not(m, inst),
        InstructionKind::Negx { .. } => lemma_layout_negx(m, inst),
        InstructionKind::Add { .. } => lemma_layout_add(m, inst),
        InstructionKind::Sub { .. } => lemma_layout_sub(m, inst),
        InstructionKind::Cmp { .. } => lemma_layout_cmp(m, inst),
        InstructionKind::Cmpa { .. } => lemma_layout_cmpa(m, inst),
        InstructionKind::And { .. } => lemma_layout_and(m, inst),
        InstructionKind::Or { .. } => lemma_layout_or(m, inst),
        InstructionKind::Eor { .. } => lemma_layout_eor(m, inst),
        InstructionKind::Jsr { .. } => lemma_layout_jsr(m, inst),
        InstructionKind::Jmp { .. } => lemma_layout_jmp(m, inst),
        InstructionKind::Bsr { .. } => lemma_layout_bsr(m, inst),
        InstructionKind::Subq { .. } => lemma_layout_subq(m, inst),
        InstructionKind::Adda { .. } => lemma_layout_adda(m, inst),
        InstructionKind::Suba { .. } => lemma_layout_suba(m, inst),
        InstructionKind::Movea { .. } => lemma_layout_movea(m, inst),
        InstructionKind::Ext { .. } => lemma_layout_ext(m, inst),
        InstructionKind::Swap { .. } => lemma_layout_swap(m, inst),
        InstructionKind::Pea { .. } => lemma_layout_pea(m, inst),
        InstructionKind::Link { .. } => lemma_layout_link(m, inst),
        InstructionKind::Unlk { .. } => lemma_layout_unlk(m, inst),
        InstructionKind::Addi { .. } => lemma_layout_addi(m, inst),
        InstructionKind::Subi { .. } => lemma_layout_subi(m, inst),
        InstructionKind::Andi { .. } => lemma_layout_andi(m, inst),
        InstructionKind::Ori { .. } => lemma_layout_ori(m, inst),
        InstructionKind::Eori { .. } => lemma_layout_eori(m, inst),
        InstructionKind::Cmpi { .. } => lemma_layout_cmpi(m, inst),
        InstructionKind::Asd { .. } => lemma_layout_asd(m, inst),
        InstructionKind::Lsd { .. } => lemma_layout_lsd(m, inst),
        InstructionKind::Rod { .. } => lemma_layout_rod(m, inst),
        InstructionKind::Roxd { .. } => lemma_layout_roxd(m, inst),
        InstructionKind::Btst { .. } => lemma_layout_btst(m, inst),
        InstructionKind::Bchg { .. } => lemma_layout_bchg(m, inst),
        InstructionKind::Bclr { .. } => lemma_layout_bclr(m, inst),
        InstructionKind::Bset { .. } => lemma_layout_bset(m, inst),
        InstructionKind::Scc { .. } => lemma_layout_scc(m, inst),
        InstructionKind::DBcc { .. } => lemma_layout_d_bcc(m, inst),
        InstructionKind::Divu { .. } => lemma_layout_divu(m, inst),
        InstructionKind::Divs { .. } => lemma_layout_divs(m, inst),
        InstructionKind::DivuL { .. } => lemma_layout_divu_l(m, inst),
        InstructionKind::DivsL { .. } => lemma_layout_divs_l(m, inst),
        InstructionKind::MuluL { .. } => lemma_layout_mulu_l(m, inst),
        InstructionKind::MulsL { .. } => lemma_layout_muls_l(m, inst),
        InstructionKind::Cas { .. } => lemma_layout_cas(m, inst),
        InstructionKind::Cas2 { .. } => lemma_layout_cas2(m, inst),
        InstructionKind::Cmp2 { .. } => lemma_layout_cmp2(m, inst),
        InstructionKind::Chk2 { .. } => lemma_layout_chk2(m, inst),
        InstructionKind::Exg { .. } => lemma_layout_exg(m, inst),
        InstructionKind::Addx { .. } => lemma_layout_addx(m, inst),
        InstructionKind::Subx { .. } => lemma_layout_subx(m, inst),
        InstructionKind::Abcd { .. } => lemma_layout_abcd(m, inst),
        InstructionKind::Sbcd { .. } => lemma_layout_sbcd(m, inst),
        InstructionKind::Movem { .. } => lemma_layout_movem(m, inst),
        InstructionKind::Cmpm { .. } => lemma_layout_cmpm(m, inst),
        InstructionKind::Tas { .. } => lemma_layout_tas(m, inst),
        InstructionKind::OriToCcr { .. } => lemma_layout_ori_to_ccr(m, inst),
        InstructionKind::EoriToCcr { .. } => lemma_layout_eori_to_ccr(m, inst),
        InstructionKind::Bftst { .. } => lemma_layout_bftst(m, inst),
        InstructionKind::Bfchg { .. } => lemma_layout_bfchg(m, inst),
        InstructionKind::Bfclr { .. } => lemma_layout_bfclr(m, inst),
        InstructionKind::Bfset { .. } => lemma_layout_bfset(m, inst),
        InstructionKind::Bfextu { .. } => lemma_layout_bfextu(m, inst),
        InstructionKind::Bfexts { .. } => lemma_layout_bfexts(m, inst),
        InstructionKind::Bfins { .. } => lemma_layout_bfins(m, inst),
        InstructionKind::Bfffo { .. } => lemma_layout_bfffo(m, inst),
        InstructionKind::MoveToCcr { .. } => lemma_layout_move_to_ccr(m, inst),
        InstructionKind::Other { .. } => lemma_layout_other(m, inst),
    }
}

} // verus!

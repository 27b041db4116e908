//! Decoded m68k instructions: the operand and instruction shapes that the
//! interpreter executes.

use vstd::prelude::*;

verus! {

/// Operand size of an instruction.
#[derive(Clone, Copy, Debug, PartialEq, Eq, Structural)]
pub enum Size {
    Byte,
    Word,
    Long,
}

/// A data register D0..D7.
#[derive(Clone, Copy, Debug, PartialEq, Eq, Structural)]
pub enum DataReg {
    D0,
    D1,
    D2,
    D3,
    D4,
    D5,
    D6,
    D7,
}

/// An address register A0..A7 (A7 is the stack pointer).
#[derive(Clone, Copy, Debug, PartialEq, Eq, Structural)]
pub enum AddrReg {
    A0,
    A1,
    A2,
    A3,
    A4,
    A5,
    A6,
    A7,
}

/// Either kind of register, as named by CMP2/CHK2.
#[derive(Clone, Copy, Debug, PartialEq, Eq, Structural)]
pub enum Register {
    Data(DataReg),
    Address(AddrReg),
}

/// Immediate operand data, as it was encoded.
#[derive(Clone, Copy, Debug, PartialEq, Eq, Structural)]
pub enum Immediate {
    Byte(u8),
    Word(u16),
    Long(u32),
}

/// The effective-address mode field of an operand.
#[derive(Clone, Copy, Debug, PartialEq, Eq, Structural)]
pub enum EffectiveAddress {
    Dr(DataReg),
    Ar(AddrReg),
    Addr(AddrReg),
    AddrPostIncr(AddrReg),
    AddrPreDecr(AddrReg),
    AddrDisplace(AddrReg),
    AddrIndex(AddrReg),
    PCDisplace,
    PCIndex,
    AbsShort,
    AbsLong,
    Immediate,
}

/// Extension data that follows the opcode word of an operand.
#[derive(Clone, Copy, Debug, PartialEq, Eq, Structural)]
pub enum ExtensionData {
    /// A 16-bit word: a displacement or a short absolute address.
    Short(u16),
    /// A 32-bit long absolute address.
    Long(u32),
    /// Immediate data.
    Imm(Immediate),
    /// An index extension word and its base displacement.
    Index { ext_word: u16, base_disp: i32 },
}

/// A complete operand: the mode and its extension data.
#[derive(Clone, Copy, Debug, PartialEq, Eq, Structural)]
pub struct AddressingMode {
    pub ea: EffectiveAddress,
    pub data: Option<ExtensionData>,
}

impl AddressingMode {
    /// The 16-bit extension word, where the operand carries one.
    pub fn short_data(&self) -> (r: Option<u16>)
        ensures
            r == (match self.data {
                Some(ExtensionData::Short(v)) => Some(v),
                _ => None::<u16>,
            }),
    {
        match self.data {
            Some(ExtensionData::Short(v)) => Some(v),
            _ => None,
        }
    }

    /// The 32-bit extension long, where the operand carries one.
    pub fn long_data(&self) -> (r: Option<u32>)
        ensures
            r == (match self.data {
                Some(ExtensionData::Long(v)) => Some(v),
                _ => None::<u32>,
            }),
    {
        match self.data {
            Some(ExtensionData::Long(v)) => Some(v),
            _ => None,
        }
    }

    /// The immediate data, where the operand carries some.
    pub fn immediate(&self) -> (r: Option<Immediate>)
        ensures
            r == (match self.data {
                Some(ExtensionData::Imm(v)) => Some(v),
                _ => None::<Immediate>,
            }),
    {
        match self.data {
            Some(ExtensionData::Imm(v)) => Some(v),
            _ => None,
        }
    }

    /// The index extension word and base displacement, where present.
    pub fn index_ext(&self) -> (r: Option<(u16, i32)>)
        ensures
            r == (match self.data {
                Some(ExtensionData::Index { ext_word, base_disp }) => Some((ext_word, base_disp)),
                _ => None::<(u16, i32)>,
            }),
    {
        match self.data {
            Some(ExtensionData::Index { ext_word, base_disp }) => Some((ext_word, base_disp)),
            _ => None,
        }
    }
}

/// Branch and set conditions.
#[derive(Clone, Copy, Debug, PartialEq, Eq, Structural)]
pub enum Condition {
    True,
    False,
    Higher,
    LowerOrSame,
    CarryClear,
    CarrySet,
    NotEqual,
    Equal,
    OverflowClear,
    OverflowSet,
    Plus,
    Minus,
    GreaterOrEqual,
    LessThan,
    GreaterThan,
    LessOrEqual,
}

#[derive(Clone, Copy, Debug, PartialEq, Eq, Structural)]
pub enum RightOrLeft {
    Right,
    Left,
}

#[derive(Clone, Copy, Debug, PartialEq, Eq, Structural)]
pub enum ShiftCount {
    Immediate(u8),
    Register(DataReg),
}

/// A shift or rotate of a data register.
#[derive(Clone, Copy, Debug, PartialEq, Eq, Structural)]
pub struct ShiftReg {
    pub count: ShiftCount,
    pub dst: DataReg,
    pub size: Size,
    pub direction: RightOrLeft,
}

/// A shift or rotate by one of a word in memory.
#[derive(Clone, Copy, Debug, PartialEq, Eq, Structural)]
pub struct ShiftEa {
    pub mode: AddressingMode,
    pub direction: RightOrLeft,
}

#[derive(Clone, Copy, Debug, PartialEq, Eq, Structural)]
pub enum Shift {
    Reg(ShiftReg),
    Ea(ShiftEa),
}

#[derive(Clone, Copy, Debug, PartialEq, Eq, Structural)]
pub struct BitImm {
    pub bit_num: u8,
    pub mode: AddressingMode,
}

#[derive(Clone, Copy, Debug, PartialEq, Eq, Structural)]
pub struct BitReg {
    pub bit_reg: DataReg,
    pub mode: AddressingMode,
}

/// Operands of BTST/BCHG/BCLR/BSET.
#[derive(Clone, Copy, Debug, PartialEq, Eq, Structural)]
pub enum BitOp {
    Imm(BitImm),
    Reg(BitReg),
}

/// Offset or width of a bit field operation.
#[derive(Clone, Copy, Debug, PartialEq, Eq, Structural)]
pub enum BitFieldParam {
    Immediate(u8),
    Register(DataReg),
}

/// Operands of ADDQ/SUBQ.
#[derive(Clone, Copy, Debug, PartialEq, Eq, Structural)]
pub struct QuickOp {
    pub data: u8,
    pub size: Size,
    pub mode: AddressingMode,
}

/// Operands of single-operand instructions (CLR, NEG, NOT, NEGX).
#[derive(Clone, Copy, Debug, PartialEq, Eq, Structural)]
pub struct UnaryOp {
    pub size: Size,
    pub mode: AddressingMode,
}

/// `<ea>` to data register form.
#[derive(Clone, Copy, Debug, PartialEq, Eq, Structural)]
pub struct EaToDn {
    pub size: Size,
    pub src: AddressingMode,
    pub dst: DataReg,
}

/// Data register to `<ea>` form.
#[derive(Clone, Copy, Debug, PartialEq, Eq, Structural)]
pub struct DnToEa {
    pub size: Size,
    pub src: DataReg,
    pub dst: AddressingMode,
}

#[derive(Clone, Copy, Debug, PartialEq, Eq, Structural)]
pub enum Add {
    EaToDn(EaToDn),
    DnToEa(DnToEa),
}

#[derive(Clone, Copy, Debug, PartialEq, Eq, Structural)]
pub enum Sub {
    EaToDn(EaToDn),
    DnToEa(DnToEa),
}

#[derive(Clone, Copy, Debug, PartialEq, Eq, Structural)]
pub enum And {
    EaToDn(EaToDn),
    DnToEa(DnToEa),
}

#[derive(Clone, Copy, Debug, PartialEq, Eq, Structural)]
pub enum Or {
    EaToDn(EaToDn),
    DnToEa(DnToEa),
}

/// Operands of the immediate instructions (ADDI, SUBI, ANDI, ORI, EORI, CMPI).
#[derive(Clone, Copy, Debug, PartialEq, Eq, Structural)]
pub struct ImmOp {
    pub size: Size,
    pub imm: Immediate,
    pub mode: AddressingMode,
}

#[derive(Clone, Copy, Debug, PartialEq, Eq, Structural)]
pub enum ExtMode {
    ByteToWord,
    WordToLong,
    ByteToLong,
}

#[derive(Clone, Copy, Debug, PartialEq, Eq, Structural)]
pub enum Exg {
    DataData { rx: DataReg, ry: DataReg },
    AddrAddr { rx: AddrReg, ry: AddrReg },
    DataAddr { data: DataReg, addr: AddrReg },
}

/// Register-to-register form of ADDX/SUBX.
#[derive(Clone, Copy, Debug, PartialEq, Eq, Structural)]
pub struct ExtendDn {
    pub size: Size,
    pub src: DataReg,
    pub dst: DataReg,
}

/// Memory predecrement form of ADDX/SUBX.
#[derive(Clone, Copy, Debug, PartialEq, Eq, Structural)]
pub struct ExtendPreDec {
    pub size: Size,
    pub src: AddrReg,
    pub dst: AddrReg,
}

#[derive(Clone, Copy, Debug, PartialEq, Eq, Structural)]
pub enum Addx {
    Dn(ExtendDn),
    PreDec(ExtendPreDec),
}

#[derive(Clone, Copy, Debug, PartialEq, Eq, Structural)]
pub enum Subx {
    Dn(ExtendDn),
    PreDec(ExtendPreDec),
}

#[derive(Clone, Copy, Debug, PartialEq, Eq, Structural)]
pub enum Abcd {
    Dn { src: DataReg, dst: DataReg },
    PreDec { src: AddrReg, dst: AddrReg },
}

#[derive(Clone, Copy, Debug, PartialEq, Eq, Structural)]
pub enum Sbcd {
    Dn { src: DataReg, dst: DataReg },
    PreDec { src: AddrReg, dst: AddrReg },
}

#[derive(Clone, Copy, Debug, PartialEq, Eq, Structural)]
pub enum DataDir {
    RegToMem,
    MemToReg,
}

/// Operands of MOVEM.
#[derive(Clone, Copy, Debug, PartialEq, Eq, Structural)]
pub struct Movem {
    pub size: Size,
    pub direction: DataDir,
    pub mode: AddressingMode,
    pub register_mask: u16,
}

/// The operation of a decoded instruction and its operands.
#[derive(Clone, Copy, Debug, PartialEq, Eq, Structural)]
pub enum InstructionKind {
    Nop,
    Addq(QuickOp),
    Moveq { data: i8, dst: DataReg },
    Move { size: Size, src: AddressingMode, dst: AddressingMode },
    Lea { src: AddressingMode, dst: AddrReg },
    Mulu { src: AddressingMode, dst: DataReg },
    Muls { src: AddressingMode, dst: DataReg },
    Trap { vector: u8 },
    Trapcc { condition: Condition, operand: Option<u32> },
    Bkpt { vector: u8 },
    Rts,
    Rtd { displacement: i16 },
    Tst { size: Size, mode: AddressingMode },
    Bra { displacement: i32 },
    Bcc { condition: Condition, displacement: i32 },
    Clr(UnaryOp),
    Neg(UnaryOp),
    Not(UnaryOp),
    Negx(UnaryOp),
    Add(Add),
    Sub(Sub),
    Cmp(EaToDn),
    Cmpa { addr_reg: AddrReg, size: Size, src: AddressingMode },
    And(And),
    Or(Or),
    Eor(DnToEa),
    Jsr { mode: AddressingMode },
    Jmp { mode: AddressingMode },
    Bsr { displacement: i32 },
    Subq(QuickOp),
    Adda { addr_reg: AddrReg, size: Size, mode: AddressingMode },
    Suba { addr_reg: AddrReg, size: Size, mode: AddressingMode },
    Movea { size: Size, src: AddressingMode, dst: AddrReg },
    Ext { data_reg: DataReg, mode: ExtMode },
    Swap { data_reg: DataReg },
    Pea { mode: AddressingMode },
    Link { addr_reg: AddrReg, displacement: i16 },
    Unlk { addr_reg: AddrReg },
    Addi(ImmOp),
    Subi(ImmOp),
    Andi(ImmOp),
    Ori(ImmOp),
    Eori(ImmOp),
    Cmpi(ImmOp),
    Asd(Shift),
    Lsd(Shift),
    Rod(Shift),
    Roxd(Shift),
    Btst(BitOp),
    Bchg(BitOp),
    Bclr(BitOp),
    Bset(BitOp),
    Scc { condition: Condition, mode: AddressingMode },
    DBcc { condition: Condition, data_reg: DataReg, displacement: i16 },
    Divu { src: AddressingMode, dst: DataReg },
    Divs { src: AddressingMode, dst: DataReg },
    DivuL { src: AddressingMode, dq: DataReg, dr: DataReg, is_64bit: bool },
    DivsL { src: AddressingMode, dq: DataReg, dr: DataReg, is_64bit: bool },
    MuluL { src: AddressingMode, dl: DataReg, dh: Option<DataReg> },
    MulsL { src: AddressingMode, dl: DataReg, dh: Option<DataReg> },
    Cas { size: Size, dc: DataReg, du: DataReg, mode: AddressingMode },
    Cas2 {
        size: Size,
        dc1: DataReg,
        dc2: DataReg,
        du1: DataReg,
        du2: DataReg,
        rn1: AddrReg,
        rn2: AddrReg,
    },
    Cmp2 { size: Size, mode: AddressingMode, reg: Register },
    Chk2 { size: Size, mode: AddressingMode, reg: Register },
    Exg(Exg),
    Addx(Addx),
    Subx(Subx),
    Abcd(Abcd),
    Sbcd(Sbcd),
    Movem(Movem),
    Cmpm { size: Size, src: AddrReg, dst: AddrReg },
    Tas { mode: AddressingMode },
    OriToCcr { imm: u8 },
    EoriToCcr { imm: u8 },
    Bftst { mode: AddressingMode, offset: BitFieldParam, width: BitFieldParam },
    Bfchg { mode: AddressingMode, offset: BitFieldParam, width: BitFieldParam },
    Bfclr { mode: AddressingMode, offset: BitFieldParam, width: BitFieldParam },
    Bfset { mode: AddressingMode, offset: BitFieldParam, width: BitFieldParam },
    Bfextu { src: AddressingMode, dst: DataReg, offset: BitFieldParam, width: BitFieldParam },
    Bfexts { src: AddressingMode, dst: DataReg, offset: BitFieldParam, width: BitFieldParam },
    Bfins { src: DataReg, dst: AddressingMode, offset: BitFieldParam, width: BitFieldParam },
    Bfffo { src: AddressingMode, dst: DataReg, offset: BitFieldParam, width: BitFieldParam },
    MoveToCcr { src: AddressingMode },
    /// An opcode that decodes but that the interpreter does not execute.
    Other { opcode: u16 },
}

/// A decoded instruction: where it stands, what it does and how many bytes it
/// occupies.
#[derive(Clone, Copy, Debug, PartialEq, Eq, Structural)]
pub struct Instruction {
    pub address: usize,
    pub kind: InstructionKind,
    pub length: usize,
}

impl Instruction {
    /// The encoded length of the instruction in bytes.
    pub fn len(&self) -> (r: usize)
        ensures
            r == self.length,
    {
        self.length
    }
}

} // verus!

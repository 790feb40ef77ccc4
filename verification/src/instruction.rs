//! Decoding of 64-bit encoded VM instructions.
//!
//! An encoded word holds, from least to most significant: three 16-bit
//! biased signed offsets, then fifteen flag bits selecting registers,
//! the operand-one addressing mode, the result computation mode, and the
//! program-counter, allocation-pointer and opcode fields. The topmost bit
//! is reserved and must be zero.

use vstd::prelude::*;

verus! {

/// A register selector: allocation pointer or frame pointer.
#[derive(Clone, Copy, Debug, PartialEq, Eq, Structural)]
pub enum Register {
    AP,
    FP,
}

/// Addressing mode of the second operand.
#[derive(Clone, Copy, Debug, PartialEq, Eq, Structural)]
pub enum Op1Addr {
    Imm,
    AP,
    FP,
    Op0,
}

/// How the result cell is computed.
#[derive(Clone, Copy, Debug, PartialEq, Eq, Structural)]
pub enum Res {
    Op1,
    Add,
    Mul,
    Unconstrained,
}

/// How the program counter advances.
#[derive(Clone, Copy, Debug, PartialEq, Eq, Structural)]
pub enum PcUpdate {
    Regular,
    Jump,
    JumpRel,
    Jnz,
}

/// How the allocation pointer advances.
#[derive(Clone, Copy, Debug, PartialEq, Eq, Structural)]
pub enum ApUpdate {
    Regular,
    Add,
    Add1,
    Add2,
}

/// How the frame pointer advances.
#[derive(Clone, Copy, Debug, PartialEq, Eq, Structural)]
pub enum FpUpdate {
    Regular,
    APPlus2,
    Dst,
}

/// The instruction class.
#[derive(Clone, Copy, Debug, PartialEq, Eq, Structural)]
pub enum Opcode {
    NOp,
    AssertEq,
    Call,
    Ret,
}

/// A structured instruction, as decoded from one 64-bit word.
#[derive(Clone, Copy, Debug, PartialEq, Eq, Structural)]
pub struct DecodedInstruction {
    pub off0: i16,
    pub off1: i16,
    pub off2: i16,
    pub dst_register: Register,
    pub op0_register: Register,
    pub op1_addr: Op1Addr,
    pub res: Res,
    pub pc_update: PcUpdate,
    pub ap_update: ApUpdate,
    pub fp_update: FpUpdate,
    pub opcode: Opcode,
}

/// Why a word is not a valid instruction encoding. Each variant carries
/// the offending field value.
#[derive(Clone, Copy, Debug, PartialEq, Eq, Structural)]
pub enum DecodeError {
    NonZeroHighBit,
    InvalidOp1Reg(u64),
    InvalidPcUpdate(u64),
    InvalidRes(u64),
    InvalidOpcode(u64),
    InvalidApUpdate(u64),
}

/// A 16-bit field converted from its biased encoding to a signed offset.
pub open spec fn spec_biased_offset(v: u64) -> int {
    (v & 0xffff) - 0x8000
}

/// The decoding function: what `decode_instruction` returns for every word.
pub open spec fn spec_decode(word: u64) -> Result<DecodedInstruction, DecodeError> {
    if word >> 63 != 0 {
        Err(DecodeError::NonZeroHighBit)
    } else {
        let off0 = spec_biased_offset(word) as i16;
        let off1 = spec_biased_offset(word >> 16) as i16;
        let off2 = spec_biased_offset(word >> 32) as i16;
        let flags = word >> 48;
        let dst_reg_num = flags & 0x0001;
        let op0_reg_num = (flags & 0x0002) >> 1;
        let op1_src_num = (flags & 0x001c) >> 2;
        let res_logic_num = (flags & 0x0060) >> 5;
        let pc_update_num = (flags & 0x0380) >> 7;
        let ap_update_num = (flags & 0x0c00) >> 10;
        let opcode_num = (flags & 0x7000) >> 12;
        let dst_register = if dst_reg_num == 1 { Register::FP } else { Register::AP };
        let op0_register = if op0_reg_num == 1 { Register::FP } else { Register::AP };
        if op1_src_num != 0 && op1_src_num != 1 && op1_src_num != 2 && op1_src_num != 4 {
            Err(DecodeError::InvalidOp1Reg(op1_src_num))
        } else {
            let op1_addr = if op1_src_num == 0 {
                Op1Addr::Op0
            } else if op1_src_num == 1 {
                Op1Addr::Imm
            } else if op1_src_num == 2 {
                Op1Addr::FP
            } else {
                Op1Addr::AP
            };
            if pc_update_num != 0 && pc_update_num != 1 && pc_update_num != 2 && pc_update_num
                != 4 {
                Err(DecodeError::InvalidPcUpdate(pc_update_num))
            } else {
                let pc_update = if pc_update_num == 0 {
                    PcUpdate::Regular
                } else if pc_update_num == 1 {
                    PcUpdate::Jump
                } else if pc_update_num == 2 {
                    PcUpdate::JumpRel
                } else {
                    PcUpdate::Jnz
                };
                if !(res_logic_num == 0 || ((res_logic_num == 1 || res_logic_num == 2) && pc_update
                    != PcUpdate::Jnz)) {
                    Err(DecodeError::InvalidRes(res_logic_num))
                } else {
                    let res = if res_logic_num == 0 && pc_update == PcUpdate::Jnz {
                        Res::Unconstrained
                    } else if res_logic_num == 0 {
                        Res::Op1
                    } else if res_logic_num == 1 {
                        Res::Add
                    } else {
                        Res::Mul
                    };
                    if opcode_num != 0 && opcode_num != 1 && opcode_num != 2 && opcode_num != 4 {
                        Err(DecodeError::InvalidOpcode(opcode_num))
                    } else {
                        let opcode = if opcode_num == 0 {
                            Opcode::NOp
                        } else if opcode_num == 1 {
                            Opcode::Call
                        } else if opcode_num == 2 {
                            Opcode::Ret
                        } else {
                            Opcode::AssertEq
                        };
                        if !(ap_update_num == 0 || ((ap_update_num == 1 || ap_update_num == 2)
                            && opcode != Opcode::Call)) {
                            Err(DecodeError::InvalidApUpdate(ap_update_num))
                        } else {
                            let ap_update = if ap_update_num == 0 && opcode == Opcode::Call {
                                ApUpdate::Add2
                            } else if ap_update_num == 0 {
                                ApUpdate::Regular
                            } else if ap_update_num == 1 {
                                ApUpdate::Add
                            } else {
                                ApUpdate::Add1
                            };
                            if opcode == Opcode::Call && !(off0 == 0 && off1 == 1 && ap_update
                                == ApUpdate::Add2 && dst_register == Register::AP && op0_register
                                == Register::AP) {
                                Err(DecodeError::InvalidOpcode(opcode_num))
                            } else if opcode == Opcode::Ret && !(off0 == -2 && off2 == -1
                                && dst_register == Register::FP && op1_addr == Op1Addr::FP && res
                                == Res::Op1 && pc_update == PcUpdate::Jump) {
                                Err(DecodeError::InvalidOpcode(opcode_num))
                            } else {
                                let fp_update = if opcode == Opcode::Call {
                                    FpUpdate::APPlus2
                                } else if opcode == Opcode::Ret {
                                    FpUpdate::Dst
                                } else {
                                    FpUpdate::Regular
                                };
                                Ok(
                                    DecodedInstruction {
                                        off0,
                                        off1,
                                        off2,
                                        dst_register,
                                        op0_register,
                                        op1_addr,
                                        res,
                                        pc_update,
                                        ap_update,
                                        fp_update,
                                        opcode,
                                    },
                                )
                            }
                        }
                    }
                }
            }
        }
    }
}

/// Converts one 16-bit field from biased to signed representation.
fn decode_offset(v: u64) -> (r: i16)
    ensures
        r as int == spec_biased_offset(v),
        r == spec_biased_offset(v) as i16,
{
    proof {
        assert(v & 0xffff <= 0xffff) by (bit_vector);
    }
    let masked: u64 = v & 0xffff;
    let wide: i32 = masked as i32;
    let off: i32 = wide - 0x8000;
    off as i16
}

/// Decodes a 64-bit instruction word, bit for bit as the target
/// instruction set defines it. Decoding is pure and deterministic:
/// the result is a function of the word alone.
pub fn decode_instruction(word: u64) -> (r: Result<DecodedInstruction, DecodeError>)
    ensures
        r == spec_decode(word),
{
    if word >> 63 != 0 {
        return Err(DecodeError::NonZeroHighBit);
    }
    let off0: i16 = decode_offset(word);
    let off1: i16 = decode_offset(word >> 16);
    let off2: i16 = decode_offset(word >> 32);
    let flags: u64 = word >> 48;
    let dst_reg_num: u64 = flags & 0x0001;
    let op0_reg_num: u64 = (flags & 0x0002) >> 1;
    let op1_src_num: u64 = (flags & 0x001c) >> 2;
    let res_logic_num: u64 = (flags & 0x0060) >> 5;
    let pc_update_num: u64 = (flags & 0x0380) >> 7;
    let ap_update_num: u64 = (flags & 0x0c00) >> 10;
    let opcode_num: u64 = (flags & 0x7000) >> 12;

    let dst_register = if dst_reg_num == 1 { Register::FP } else { Register::AP };
    let op0_register = if op0_reg_num == 1 { Register::FP } else { Register::AP };

    let op1_addr = match op1_src_num {
        0 => Op1Addr::Op0,
        1 => Op1Addr::Imm,
        2 => Op1Addr::FP,
        4 => Op1Addr::AP,
        _ => {
            return Err(DecodeError::InvalidOp1Reg(op1_src_num));
        },
    };

    let pc_update = match pc_update_num {
        0 => PcUpdate::Regular,
        1 => PcUpdate::Jump,
        2 => PcUpdate::JumpRel,
        4 => PcUpdate::Jnz,
        _ => {
            return Err(DecodeError::InvalidPcUpdate(pc_update_num));
        },
    };

    let res = match (res_logic_num, pc_update) {
        (0, PcUpdate::Jnz) => Res::Unconstrained,
        (0, _) => Res::Op1,
        (1, PcUpdate::Jnz) => {
            return Err(DecodeError::InvalidRes(res_logic_num));
        },
        (1, _) => Res::Add,
        (2, PcUpdate::Jnz) => {
            return Err(DecodeError::InvalidRes(res_logic_num));
        },
        (2, _) => Res::Mul,
        _ => {
            return Err(DecodeError::InvalidRes(res_logic_num));
        },
    };

    let opcode = match opcode_num {
        0 => Opcode::NOp,
        1 => Opcode::Call,
        2 => Opcode::Ret,
        4 => Opcode::AssertEq,
        _ => {
            return Err(DecodeError::InvalidOpcode(opcode_num));
        },
    };

    let is_call = matches!(opcode, Opcode::Call);
    let ap_update = match (ap_update_num, is_call) {
        (0, true) => ApUpdate::Add2,
        (0, false) => ApUpdate::Regular,
        (1, false) => ApUpdate::Add,
        (2, false) => ApUpdate::Add1,
        _ => {
            return Err(DecodeError::InvalidApUpdate(ap_update_num));
        },
    };

    let fp_update = match opcode {
        Opcode::Call => {
            if off0 != 0 || off1 != 1 || !matches!(ap_update, ApUpdate::Add2) || !matches!(
                dst_register,
                Register::AP,
            ) || !matches!(op0_register, Register::AP) {
                return Err(DecodeError::InvalidOpcode(opcode_num));
            }
            FpUpdate::APPlus2
        },
        Opcode::Ret => {
            if off0 != -2 || off2 != -1 || !matches!(dst_register, Register::FP) || !matches!(
                op1_addr,
                Op1Addr::FP,
            ) || !matches!(res, Res::Op1) || !matches!(pc_update, PcUpdate::Jump) {
                return Err(DecodeError::InvalidOpcode(opcode_num));
            }
            FpUpdate::Dst
        },
        _ => FpUpdate::Regular,
    };

    Ok(
        DecodedInstruction {
            off0,
            off1,
            off2,
            dst_register,
            op0_register,
            op1_addr,
            res,
            pc_update,
            ap_update,
            fp_update,
            opcode,
        },
    )
}

} // verus!

use tracer::instruction::{
    decode_instruction, ApUpdate, DecodeError, DecodedInstruction, FpUpdate, Op1Addr, Opcode,
    PcUpdate, Register, Res,
};

#[test]
fn decode_assert_eq_imm_word() {
    // [ap] = imm; ap++
    let inst = decode_instruction(0x480680017fff8000).unwrap();
    assert_eq!(
        inst,
        DecodedInstruction {
            off0: 0,
            off1: -1,
            off2: 1,
            dst_register: Register::AP,
            op0_register: Register::FP,
            op1_addr: Op1Addr::Imm,
            res: Res::Op1,
            pc_update: PcUpdate::Regular,
            ap_update: ApUpdate::Add1,
            fp_update: FpUpdate::Regular,
            opcode: Opcode::AssertEq,
        }
    );
}

#[test]
fn decode_is_deterministic() {
    let first = decode_instruction(0x480680017fff8000);
    let second = decode_instruction(0x480680017fff8000);
    assert_eq!(first, second);
    let first_err = decode_instruction(0x000c800080008000);
    let second_err = decode_instruction(0x000c800080008000);
    assert_eq!(first_err, second_err);
}

#[test]
fn decode_ret_word() {
    let inst = decode_instruction(0x208b7fff7fff7ffe).unwrap();
    assert_eq!(
        inst,
        DecodedInstruction {
            off0: -2,
            off1: -1,
            off2: -1,
            dst_register: Register::FP,
            op0_register: Register::FP,
            op1_addr: Op1Addr::FP,
            res: Res::Op1,
            pc_update: PcUpdate::Jump,
            ap_update: ApUpdate::Regular,
            fp_update: FpUpdate::Dst,
            opcode: Opcode::Ret,
        }
    );
}

#[test]
fn decode_call_rel_word() {
    let inst = decode_instruction(0x1104800180018000).unwrap();
    assert_eq!(
        inst,
        DecodedInstruction {
            off0: 0,
            off1: 1,
            off2: 1,
            dst_register: Register::AP,
            op0_register: Register::AP,
            op1_addr: Op1Addr::Imm,
            res: Res::Op1,
            pc_update: PcUpdate::JumpRel,
            ap_update: ApUpdate::Add2,
            fp_update: FpUpdate::APPlus2,
            opcode: Opcode::Call,
        }
    );
}

#[test]
fn decode_nop_word() {
    let inst = decode_instruction(0x0000800080008000).unwrap();
    assert_eq!(inst.opcode, Opcode::NOp);
    assert_eq!(inst.off0, 0);
    assert_eq!(inst.off1, 0);
    assert_eq!(inst.off2, 0);
    assert_eq!(inst.res, Res::Op1);
    assert_eq!(inst.pc_update, PcUpdate::Regular);
    assert_eq!(inst.ap_update, ApUpdate::Regular);
    assert_eq!(inst.fp_update, FpUpdate::Regular);
}

#[test]
fn decode_rejects_high_bit() {
    assert_eq!(
        decode_instruction(0x8000000000000000),
        Err(DecodeError::NonZeroHighBit)
    );
}

#[test]
fn decode_rejects_op1_src() {
    assert_eq!(
        decode_instruction(0x000c800080008000),
        Err(DecodeError::InvalidOp1Reg(3))
    );
}

#[test]
fn decode_rejects_pc_update() {
    assert_eq!(
        decode_instruction(0x0180800080008000),
        Err(DecodeError::InvalidPcUpdate(3))
    );
}

#[test]
fn decode_rejects_res_logic() {
    assert_eq!(
        decode_instruction(0x0060800080008000),
        Err(DecodeError::InvalidRes(3))
    );
    // A conditional jump constrains the result mode.
    assert_eq!(
        decode_instruction(0x0220800080008000),
        Err(DecodeError::InvalidRes(1))
    );
}

#[test]
fn decode_rejects_opcode() {
    assert_eq!(
        decode_instruction(0x3000800080008000),
        Err(DecodeError::InvalidOpcode(3))
    );
}

#[test]
fn decode_rejects_ap_update() {
    assert_eq!(
        decode_instruction(0x0c00800080008000),
        Err(DecodeError::InvalidApUpdate(3))
    );
    // A call fixes its allocation-pointer update.
    assert_eq!(
        decode_instruction(0x1504800180018000),
        Err(DecodeError::InvalidApUpdate(1))
    );
}

#[test]
fn decode_rejects_malformed_call() {
    // A call whose destination offset is not zero.
    assert_eq!(
        decode_instruction(0x1104800180018001),
        Err(DecodeError::InvalidOpcode(1))
    );
}

#[test]
fn decode_rejects_malformed_ret() {
    // A return whose destination offset is not minus two.
    assert_eq!(
        decode_instruction(0x208b7fff7fff8000),
        Err(DecodeError::InvalidOpcode(2))
    );
}

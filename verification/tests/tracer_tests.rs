use tracer::felt::Felt;
use tracer::instruction::{decode_instruction, DecodeError, Opcode};
use tracer::trace_data::{
    get_instruction_encoding, make_tracer_data, ResolveError, TraceEntry, TracerError,
};

fn entry(pc: usize) -> TraceEntry {
    TraceEntry { pc, ap: 0, fp: 0 }
}

// [ap] = [fp - 1]; ap++ -- an instruction without an immediate operand.
const NO_IMM_WORD: u64 = 0x480a7fff7fff8000;
// [ap] = imm; ap++ -- an instruction with an immediate operand.
const IMM_WORD: u64 = 0x480680017fff8000;

#[test]
fn resolve_reads_word_and_immediate() {
    let memory = vec![Some(Felt::from_u64(IMM_WORD)), Some(Felt::from_u64(42))];
    let r = get_instruction_encoding(0, &memory).unwrap();
    assert_eq!(r.0, Felt::from_u64(IMM_WORD));
    assert_eq!(r.1, Some(Felt::from_u64(42)));
}

#[test]
fn resolve_immediate_absent() {
    // The next cell lies beyond the image.
    let memory = vec![Some(Felt::from_u64(NO_IMM_WORD))];
    let r = get_instruction_encoding(0, &memory).unwrap();
    assert_eq!(r.1, None);
    // The next cell exists but is empty.
    let memory2 = vec![Some(Felt::from_u64(NO_IMM_WORD)), None, Some(Felt::from_u64(1))];
    let r2 = get_instruction_encoding(0, &memory2).unwrap();
    assert_eq!(r2.1, None);
}

#[test]
fn resolve_unmapped_address() {
    let memory = vec![Some(Felt::from_u64(NO_IMM_WORD)), None];
    assert_eq!(
        get_instruction_encoding(1, &memory),
        Err(ResolveError::UnmappedAddress)
    );
    // A counter beyond the image was never written either.
    assert_eq!(
        get_instruction_encoding(9, &memory),
        Err(ResolveError::UnmappedAddress)
    );
}

#[test]
fn materialize_single_pc() {
    // Two entries at program counter 10, whose cell holds a no-immediate
    // instruction: one map key, and a dump of the image's cells alone.
    let mut memory: Vec<Option<Felt>> = vec![None; 11];
    memory[10] = Some(Felt::from_u64(NO_IMM_WORD));
    let trace = vec![entry(10), entry(10)];
    let td = make_tracer_data(trace.clone(), &memory).unwrap();
    assert_eq!(td.pc_inst_map.len(), 1);
    assert_eq!(
        td.pc_inst_map.get(&10),
        Some(&decode_instruction(NO_IMM_WORD).unwrap())
    );
    assert_eq!(td.trace, trace);
    assert_eq!(td.memory.len(), 1);
    assert_eq!(td.memory.get(&11), Some(&Felt::from_u64(NO_IMM_WORD).to_hex_string()));
}

#[test]
fn materialize_idempotent_duplicates() {
    let memory = vec![Some(Felt::from_u64(IMM_WORD)), Some(Felt::from_u64(3))];
    let once = make_tracer_data(vec![entry(0)], &memory).unwrap();
    let twice = make_tracer_data(vec![entry(0), entry(0)], &memory).unwrap();
    assert_eq!(once.pc_inst_map, twice.pc_inst_map);
    assert_eq!(once.memory, twice.memory);
}

#[test]
fn memory_dump_is_one_indexed() {
    // Exactly one populated cell, at internal address 5: one dump entry,
    // keyed 6, and never a key 0.
    let mut memory: Vec<Option<Felt>> = vec![None; 6];
    memory[5] = Some(Felt::from_u64(26));
    let td = make_tracer_data(vec![], &memory).unwrap();
    assert_eq!(td.memory.len(), 1);
    assert_eq!(td.memory.get(&6), Some(&"0x1a".to_string()));
    assert!(!td.memory.contains_key(&0));
    assert!(td.pc_inst_map.is_empty());
}

#[test]
fn memory_dump_skips_empty_cells() {
    let memory = vec![
        Some(Felt::from_u64(1)),
        None,
        Some(Felt::from_u64(2)),
        None,
    ];
    let td = make_tracer_data(vec![], &memory).unwrap();
    assert_eq!(td.memory.len(), 2);
    assert_eq!(td.memory.get(&1), Some(&"0x1".to_string()));
    assert_eq!(td.memory.get(&3), Some(&"0x2".to_string()));
}

#[test]
fn materialize_unmapped_pc_fails() {
    let memory = vec![Some(Felt::from_u64(NO_IMM_WORD)), None];
    assert_eq!(
        make_tracer_data(vec![entry(3)], &memory),
        Err(TracerError::UnmappedAddress(3))
    );
    assert_eq!(
        make_tracer_data(vec![entry(1)], &memory),
        Err(TracerError::UnmappedAddress(1))
    );
}

#[test]
fn materialize_reports_first_failure() {
    let memory = vec![Some(Felt::from_u64(NO_IMM_WORD)), None];
    assert_eq!(
        make_tracer_data(vec![entry(0), entry(1), entry(9)], &memory),
        Err(TracerError::UnmappedAddress(1))
    );
}

#[test]
fn materialize_propagates_decode_error() {
    let memory = vec![Some(Felt::from_u64(0x8000000000000000))];
    assert_eq!(
        make_tracer_data(vec![entry(0)], &memory),
        Err(TracerError::InvalidInstruction(0, DecodeError::NonZeroHighBit))
    );
}

#[test]
fn materialize_narrows_encoding_to_low_limb() {
    // The cell's value exceeds 64 bits; only its low 64 bits are decoded.
    let word = Felt::from_limbs(NO_IMM_WORD, 5, 0, 0).unwrap();
    let memory = vec![Some(word)];
    let td = make_tracer_data(vec![entry(0)], &memory).unwrap();
    assert_eq!(td.pc_inst_map.get(&0).unwrap().opcode, Opcode::AssertEq);
    assert_eq!(
        td.pc_inst_map.get(&0),
        Some(&decode_instruction(NO_IMM_WORD).unwrap())
    );
}

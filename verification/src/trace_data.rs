//! Trace materialization: resolving program counters against the memory
//! image, decoding every visited instruction, and dumping touched memory.

use vstd::prelude::*;
use vstd::arithmetic::div_mod::lemma_small_mod;
use std::collections::HashMap;
use crate::felt::{hex_string, prime, Felt};
use crate::instruction::{decode_instruction, spec_decode, DecodeError, DecodedInstruction};

verus! {

broadcast use vstd::std_specs::hash::group_hash_axioms;

/// One step of the execution trace: the program counter plus the
/// allocation- and frame-pointer snapshots.
#[derive(Clone, Copy, Debug, PartialEq, Eq, Structural)]
pub struct TraceEntry {
    pub pc: usize,
    pub ap: usize,
    pub fp: usize,
}

/// Why a program counter cannot be resolved against the memory image.
#[derive(Clone, Copy, Debug, PartialEq, Eq, Structural)]
pub enum ResolveError {
    /// The program counter's cell was never written.
    UnmappedAddress,
    /// The reduced immediate-operand address does not fit the image's
    /// index range.
    AddressOverflow,
}

/// A fatal reconstruction failure, carrying the offending program counter.
#[derive(Clone, Copy, Debug, PartialEq, Eq, Structural)]
pub enum TracerError {
    UnmappedAddress(usize),
    AddressOverflow(usize),
    InvalidInstruction(usize, DecodeError),
}

/// The reconstructed view: decoded instructions keyed by program counter,
/// the unmodified trace, and the one-indexed hexadecimal memory dump.
#[derive(Debug, PartialEq, Eq)]
pub struct TracerData {
    pub pc_inst_map: HashMap<usize, DecodedInstruction>,
    pub trace: Vec<TraceEntry>,
    pub memory: HashMap<usize, String>,
}

/// Whether address `a` holds a value in the memory image.
pub open spec fn populated(memory: Seq<Option<Felt>>, a: int) -> bool {
    0 <= a < memory.len() && memory[a] is Some
}

/// What resolving `pc` returns: the encoded word at `pc` and, if present,
/// the immediate operand at the next cell, whose address is reduced
/// modulo the field's prime.
pub open spec fn spec_resolve(memory: Seq<Option<Felt>>, pc: usize) -> Result<
    (Felt, Option<Felt>),
    ResolveError,
> {
    if !populated(memory, pc as int) {
        Err(ResolveError::UnmappedAddress)
    } else if (pc + 1) % prime() > usize::MAX {
        Err(ResolveError::AddressOverflow)
    } else {
        let imm_addr = (pc + 1) % prime();
        let imm = if populated(memory, imm_addr) {
            Some(memory[imm_addr]->Some_0)
        } else {
            None
        };
        Ok((memory[pc as int]->Some_0, imm))
    }
}

/// The encoded word narrowed to its low 64 bits, as handed to the decoder.
pub open spec fn spec_low_u64(f: Felt) -> u64 {
    (f.value() % 0x10000000000000000) as u64
}

/// Resolving then decoding one program counter, with the counter attached
/// to any failure.
pub open spec fn spec_pc_instruction(memory: Seq<Option<Felt>>, pc: usize) -> Result<
    DecodedInstruction,
    TracerError,
> {
    match spec_resolve(memory, pc) {
        Err(ResolveError::UnmappedAddress) => Err(TracerError::UnmappedAddress(pc)),
        Err(ResolveError::AddressOverflow) => Err(TracerError::AddressOverflow(pc)),
        Ok(p) => match spec_decode(spec_low_u64(p.0)) {
            Err(e) => Err(TracerError::InvalidInstruction(pc, e)),
            Ok(inst) => Ok(inst),
        },
    }
}

/// The set of program counters the trace visits.
pub open spec fn trace_pcs(trace: Seq<TraceEntry>) -> Set<usize> {
    Set::new(|pc: usize| exists|i: int| 0 <= i < trace.len() && (#[trigger] trace[i]).pc == pc)
}

/// The decoded-instruction map a trace and memory image determine: one
/// entry per visited program counter.
pub open spec fn spec_pc_map(trace: Seq<TraceEntry>, memory: Seq<Option<Felt>>) -> Map<
    usize,
    DecodedInstruction,
> {
    Map::new(
        |pc: usize| trace_pcs(trace).contains(pc),
        |pc: usize| spec_pc_instruction(memory, pc)->Ok_0,
    )
}

/// The first failing trace entry's error, scanning from position `i`.
pub open spec fn spec_first_error_from(
    trace: Seq<TraceEntry>,
    memory: Seq<Option<Felt>>,
    i: int,
) -> Option<TracerError>
    decreases trace.len() - i,
{
    if i < 0 || i >= trace.len() {
        None
    } else {
        match spec_pc_instruction(memory, trace[i].pc) {
            Err(e) => Some(e),
            Ok(_) => spec_first_error_from(trace, memory, i + 1),
        }
    }
}

/// The first failing trace entry's error, if any.
pub open spec fn spec_first_error(trace: Seq<TraceEntry>, memory: Seq<Option<Felt>>) -> Option<
    TracerError,
> {
    spec_first_error_from(trace, memory, 0)
}

/// Materialization is idempotent per program counter: a further trace
/// entry whose counter was already visited leaves the decoded-instruction
/// map unchanged, so duplicate entries decode to the same map entry as a
/// single one.
pub proof fn lemma_pc_map_idempotent(
    trace: Seq<TraceEntry>,
    e: TraceEntry,
    memory: Seq<Option<Felt>>,
)
    requires
        trace_pcs(trace).contains(e.pc),
    ensures
        spec_pc_map(trace.push(e), memory) == spec_pc_map(trace, memory),
{
    assert forall|pc: usize|
        trace_pcs(trace.push(e)).contains(pc) implies trace_pcs(trace).contains(pc) by {
        let j = choose|j: int|
            0 <= j < trace.push(e).len() && (#[trigger] trace.push(e)[j]).pc == pc;
        if j < trace.len() {
            assert(trace[j].pc == pc);
        } else {
            assert(trace.push(e)[j] == e);
        }
    }
    assert forall|pc: usize|
        trace_pcs(trace).contains(pc) implies trace_pcs(trace.push(e)).contains(pc) by {
        let j = choose|j: int| 0 <= j < trace.len() && (#[trigger] trace[j]).pc == pc;
        assert(trace.push(e)[j].pc == pc);
    }
    assert(trace_pcs(trace.push(e)) =~= trace_pcs(trace));
    assert(spec_pc_map(trace.push(e), memory) =~= spec_pc_map(trace, memory));
}

/// The successor address stays below the prime, so its reduction is exact.
proof fn lemma_succ_mod_prime(pc: usize)
    ensures
        (pc + 1) % prime() == pc + 1,
{
    assert(usize::MAX as int + 1 < prime());
    lemma_small_mod((pc + 1) as nat, prime() as nat);
}

/// Returns the encoded instruction (the value at `pc`) and the immediate
/// value (the value at the next cell, if that cell is populated). The
/// immediate's address is `(pc + 1)` reduced modulo the prime; the
/// reduction is exact, and an unrepresentable reduced address is rejected
/// rather than wrapped.
pub fn get_instruction_encoding(pc: usize, memory: &Vec<Option<Felt>>) -> (r: Result<
    (Felt, Option<Felt>),
    ResolveError,
>)
    ensures
        r == spec_resolve(memory@, pc),
        r matches Ok(p) ==> {
            &&& populated(memory@, pc as int)
            &&& p.0 == memory@[pc as int]->Some_0
            &&& 0 <= (pc + 1) % prime() < prime()
            &&& (p.1 is Some <==> populated(memory@, (pc + 1) % prime()))
            &&& (p.1 matches Some(f) ==> f == memory@[(pc + 1) % prime()]->Some_0)
        },
        r == Err::<(Felt, Option<Felt>), ResolveError>(ResolveError::UnmappedAddress) <==> !populated(
            memory@,
            pc as int,
        ),
{
    proof {
        lemma_succ_mod_prime(pc);
    }
    if pc >= memory.len() {
        return Err(ResolveError::UnmappedAddress);
    }
    let cell: Option<Felt> = memory[pc];
    let word: Felt = match cell {
        Some(w) => w,
        None => {
            return Err(ResolveError::UnmappedAddress);
        },
    };
    let imm_addr: usize = match pc.checked_add(1) {
        Some(a) => a,
        None => {
            return Err(ResolveError::AddressOverflow);
        },
    };
    let imm: Option<Felt> = if imm_addr < memory.len() {
        memory[imm_addr]
    } else {
        None
    };
    Ok((word, imm))
}

/// The trace's visited-counter set only grows by the entry at `i`.
proof fn lemma_trace_pcs_take_step(trace: Seq<TraceEntry>, i: int)
    requires
        0 <= i < trace.len(),
    ensures
        trace_pcs(trace.take(i + 1)) == trace_pcs(trace.take(i)).insert(trace[i].pc),
{
    let s0 = trace_pcs(trace.take(i));
    let s1 = trace_pcs(trace.take(i + 1));
    assert forall|pc: usize| s1.contains(pc) implies s0.insert(trace[i].pc).contains(pc) by {
        let j = choose|j: int|
            0 <= j < trace.take(i + 1).len() && (#[trigger] trace.take(i + 1)[j]).pc == pc;
        if j < i {
            assert(trace.take(i)[j].pc == pc);
        }
    }
    assert forall|pc: usize| s0.insert(trace[i].pc).contains(pc) implies s1.contains(pc) by {
        if pc == trace[i].pc {
            assert(trace.take(i + 1)[i].pc == pc);
        } else {
            let j = choose|j: int|
                0 <= j < trace.take(i).len() && (#[trigger] trace.take(i)[j]).pc == pc;
            assert(trace.take(i + 1)[j].pc == pc);
        }
    }
    assert(s1 =~= s0.insert(trace[i].pc));
}

/// A failure at position `i`, with all earlier entries sound, is the first
/// failure of the whole scan.
proof fn lemma_first_error_at(
    trace: Seq<TraceEntry>,
    memory: Seq<Option<Felt>>,
    j: int,
    i: int,
)
    requires
        0 <= j <= i < trace.len(),
        forall|j2: int| 0 <= j2 < i ==> (#[trigger] spec_pc_instruction(memory, trace[j2].pc))
            is Ok,
        spec_pc_instruction(memory, trace[i].pc) is Err,
    ensures
        spec_first_error_from(trace, memory, j) == Some(
            spec_pc_instruction(memory, trace[i].pc)->Err_0,
        ),
    decreases i - j,
{
    if j < i {
        lemma_first_error_at(trace, memory, j + 1, i);
    }
}

/// A scan with no failing entry reports none; with the error cases of
/// `make_tracer_data` this gives that a trace whose entries all resolve
/// and decode is always materialized.
pub proof fn lemma_first_error_none(trace: Seq<TraceEntry>, memory: Seq<Option<Felt>>, j: int)
    requires
        0 <= j,
        forall|i: int| 0 <= i < trace.len() ==> (#[trigger] spec_pc_instruction(memory, trace[i].pc))
            is Ok,
    ensures
        spec_first_error_from(trace, memory, j) is None,
    decreases trace.len() - j,
{
    if j < trace.len() {
        lemma_first_error_none(trace, memory, j + 1);
    }
}

/// Reconstructs the debugging view of one run: decodes the instruction at
/// every program counter the trace visits (each counter once), keeps the
/// trace unmodified, and dumps every populated memory cell, one-indexed,
/// as a canonical hexadecimal string. Any unresolvable or undecodable
/// counter aborts the whole reconstruction with the first such failure;
/// no partial output is returned.
pub fn make_tracer_data(trace: Vec<TraceEntry>, memory: &Vec<Option<Felt>>) -> (r: Result<
    TracerData,
    TracerError,
>)
    ensures
        r matches Ok(td) ==> {
            &&& forall|i: int|
                0 <= i < trace@.len() ==> (#[trigger] spec_pc_instruction(memory@, trace@[i].pc))
                    is Ok
            &&& td.trace@ == trace@
            &&& td.pc_inst_map@ == spec_pc_map(trace@, memory@)
            &&& td.memory@.dom() == Set::new(
                |k: usize| 1 <= k <= memory@.len() && memory@[k - 1] is Some,
            )
            &&& forall|k: usize|
                #[trigger] td.memory@.contains_key(k) ==> td.memory@[k]@ == hex_string(
                    memory@[k - 1]->Some_0.value() as nat,
                )
            &&& forall|k: usize| #[trigger] td.memory@.contains_key(k) ==> k >= 1
        },
        r matches Err(e) ==> spec_first_error(trace@, memory@) == Some(e),
{
    let ghost t = trace@;
    let mut pc_inst_map: HashMap<usize, DecodedInstruction> = HashMap::new();
    let mut idx: usize = 0;
    proof {
        assert(pc_inst_map@ =~= spec_pc_map(t.take(0), memory@));
    }
    while idx < trace.len()
        invariant
            idx <= t.len(),
            t == trace@,
            forall|i: int|
                0 <= i < idx ==> (#[trigger] spec_pc_instruction(memory@, t[i].pc)) is Ok,
            pc_inst_map@ == spec_pc_map(t.take(idx as int), memory@),
        decreases t.len() - idx,
    {
        let entry_pc: usize = trace[idx].pc;
        if !pc_inst_map.contains_key(&entry_pc) {
            let word: Felt = match get_instruction_encoding(entry_pc, memory) {
                Ok(p) => p.0,
                Err(ResolveError::UnmappedAddress) => {
                    proof {
                        lemma_first_error_at(t, memory@, 0, idx as int);
                    }
                    return Err(TracerError::UnmappedAddress(entry_pc));
                },
                Err(ResolveError::AddressOverflow) => {
                    proof {
                        lemma_first_error_at(t, memory@, 0, idx as int);
                    }
                    return Err(TracerError::AddressOverflow(entry_pc));
                },
            };
            let encoding: u64 = word.low_u64();
            let inst: DecodedInstruction = match decode_instruction(encoding) {
                Ok(i) => i,
                Err(e) => {
                    proof {
                        lemma_first_error_at(t, memory@, 0, idx as int);
                    }
                    return Err(TracerError::InvalidInstruction(entry_pc, e));
                },
            };
            pc_inst_map.insert(entry_pc, inst);
            proof {
                lemma_trace_pcs_take_step(t, idx as int);
                assert(inst == spec_pc_instruction(memory@, entry_pc)->Ok_0);
                assert(spec_pc_map(t.take(idx as int + 1), memory@) =~= spec_pc_map(
                    t.take(idx as int),
                    memory@,
                ).insert(entry_pc, inst));
            }
        } else {
            proof {
                lemma_trace_pcs_take_step(t, idx as int);
                assert(trace_pcs(t.take(idx as int)).contains(entry_pc));
                assert(spec_pc_map(t.take(idx as int + 1), memory@) =~= spec_pc_map(
                    t.take(idx as int),
                    memory@,
                ));
            }
        }
        idx = idx + 1;
    }
    proof {
        assert(t.take(t.len() as int) =~= t);
    }

    let mut dump: HashMap<usize, String> = HashMap::new();
    let mut a: usize = 0;
    proof {
        assert(dump@.dom() =~= Set::new(|k: usize| 1 <= k <= 0 && memory@[k - 1] is Some));
    }
    while a < memory.len()
        invariant
            a <= memory@.len(),
            dump@.dom() == Set::new(|k: usize| 1 <= k <= a && memory@[k - 1] is Some),
            forall|k: usize|
                #[trigger] dump@.contains_key(k) ==> dump@[k]@ == hex_string(
                    memory@[k - 1]->Some_0.value() as nat,
                ),
        decreases memory@.len() - a,
    {
        let cell: Option<Felt> = memory[a];
        match cell {
            Some(f) => {
                let h: String = f.to_hex_string();
                dump.insert(a + 1, h);
                proof {
                    assert(dump@.dom() =~= Set::new(
                        |k: usize| 1 <= k <= a + 1 && memory@[k - 1] is Some,
                    ));
                }
            },
            None => {
                proof {
                    assert(dump@.dom() =~= Set::new(
                        |k: usize| 1 <= k <= a + 1 && memory@[k - 1] is Some,
                    ));
                }
            },
        }
        a = a + 1;
    }

    Ok(TracerData { pc_inst_map, trace, memory: dump })
}

} // verus!

//! The meaning of the backend instruction set: a word-addressed heap, value
//! slots numbered parameters-first, and a straight-line interpreter. The
//! spec-level `run_from` is the definition; `run_function` executes it.
//! Signed operations use two's-complement magnitudes and truncate toward
//! zero; additive operations wrap.

use vstd::prelude::*;
use crate::backend::BinOp;
use crate::backend::FunctionValue;
use crate::backend::Instruction;

verus! {

/// Addition modulo the word size.
pub open spec fn spec_wrap_add(a: u64, b: u64) -> u64 {
    if a + b > u64::MAX {
        (a + b - 0x1_0000_0000_0000_0000) as u64
    } else {
        (a + b) as u64
    }
}

/// Subtraction modulo the word size.
pub open spec fn spec_wrap_sub(a: u64, b: u64) -> u64 {
    if a - b < 0 {
        (a - b + 0x1_0000_0000_0000_0000) as u64
    } else {
        (a - b) as u64
    }
}

/// Multiplication modulo the word size.
pub open spec fn spec_wrap_mul(a: u64, b: u64) -> u64 {
    ((a as nat * b as nat) % 0x1_0000_0000_0000_0000nat) as u64
}

/// Two's-complement negation.
pub open spec fn spec_neg(a: u64) -> u64 {
    if a == 0 {
        0
    } else {
        (0x1_0000_0000_0000_0000 - a) as u64
    }
}

/// Whether the word, read as two's complement, is negative.
pub open spec fn spec_is_neg(a: u64) -> bool {
    a >= 0x8000_0000_0000_0000
}

/// The magnitude of the word read as two's complement.
pub open spec fn spec_magnitude(a: u64) -> u64 {
    if spec_is_neg(a) {
        spec_neg(a)
    } else {
        a
    }
}

/// Two's-complement division truncating toward zero; `None` on a zero
/// divisor and on the one overflowing quotient.
pub open spec fn spec_sdiv(a: u64, b: u64) -> Option<u64> {
    if b == 0 || (a == 0x8000_0000_0000_0000 && b == 0xFFFF_FFFF_FFFF_FFFF) {
        None
    } else {
        let q = ((spec_magnitude(a) as int) / (spec_magnitude(b) as int)) as u64;
        if spec_is_neg(a) != spec_is_neg(b) {
            Some(spec_neg(q))
        } else {
            Some(q)
        }
    }
}

/// Two's-complement remainder, carrying the dividend's sign; `None` on a
/// zero divisor and on the one overflowing quotient.
pub open spec fn spec_srem(a: u64, b: u64) -> Option<u64> {
    if b == 0 || (a == 0x8000_0000_0000_0000 && b == 0xFFFF_FFFF_FFFF_FFFF) {
        None
    } else {
        let m = ((spec_magnitude(a) as int) % (spec_magnitude(b) as int)) as u64;
        if spec_is_neg(a) {
            Some(spec_neg(m))
        } else {
            Some(m)
        }
    }
}

/// What a two-operand primitive produces; `None` is an evaluation fault.
pub open spec fn spec_binop(op: BinOp, a: u64, b: u64) -> Option<u64> {
    match op {
        BinOp::Add => Some(spec_wrap_add(a, b)),
        BinOp::Subtract => Some(spec_wrap_sub(a, b)),
        BinOp::Multiply => Some(spec_wrap_mul(a, b)),
        BinOp::DivideSigned => spec_sdiv(a, b),
        BinOp::DivideUnsigned => if b == 0 {
            None
        } else {
            Some(((a as int) / (b as int)) as u64)
        },
        BinOp::RemainderSigned => spec_srem(a, b),
        BinOp::RemainderUnsigned => if b == 0 {
            None
        } else {
            Some(((a as int) % (b as int)) as u64)
        },
        BinOp::Equal => Some(if a == b { 1u64 } else { 0u64 }),
        BinOp::BitXor => Some(a ^ b),
        BinOp::BitOr => Some(a | b),
        BinOp::BitAnd => Some(a & b),
    }
}

/// How evaluating a function ends: a returned word and the heap it leaves
/// behind, or a fault (a bad operand, a wild pointer, a division fault, a
/// call in straight-line code, or falling off the end).
pub enum RunResult {
    Done { value: u64, heap: Seq<u64> },
    Fault,
}

/// Evaluation of the instructions from position `k` on, given the slot
/// values produced so far and the heap. This is the definition the
/// executable interpreter is proved against.
pub open spec fn run_from(instrs: Seq<Instruction>, k: int, slots: Seq<u64>, heap: Seq<u64>) -> RunResult
    decreases instrs.len() - k,
{
    if k < 0 || k >= instrs.len() {
        RunResult::Fault
    } else {
        match instrs[k] {
            Instruction::Allocate { words } => run_from(
                instrs,
                k + 1,
                slots.push(heap.len() as u64),
                heap + Seq::new(words as nat, |i: int| 0u64),
            ),
            Instruction::Load { ptr } => if ptr < slots.len() && slots[ptr as int] < heap.len() {
                run_from(instrs, k + 1, slots.push(heap[slots[ptr as int] as int]), heap)
            } else {
                RunResult::Fault
            },
            Instruction::Store { ptr, value } => if ptr < slots.len() && value < slots.len()
                && slots[ptr as int] < heap.len() {
                run_from(
                    instrs,
                    k + 1,
                    slots.push(0),
                    heap.update(slots[ptr as int] as int, slots[value as int]),
                )
            } else {
                RunResult::Fault
            },
            Instruction::ConstInt { value } => run_from(instrs, k + 1, slots.push(value), heap),
            Instruction::Binary { op, a, b } => if a < slots.len() && b < slots.len() {
                match spec_binop(op, slots[a as int], slots[b as int]) {
                    Some(v) => run_from(instrs, k + 1, slots.push(v), heap),
                    None => RunResult::Fault,
                }
            } else {
                RunResult::Fault
            },
            Instruction::Not { a } => if a < slots.len() {
                run_from(
                    instrs,
                    k + 1,
                    slots.push(if slots[a as int] == 0 { 1u64 } else { 0u64 }),
                    heap,
                )
            } else {
                RunResult::Fault
            },
            Instruction::Offset { ptr, offset } => if ptr < slots.len() && offset < slots.len() {
                run_from(
                    instrs,
                    k + 1,
                    slots.push(spec_wrap_add(slots[ptr as int], slots[offset as int])),
                    heap,
                )
            } else {
                RunResult::Fault
            },
            Instruction::Call { .. } => RunResult::Fault,
            Instruction::Return { value } => if value < slots.len() {
                RunResult::Done { value: slots[value as int], heap }
            } else {
                RunResult::Fault
            },
        }
    }
}

/// The boxed two-operand lowering is right for every heap and every pair of
/// operand boxes: run on two box addresses, it allocates exactly one fresh
/// box, leaves both operand boxes untouched, and returns the fresh box's
/// address with the primitive's result inside.
pub proof fn lemma_boxed_binary_lowering(op: BinOp, pa: u64, pb: u64, heap: Seq<u64>)
    requires
        pa < heap.len(),
        pb < heap.len(),
        heap.len() < u64::MAX,
        spec_binop(op, heap[pa as int], heap[pb as int]) is Some,
    ensures
        run_from(crate::backend::lower_binary(op, 2), 0, seq![pa, pb], heap) == (RunResult::Done {
            value: heap.len() as u64,
            heap: heap.push(spec_binop(op, heap[pa as int], heap[pb as int]).unwrap()),
        }),
{
    let instrs = crate::backend::lower_binary(op, 2);
    let a = heap[pa as int];
    let b = heap[pb as int];
    let v = spec_binop(op, a, b).unwrap();
    let len = heap.len() as u64;
    let s0 = seq![pa, pb];
    let s1 = s0.push(len);
    let h1 = heap + Seq::new(1nat, |i: int| 0u64);
    assert(h1 =~= heap.push(0u64));
    assert(instrs[0] == (Instruction::Allocate { words: 1 }));
    assert(run_from(instrs, 0, s0, heap) == run_from(instrs, 1, s1, h1));
    let s2 = s1.push(a);
    assert(instrs[1] == (Instruction::Load { ptr: 0 }));
    assert(run_from(instrs, 1, s1, h1) == run_from(instrs, 2, s2, h1));
    let s3 = s2.push(b);
    assert(instrs[2] == (Instruction::Load { ptr: 1 }));
    assert(run_from(instrs, 2, s2, h1) == run_from(instrs, 3, s3, h1));
    let s4 = s3.push(v);
    assert(instrs[3] == (Instruction::Binary { op, a: 3, b: 4 }));
    assert(run_from(instrs, 3, s3, h1) == run_from(instrs, 4, s4, h1));
    let s5 = s4.push(0u64);
    let h2 = h1.update(len as int, v);
    assert(instrs[4] == (Instruction::Store { ptr: 2, value: 5 }));
    assert(run_from(instrs, 4, s4, h1) == run_from(instrs, 5, s5, h2));
    assert(instrs[5] == (Instruction::Return { value: 2 }));
    assert(run_from(instrs, 5, s5, h2) == (RunResult::Done { value: len, heap: h2 }));
    assert(h2 =~= heap.push(v));
}

/// Array indexing reads the slot one word past the header, for every heap:
/// run on an array pointer and an index box, the lowering loads the index,
/// adds the fixed one-element adjustment that skips the implicit length
/// header word, and reads that slot, leaving the heap untouched.
pub proof fn lemma_array_index_lowering(p: u64, q: u64, heap: Seq<u64>)
    requires
        q < heap.len(),
        p + heap[q as int] + 1 < heap.len(),
        heap.len() < u64::MAX,
    ensures
        run_from(
            crate::backend::lower_intrinsic(crate::backend::Intrinsic::ArrayIndex, 2),
            0,
            seq![p, q],
            heap,
        ) == (RunResult::Done {
            value: heap[p + heap[q as int] + 1],
            heap,
        }),
{
    let instrs = crate::backend::lower_intrinsic(crate::backend::Intrinsic::ArrayIndex, 2);
    let i = heap[q as int];
    let s0 = seq![p, q];
    let s1 = s0.push(i);
    assert(instrs[0] == (Instruction::Load { ptr: 1 }));
    assert(run_from(instrs, 0, s0, heap) == run_from(instrs, 1, s1, heap));
    let s2 = s1.push(1u64);
    assert(instrs[1] == (Instruction::ConstInt { value: 1 }));
    assert(run_from(instrs, 1, s1, heap) == run_from(instrs, 2, s2, heap));
    let adjusted = spec_wrap_add(i, 1);
    assert(adjusted == i + 1);
    let s3 = s2.push(adjusted);
    assert(instrs[2] == (Instruction::Binary { op: BinOp::Add, a: 2, b: 3 }));
    assert(run_from(instrs, 2, s2, heap) == run_from(instrs, 3, s3, heap));
    let slot = spec_wrap_add(p, adjusted);
    assert(slot == p + i + 1);
    let s4 = s3.push(slot);
    assert(instrs[3] == (Instruction::Offset { ptr: 0, offset: 4 }));
    assert(run_from(instrs, 3, s3, heap) == run_from(instrs, 4, s4, heap));
    let s5 = s4.push(heap[slot as int]);
    assert(instrs[4] == (Instruction::Load { ptr: 5 }));
    assert(run_from(instrs, 4, s4, heap) == run_from(instrs, 5, s5, heap));
    assert(instrs[5] == (Instruction::Return { value: 6 }));
    assert(run_from(instrs, 5, s5, heap) == (RunResult::Done {
        value: heap[p + i + 1],
        heap,
    }));
}

/// Two's-complement negation.
fn exec_neg(a: u64) -> (r: u64)
    ensures
        r == spec_neg(a),
{
    if a == 0 {
        0
    } else {
        (u64::MAX - a) + 1
    }
}

/// One two-operand primitive; `None` is an evaluation fault.
pub fn eval_binop(op: BinOp, a: u64, b: u64) -> (r: Option<u64>)
    ensures
        r == spec_binop(op, a, b),
{
    match op {
        BinOp::Add => Some(a.wrapping_add(b)),
        BinOp::Subtract => Some(a.wrapping_sub(b)),
        BinOp::Multiply => Some(a.wrapping_mul(b)),
        BinOp::DivideSigned => {
            if b == 0 || (a == 0x8000_0000_0000_0000u64 && b == 0xFFFF_FFFF_FFFF_FFFFu64) {
                None
            } else {
                let neg_a = a >= 0x8000_0000_0000_0000u64;
                let neg_b = b >= 0x8000_0000_0000_0000u64;
                let mag_a = if neg_a { exec_neg(a) } else { a };
                let mag_b = if neg_b { exec_neg(b) } else { b };
                let q = mag_a / mag_b;
                Some(if neg_a != neg_b { exec_neg(q) } else { q })
            }
        },
        BinOp::DivideUnsigned => {
            if b == 0 {
                None
            } else {
                Some(a / b)
            }
        },
        BinOp::RemainderSigned => {
            if b == 0 || (a == 0x8000_0000_0000_0000u64 && b == 0xFFFF_FFFF_FFFF_FFFFu64) {
                None
            } else {
                let neg_a = a >= 0x8000_0000_0000_0000u64;
                let neg_b = b >= 0x8000_0000_0000_0000u64;
                let mag_a = if neg_a { exec_neg(a) } else { a };
                let mag_b = if neg_b { exec_neg(b) } else { b };
                let m = mag_a % mag_b;
                Some(if neg_a { exec_neg(m) } else { m })
            }
        },
        BinOp::RemainderUnsigned => {
            if b == 0 {
                None
            } else {
                Some(a % b)
            }
        },
        BinOp::Equal => Some(if a == b { 1 } else { 0 }),
        BinOp::BitXor => Some(a ^ b),
        BinOp::BitOr => Some(a | b),
        BinOp::BitAnd => Some(a & b),
    }
}

/// The evaluation heap: word-addressed, growing by allocation only.
#[derive(Debug)]
pub struct Machine {
    pub heap: Vec<u64>,
}

impl Machine {
    pub fn new() -> (r: Self)
        ensures
            r.heap@.len() == 0,
    {
        Machine { heap: Vec::new() }
    }
}

/// Runs a function's straight-line body on the given argument words,
/// faithfully to `run_from`: `Some` with the returned word exactly when the
/// definition says `Done`, leaving exactly the heap it says.
#[verifier::loop_isolation(false)]
pub fn run_function(f: &FunctionValue, arguments: &Vec<u64>, machine: &mut Machine) -> (r: Option<u64>)
    requires
        arguments@.len() == f.params,
    ensures
        match run_from(f.instructions@, 0, arguments@, old(machine).heap@) {
            RunResult::Done { value, heap } => r == Some(value) && final(machine).heap@ == heap,
            RunResult::Fault => r is None,
        },
{
    let ghost heap0 = machine.heap@;
    let mut slots: Vec<u64> = Vec::new();
    let mut j: usize = 0;
    while j < arguments.len()
        invariant
            j <= arguments@.len(),
            slots@ == arguments@.subrange(0, j as int),
        decreases arguments@.len() - j,
    {
        slots.push(arguments[j]);
        j += 1;
    }
    proof {
        assert(slots@ =~= arguments@);
    }
    let mut i: usize = 0;
    while i < f.instructions.len()
        invariant
            i <= f.instructions@.len(),
            run_from(f.instructions@, i as int, slots@, machine.heap@) == run_from(
                f.instructions@,
                0,
                arguments@,
                heap0,
            ),
        decreases f.instructions@.len() - i,
    {
        let ghost slots_before = slots@;
        let ghost heap_before = machine.heap@;
        match &f.instructions[i] {
            Instruction::Allocate { words } => {
                let ptr = machine.heap.len() as u64;
                let words_n: usize = *words;
                let mut w: usize = 0;
                while w < words_n
                    invariant
                        w <= words_n,
                        machine.heap@ =~= heap_before + Seq::new(w as nat, |x: int| 0u64),
                    decreases words_n - w,
                {
                    machine.heap.push(0);
                    proof {
                        assert(machine.heap@ =~= heap_before + Seq::new(
                            (w + 1) as nat,
                            |x: int| 0u64,
                        ));
                    }
                    w += 1;
                }
                slots.push(ptr);
            },
            Instruction::Load { ptr } => {
                let p: usize = *ptr;
                if p >= slots.len() {
                    return None;
                }
                let addr = slots[p];
                if addr >= machine.heap.len() as u64 {
                    return None;
                }
                let value = machine.heap[addr as usize];
                slots.push(value);
            },
            Instruction::Store { ptr, value } => {
                let p: usize = *ptr;
                let v: usize = *value;
                if p >= slots.len() || v >= slots.len() {
                    return None;
                }
                let addr = slots[p];
                if addr >= machine.heap.len() as u64 {
                    return None;
                }
                let stored = slots[v];
                machine.heap.set(addr as usize, stored);
                slots.push(0);
            },
            Instruction::ConstInt { value } => {
                slots.push(*value);
            },
            Instruction::Binary { op, a, b } => {
                let sa: usize = *a;
                let sb: usize = *b;
                if sa >= slots.len() || sb >= slots.len() {
                    return None;
                }
                match eval_binop(*op, slots[sa], slots[sb]) {
                    Some(v) => {
                        slots.push(v);
                    },
                    None => {
                        return None;
                    },
                }
            },
            Instruction::Not { a } => {
                let sa: usize = *a;
                if sa >= slots.len() {
                    return None;
                }
                let v: u64 = if slots[sa] == 0 {
                    1
                } else {
                    0
                };
                slots.push(v);
            },
            Instruction::Offset { ptr, offset } => {
                let p: usize = *ptr;
                let o: usize = *offset;
                if p >= slots.len() || o >= slots.len() {
                    return None;
                }
                let v = slots[p].wrapping_add(slots[o]);
                slots.push(v);
            },
            Instruction::Call { .. } => {
                return None;
            },
            Instruction::Return { value } => {
                let v: usize = *value;
                if v >= slots.len() {
                    return None;
                }
                return Some(slots[v]);
            },
        }
        i += 1;
    }
    None
}

} // verus!

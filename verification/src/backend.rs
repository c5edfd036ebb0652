//! The model of what code generation hands the instruction-emission backend:
//! per-function straight-line primitive instructions over value slots, plus
//! module-level function and global tables. Every user-level value is a heap
//! box (one pointer-sized word), so generic code can handle values of
//! unresolved size; intrinsic lowering allocates result boxes itself.
//!
//! The built-in operation catalogue is a closed enumeration, resolved from a
//! function's name once at definition time and dispatched exhaustively.

use vstd::prelude::*;
use vstd::string::StrSliceExecFns;

verus! {

/// The closed catalogue of built-in operations.
#[derive(Clone, Copy, Debug, PartialEq, Eq, Structural)]
pub enum Intrinsic {
    /// Numeric cast; bit-identical box reload.
    Cast,
    Add,
    Subtract,
    Multiply,
    DivideSigned,
    DivideUnsigned,
    RemainderSigned,
    RemainderUnsigned,
    Equal,
    /// Logical negation of a boolean box.
    Not,
    BitXor,
    BitOr,
    BitAnd,
    /// Array element read, skipping the implicit length header word.
    ArrayIndex,
    /// Fresh empty array: one word holding a zero length header.
    ArrayEmpty,
}

/// `p` is a prefix of `s`.
pub open spec fn has_prefix(s: Seq<char>, p: Seq<char>) -> bool {
    p.len() <= s.len() && s.subrange(0, p.len() as int) == p
}

/// `p` is a suffix of `s`.
pub open spec fn has_suffix(s: Seq<char>, p: Seq<char>) -> bool {
    p.len() <= s.len() && s.subrange(s.len() - p.len(), s.len() as int) == p
}

/// Whether `s` starts with `p`, counting characters.
pub fn str_starts_with(s: &str, p: &str) -> (r: bool)
    ensures
        r == has_prefix(s@, p@),
{
    let sl = s.unicode_len();
    let pl = p.unicode_len();
    if pl > sl {
        return false;
    }
    let mut i: usize = 0;
    while i < pl
        invariant
            i <= pl,
            pl == p@.len(),
            pl <= sl,
            sl == s@.len(),
            forall|j: int| 0 <= j < i ==> s@[j] == p@[j],
        decreases pl - i,
    {
        if s.get_char(i) != p.get_char(i) {
            proof {
                assert(s@.subrange(0, pl as int)[i as int] != p@[i as int]);
            }
            return false;
        }
        i += 1;
    }
    proof {
        assert(s@.subrange(0, pl as int) =~= p@);
    }
    true
}

/// Whether `s` ends with `p`, counting characters.
pub fn str_ends_with(s: &str, p: &str) -> (r: bool)
    ensures
        r == has_suffix(s@, p@),
{
    let sl = s.unicode_len();
    let pl = p.unicode_len();
    if pl > sl {
        return false;
    }
    let off = sl - pl;
    let mut i: usize = 0;
    while i < pl
        invariant
            i <= pl,
            pl == p@.len(),
            pl <= sl,
            sl == s@.len(),
            off == sl - pl,
            forall|j: int| 0 <= j < i ==> s@[off + j] == p@[j],
        decreases pl - i,
    {
        if s.get_char(off + i) != p.get_char(i) {
            proof {
                assert(s@.subrange(off as int, sl as int)[i as int] != p@[i as int]);
            }
            return false;
        }
        i += 1;
    }
    proof {
        assert(s@.subrange(off as int, sl as int) =~= p@);
    }
    true
}

/// The built-in operation a function name denotes, by the fixed name-prefix
/// catalogue; `None` for ordinary user functions.
pub open spec fn spec_intrinsic_of(n: Seq<char>) -> Option<Intrinsic> {
    if has_prefix(n, "numbers::Cast"@) {
        Some(Intrinsic::Cast)
    } else if has_prefix(n, "math::Add"@) {
        Some(Intrinsic::Add)
    } else if has_prefix(n, "math::Subtract"@) {
        Some(Intrinsic::Subtract)
    } else if has_prefix(n, "math::Multiply"@) {
        Some(Intrinsic::Multiply)
    } else if has_prefix(n, "math::Divide"@) {
        if has_suffix(n, "u64"@) {
            Some(Intrinsic::DivideUnsigned)
        } else {
            Some(Intrinsic::DivideSigned)
        }
    } else if has_prefix(n, "math::Remainder"@) {
        if has_suffix(n, "u64"@) {
            Some(Intrinsic::RemainderUnsigned)
        } else {
            Some(Intrinsic::RemainderSigned)
        }
    } else if has_prefix(n, "math::Equal"@) {
        Some(Intrinsic::Equal)
    } else if has_prefix(n, "array::Index"@) {
        Some(Intrinsic::ArrayIndex)
    } else if has_prefix(n, "array::Empty"@) {
        Some(Intrinsic::ArrayEmpty)
    } else if has_prefix(n, "math::Not"@) {
        Some(Intrinsic::Not)
    } else if has_prefix(n, "math::BitXOR"@) {
        Some(Intrinsic::BitXor)
    } else if has_prefix(n, "math::BitOr"@) {
        Some(Intrinsic::BitOr)
    } else if has_prefix(n, "math::BitAnd"@) {
        Some(Intrinsic::BitAnd)
    } else {
        None
    }
}

/// Resolves a function name against the built-in operation catalogue, once,
/// at definition time.
pub fn intrinsic_of_name(name: &str) -> (r: Option<Intrinsic>)
    ensures
        r == spec_intrinsic_of(name@),
{
    if str_starts_with(name, "numbers::Cast") {
        Some(Intrinsic::Cast)
    } else if str_starts_with(name, "math::Add") {
        Some(Intrinsic::Add)
    } else if str_starts_with(name, "math::Subtract") {
        Some(Intrinsic::Subtract)
    } else if str_starts_with(name, "math::Multiply") {
        Some(Intrinsic::Multiply)
    } else if str_starts_with(name, "math::Divide") {
        if str_ends_with(name, "u64") {
            Some(Intrinsic::DivideUnsigned)
        } else {
            Some(Intrinsic::DivideSigned)
        }
    } else if str_starts_with(name, "math::Remainder") {
        if str_ends_with(name, "u64") {
            Some(Intrinsic::RemainderUnsigned)
        } else {
            Some(Intrinsic::RemainderSigned)
        }
    } else if str_starts_with(name, "math::Equal") {
        Some(Intrinsic::Equal)
    } else if str_starts_with(name, "array::Index") {
        Some(Intrinsic::ArrayIndex)
    } else if str_starts_with(name, "array::Empty") {
        Some(Intrinsic::ArrayEmpty)
    } else if str_starts_with(name, "math::Not") {
        Some(Intrinsic::Not)
    } else if str_starts_with(name, "math::BitXOR") {
        Some(Intrinsic::BitXor)
    } else if str_starts_with(name, "math::BitOr") {
        Some(Intrinsic::BitOr)
    } else if str_starts_with(name, "math::BitAnd") {
        Some(Intrinsic::BitAnd)
    } else {
        None
    }
}

/// A two-operand primitive operation.
#[derive(Clone, Copy, Debug, PartialEq, Eq, Structural)]
pub enum BinOp {
    Add,
    Subtract,
    Multiply,
    DivideSigned,
    DivideUnsigned,
    RemainderSigned,
    RemainderUnsigned,
    Equal,
    BitXor,
    BitOr,
    BitAnd,
}

/// One primitive backend instruction. Within a function, value slots are
/// numbered: the parameters first, then one slot per instruction, in order;
/// an operand names the slot holding it.
#[derive(Debug)]
pub enum Instruction {
    /// Allocates `words` fresh zeroed heap words; the value is a pointer to
    /// the first.
    Allocate { words: usize },
    /// Reads the heap word the pointer in `ptr` points at.
    Load { ptr: usize },
    /// Writes the value in `value` through the pointer in `ptr`.
    Store { ptr: usize, value: usize },
    /// A constant.
    ConstInt { value: u64 },
    /// A two-operand primitive on the values in `a` and `b`.
    Binary { op: BinOp, a: usize, b: usize },
    /// Logical negation of the value in `a`.
    Not { a: usize },
    /// Pointer arithmetic: the pointer in `ptr` advanced by the word count
    /// in `offset`.
    Offset { ptr: usize, offset: usize },
    /// Calls the module function with the given index on argument slots.
    Call { function: usize, arguments: Vec<usize> },
    /// Returns the value in `value` from the function.
    Return { value: usize },
}

/// A backend function value: its symbol name, parameter count, body
/// instructions, and whether its body has been emitted yet (a declaration
/// exists from the moment it is demanded; the body follows when the
/// worklist reaches it).
#[derive(Debug)]
pub struct FunctionValue {
    pub name: String,
    pub params: usize,
    pub instructions: Vec<Instruction>,
    pub body_done: bool,
}

/// A module-level aggregate constant: an ordered table of function indices
/// under a global symbol name.
#[derive(Debug)]
pub struct GlobalValue {
    pub name: String,
    pub entries: Vec<usize>,
}

/// The backend module under construction: every demanded function and every
/// global the session has emitted.
#[derive(Debug)]
pub struct CompilerImpl {
    pub functions: Vec<FunctionValue>,
    pub globals: Vec<GlobalValue>,
}

/// The instructions intrinsic lowering emits for `op` in a function with
/// `p` parameter slots. Binary operations load both operand boxes, apply
/// the primitive, and box the result; comparisons and negation box their
/// flag; array indexing skips the one-word length header; array allocation
/// writes a zero header into a fresh word.
pub open spec fn lower_intrinsic(op: Intrinsic, p: int) -> Seq<Instruction> {
    match op {
        Intrinsic::Cast => seq![
            Instruction::Load { ptr: 0 },
            Instruction::Return { value: (p + 0) as usize },
        ],
        Intrinsic::Add => lower_binary(BinOp::Add, p),
        Intrinsic::Subtract => lower_binary(BinOp::Subtract, p),
        Intrinsic::Multiply => lower_binary(BinOp::Multiply, p),
        Intrinsic::DivideSigned => lower_binary(BinOp::DivideSigned, p),
        Intrinsic::DivideUnsigned => lower_binary(BinOp::DivideUnsigned, p),
        Intrinsic::RemainderSigned => lower_binary(BinOp::RemainderSigned, p),
        Intrinsic::RemainderUnsigned => lower_binary(BinOp::RemainderUnsigned, p),
        Intrinsic::Equal => lower_binary(BinOp::Equal, p),
        Intrinsic::Not => seq![
            Instruction::Allocate { words: 1 },
            Instruction::Load { ptr: 0 },
            Instruction::Not { a: (p + 1) as usize },
            Instruction::Store { ptr: (p + 0) as usize, value: (p + 2) as usize },
            Instruction::Return { value: (p + 0) as usize },
        ],
        Intrinsic::BitXor => lower_binary(BinOp::BitXor, p),
        Intrinsic::BitOr => lower_binary(BinOp::BitOr, p),
        Intrinsic::BitAnd => lower_binary(BinOp::BitAnd, p),
        Intrinsic::ArrayIndex => seq![
            Instruction::Load { ptr: 1 },
            Instruction::ConstInt { value: 1 },
            Instruction::Binary { op: BinOp::Add, a: (p + 0) as usize, b: (p + 1) as usize },
            Instruction::Offset { ptr: 0, offset: (p + 2) as usize },
            Instruction::Load { ptr: (p + 3) as usize },
            Instruction::Return { value: (p + 4) as usize },
        ],
        Intrinsic::ArrayEmpty => seq![
            Instruction::Allocate { words: 1 },
            Instruction::ConstInt { value: 0 },
            Instruction::Store { ptr: (p + 0) as usize, value: (p + 1) as usize },
            Instruction::Return { value: (p + 0) as usize },
        ],
    }
}

/// The shared shape of every boxed two-operand lowering: allocate the result
/// box, load both operand boxes, apply the primitive, store, return the box.
pub open spec fn lower_binary(op: BinOp, p: int) -> Seq<Instruction> {
    seq![
        Instruction::Allocate { words: 1 },
        Instruction::Load { ptr: 0 },
        Instruction::Load { ptr: 1 },
        Instruction::Binary { op, a: (p + 1) as usize, b: (p + 2) as usize },
        Instruction::Store { ptr: (p + 0) as usize, value: (p + 3) as usize },
        Instruction::Return { value: (p + 0) as usize },
    ]
}

/// How many parameter slots each built-in operation expects.
pub open spec fn intrinsic_arity(op: Intrinsic) -> int {
    match op {
        Intrinsic::Cast => 1,
        Intrinsic::Not => 1,
        Intrinsic::ArrayEmpty => 1,
        _ => 2,
    }
}

/// Appends a one-word box allocation to the function being built; the
/// returned slot holds the fresh pointer.
pub fn malloc_type(f: &mut FunctionValue) -> (slot: usize)
    requires
        old(f).params + old(f).instructions@.len() < usize::MAX,
    ensures
        final(f).instructions@ == old(f).instructions@.push(Instruction::Allocate { words: 1 }),
        final(f).name == old(f).name,
        final(f).params == old(f).params,
        final(f).body_done == old(f).body_done,
        slot == old(f).params + old(f).instructions@.len(),
{
    let slot = f.params + f.instructions.len();
    f.instructions.push(Instruction::Allocate { words: 1 });
    slot
}

/// Emits the body of a built-in operation: exactly the catalogue lowering
/// for `op`, in place of any source-level body.
pub fn compile_internal(f: &mut FunctionValue, op: Intrinsic)
    requires
        old(f).instructions@.len() == 0,
        old(f).params == intrinsic_arity(op),
    ensures
        final(f).instructions@ == lower_intrinsic(op, old(f).params as int),
        final(f).name == old(f).name,
        final(f).params == old(f).params,
        final(f).body_done,
{
    let p = f.params;
    match op {
        Intrinsic::Cast => {
            f.instructions.push(Instruction::Load { ptr: 0 });
            f.instructions.push(Instruction::Return { value: p });
        },
        Intrinsic::Add => emit_binary(f, BinOp::Add),
        Intrinsic::Subtract => emit_binary(f, BinOp::Subtract),
        Intrinsic::Multiply => emit_binary(f, BinOp::Multiply),
        Intrinsic::DivideSigned => emit_binary(f, BinOp::DivideSigned),
        Intrinsic::DivideUnsigned => emit_binary(f, BinOp::DivideUnsigned),
        Intrinsic::RemainderSigned => emit_binary(f, BinOp::RemainderSigned),
        Intrinsic::RemainderUnsigned => emit_binary(f, BinOp::RemainderUnsigned),
        Intrinsic::Equal => emit_binary(f, BinOp::Equal),
        Intrinsic::Not => {
            let slot = malloc_type(f);
            f.instructions.push(Instruction::Load { ptr: 0 });
            f.instructions.push(Instruction::Not { a: p + 1 });
            f.instructions.push(Instruction::Store { ptr: slot, value: p + 2 });
            f.instructions.push(Instruction::Return { value: slot });
        },
        Intrinsic::BitXor => emit_binary(f, BinOp::BitXor),
        Intrinsic::BitOr => emit_binary(f, BinOp::BitOr),
        Intrinsic::BitAnd => emit_binary(f, BinOp::BitAnd),
        Intrinsic::ArrayIndex => {
            f.instructions.push(Instruction::Load { ptr: 1 });
            f.instructions.push(Instruction::ConstInt { value: 1 });
            f.instructions.push(Instruction::Binary { op: BinOp::Add, a: p, b: p + 1 });
            f.instructions.push(Instruction::Offset { ptr: 0, offset: p + 2 });
            f.instructions.push(Instruction::Load { ptr: p + 3 });
            f.instructions.push(Instruction::Return { value: p + 4 });
        },
        Intrinsic::ArrayEmpty => {
            let slot = malloc_type(f);
            f.instructions.push(Instruction::ConstInt { value: 0 });
            f.instructions.push(Instruction::Store { ptr: slot, value: p + 1 });
            f.instructions.push(Instruction::Return { value: slot });
        },
    }
    f.body_done = true;
    proof {
        assert(f.instructions@ =~= lower_intrinsic(op, old(f).params as int));
    }
}

/// Emits the shared boxed two-operand lowering.
fn emit_binary(f: &mut FunctionValue, op: BinOp)
    requires
        old(f).instructions@.len() == 0,
        old(f).params == 2,
    ensures
        final(f).instructions@ == lower_binary(op, old(f).params as int),
        final(f).name == old(f).name,
        final(f).params == old(f).params,
        final(f).body_done == old(f).body_done,
{
    let p = f.params;
    let slot = malloc_type(f);
    f.instructions.push(Instruction::Load { ptr: 0 });
    f.instructions.push(Instruction::Load { ptr: 1 });
    f.instructions.push(Instruction::Binary { op, a: p + 1, b: p + 2 });
    f.instructions.push(Instruction::Store { ptr: slot, value: p + 3 });
    f.instructions.push(Instruction::Return { value: slot });
    proof {
        assert(f.instructions@ =~= lower_binary(op, old(f).params as int));
    }
}

} // verus!

//! The demand-driven code-generation driver. Starting from the well-known
//! entry point it demands function instances, lowers their bodies one at a
//! time through a FIFO worklist, and appends every newly discovered callee
//! to the back. Only functions transitively reachable from the entry point
//! are ever instanced; a built-in operation gets its catalogue lowering in
//! place of a body; a poisoned definition aborts the session with its
//! accumulated errors.

use vstd::prelude::*;
use vstd::string::StringExecFns;
use crate::backend::CompilerImpl;
use crate::backend::FunctionValue;
use crate::backend::Instruction;
use crate::backend::Intrinsic;
use crate::backend::compile_internal;
use crate::backend::intrinsic_arity;
use crate::blocks::SimpleEffect;
use crate::blocks::body_calls;
use crate::blocks::code_view;
use crate::blocks::lemma_calls_upto_monotonic;
use crate::blocks::simple_calls;
use crate::errors::CompileError;
use crate::errors::ParsingError;
use crate::function::FinalizedFunction;
use crate::structure::MODIFIER_INTERNAL;
use crate::structure::is_modifier;
use crate::syntax::Syntax;
use crate::types::FinalizedTypes;
use crate::types::is_ground;
use crate::types::spec_inner_id;
use crate::util::table_find;
use crate::util::table_get;
use crate::util::table_has;

verus! {

/// The fixed well-known entry point name.
pub open spec fn entry_name() -> Seq<char> {
    "main::main"@
}

/// `a` calls `b`: `a` stands in the function table and `b` is among the
/// names its body calls.
pub open spec fn edge(funcs: Seq<(String, FinalizedFunction)>, a: Seq<char>, b: Seq<char>) -> bool {
    table_has(funcs, a) && body_calls(code_view(table_get(funcs, a).code)).contains(b)
}

/// A call chain from `root` to `target`.
pub open spec fn valid_path(
    funcs: Seq<(String, FinalizedFunction)>,
    p: Seq<Seq<char>>,
    root: Seq<char>,
    target: Seq<char>,
) -> bool {
    &&& p.len() >= 1
    &&& p[0] == root
    &&& p.last() == target
    &&& forall|i: int| 0 <= i < p.len() - 1 ==> edge(funcs, #[trigger] p[i], p[i + 1])
}

/// `target` is `root` itself or called, transitively, from it.
pub open spec fn reaches(
    funcs: Seq<(String, FinalizedFunction)>,
    root: Seq<char>,
    target: Seq<char>,
) -> bool {
    exists|p: Seq<Seq<char>>| valid_path(funcs, p, root, target)
}

/// `target` is the entry point or called, transitively, from it through
/// static call edges.
pub open spec fn reachable(funcs: Seq<(String, FinalizedFunction)>, target: Seq<char>) -> bool {
    reaches(funcs, entry_name(), target)
}

/// `n` is an implementing function some entry of the verified
/// implementation relation lists for a trait method: a function callable
/// through dynamic dispatch once its pair's table is demanded.
pub open spec fn listed_method(impls: Seq<crate::solver::Implementation>, n: Seq<char>) -> bool {
    exists|i: int, j: int|
        0 <= i < impls.len() && 0 <= j < impls[i].methods@.len() && (#[trigger] impls[i].methods@[j]).1@
            == n
}

/// A legitimate starting point of demand: the entry point, or a function a
/// dispatch table can name.
pub open spec fn demand_root(syntax: Syntax, n: Seq<char>) -> bool {
    n == entry_name() || listed_method(syntax.implementations@, n)
}

/// `n` is demanded: the entry point, a dispatch-table method, or called,
/// transitively, from one of those. Nothing else is ever instanced.
pub open spec fn demanded(syntax: Syntax, n: Seq<char>) -> bool {
    exists|root: Seq<char>| #[trigger] demand_root(syntax, root) && reaches(syntax.functions@, root, n)
}

/// Every name reaches itself.
pub proof fn lemma_reaches_self(funcs: Seq<(String, FinalizedFunction)>, n: Seq<char>)
    ensures
        reaches(funcs, n, n),
{
    let p = seq![n];
    assert(valid_path(funcs, p, n, n));
}

/// Reaching follows call edges.
pub proof fn lemma_reaches_step(
    funcs: Seq<(String, FinalizedFunction)>,
    root: Seq<char>,
    a: Seq<char>,
    b: Seq<char>,
)
    requires
        reaches(funcs, root, a),
        edge(funcs, a, b),
    ensures
        reaches(funcs, root, b),
{
    let p = choose|p: Seq<Seq<char>>| valid_path(funcs, p, root, a);
    let q = p.push(b);
    assert forall|i: int| 0 <= i < q.len() - 1 implies edge(funcs, #[trigger] q[i], q[i + 1]) by {
        if i < p.len() - 1 {
            assert(edge(funcs, p[i], p[i + 1]));
        }
    }
    assert(valid_path(funcs, q, root, b));
}

/// The entry point is demanded.
pub proof fn lemma_demanded_entry(syntax: Syntax)
    ensures
        demanded(syntax, entry_name()),
{
    assert(demand_root(syntax, entry_name()));
    lemma_reaches_self(syntax.functions@, entry_name());
}

/// Every function a dispatch table can name is demanded.
pub proof fn lemma_demanded_listed(syntax: Syntax, n: Seq<char>)
    requires
        listed_method(syntax.implementations@, n),
    ensures
        demanded(syntax, n),
{
    assert(demand_root(syntax, n));
    lemma_reaches_self(syntax.functions@, n);
}

/// Demand follows call edges.
pub proof fn lemma_demanded_step(syntax: Syntax, a: Seq<char>, b: Seq<char>)
    requires
        demanded(syntax, a),
        edge(syntax.functions@, a, b),
    ensures
        demanded(syntax, b),
{
    let root = choose|root: Seq<char>|
        #[trigger] demand_root(syntax, root) && reaches(syntax.functions@, root, a);
    lemma_reaches_step(syntax.functions@, root, a, b);
}

/// No two module functions share a symbol name.
pub open spec fn fn_names_unique(fs: Seq<FunctionValue>) -> bool {
    forall|i: int, j: int| 0 <= i < j < fs.len() ==> fs[i].name@ != fs[j].name@
}

/// Some module function carries the symbol name `n`.
pub open spec fn fn_module_has(fs: Seq<FunctionValue>, n: Seq<char>) -> bool {
    exists|i: int| 0 <= i < fs.len() && (#[trigger] fs[i]).name@ == n
}

/// The index of the module function named `n`.
pub open spec fn fn_module_index(fs: Seq<FunctionValue>, n: Seq<char>) -> int {
    choose|i: int| 0 <= i < fs.len() && (#[trigger] fs[i]).name@ == n
}

/// With unique names, any index carrying `n` is `fn_module_index`.
pub proof fn lemma_fn_module_index_unique(fs: Seq<FunctionValue>, n: Seq<char>, i: int)
    requires
        fn_names_unique(fs),
        0 <= i < fs.len(),
        fs[i].name@ == n,
    ensures
        fn_module_has(fs, n),
        fn_module_index(fs, n) == i,
{
    let j = fn_module_index(fs, n);
    if i < j {
        assert(fs[i].name@ != fs[j].name@);
    } else if j < i {
        assert(fs[j].name@ != fs[i].name@);
    }
}

/// Every built-in-tagged function of the table takes exactly the operand
/// count its operation expects; the verification phase guarantees it.
pub open spec fn intrinsics_ok(funcs: Seq<(String, FinalizedFunction)>) -> bool {
    forall|i: int|
        0 <= i < funcs.len() ==> match (#[trigger] funcs[i]).1.intrinsic {
            Some(op) => funcs[i].1.fields@.len() == intrinsic_arity(op),
            None => true,
        }
}

/// The driver's context: the session syntax it compiles from, the backend
/// module it emits into, the FIFO worklist of demanded-but-unemitted
/// functions, and the lowering scope (basic blocks and variable slots of
/// the function being emitted).
pub struct CompilerTypeGetter {
    pub syntax: Syntax,
    pub compiler: CompilerImpl,
    /// Demanded functions still awaiting emission: the module index of the
    /// declaration and the source function's name, oldest first.
    pub compiling: Vec<(usize, String)>,
    /// Labelled basic blocks of the function being emitted.
    pub blocks: Vec<(String, usize)>,
    /// Variable slots of the function being emitted.
    pub variables: Vec<(String, usize)>,
    /// The names of the functions whose bodies have been emitted, in
    /// emission order; ghost, for stating the worklist discipline.
    pub emitted: Ghost<Seq<Seq<char>>>,
}

impl CompilerTypeGetter {
    /// Everything the driver maintains: every instanced function has a
    /// unique name, names a table function, is reachable from the entry
    /// point, and carries that function's parameter count; every worklist
    /// item names its declaration, not yet emitted, empty, and no
    /// declaration is queued twice.
    pub open spec fn wf(&self) -> bool {
        &&& self.syntax.wf()
        &&& fn_names_unique(self.compiler.functions@)
        &&& forall|k: int|
            0 <= k < self.compiler.functions@.len() ==> table_has(
                self.syntax.functions@,
                (#[trigger] self.compiler.functions@[k]).name@,
            )
        &&& forall|k: int|
            0 <= k < self.compiler.functions@.len() ==> demanded(
                self.syntax,
                (#[trigger] self.compiler.functions@[k]).name@,
            )
        &&& forall|k: int|
            0 <= k < self.compiler.functions@.len() ==> (#[trigger] self.compiler.functions@[k]).params
                == table_get(self.syntax.functions@, self.compiler.functions@[k].name@).fields@.len()
        &&& forall|w: int|
            0 <= w < self.compiling@.len() ==> {
                &&& (#[trigger] self.compiling@[w]).0 < self.compiler.functions@.len()
                &&& self.compiler.functions@[self.compiling@[w].0 as int].name@
                    == self.compiling@[w].1@
                &&& !self.compiler.functions@[self.compiling@[w].0 as int].body_done
                &&& self.compiler.functions@[self.compiling@[w].0 as int].instructions@.len() == 0
            }
        &&& forall|w1: int, w2: int|
            0 <= w1 < w2 < self.compiling@.len() ==> (#[trigger] self.compiling@[w1]).0
                != (#[trigger] self.compiling@[w2]).0
    }

    /// Every module function whose body is not yet emitted stands in the
    /// worklist: nothing demanded is ever silently dropped.
    pub open spec fn undone_queued(&self) -> bool {
        forall|k: int|
            0 <= k < self.compiler.functions@.len() ==> (#[trigger] self.compiler.functions@[k]).body_done
                || exists|w: int|
                0 <= w < self.compiling@.len() && (#[trigger] self.compiling@[w]).0 == k
    }

    /// A fresh driver over an empty backend module.
    pub fn new(compiler: CompilerImpl, syntax: Syntax) -> (r: Self)
        requires
            syntax.wf(),
            compiler.functions@.len() == 0,
        ensures
            r.wf(),
            r.syntax == syntax,
            r.compiler == compiler,
            r.compiling@.len() == 0,
            r.blocks@.len() == 0,
            r.variables@.len() == 0,
            r.emitted@.len() == 0,
            r.undone_queued(),
    {
        CompilerTypeGetter {
            syntax,
            compiler,
            compiling: Vec::new(),
            blocks: Vec::new(),
            variables: Vec::new(),
            emitted: Ghost(Seq::empty()),
        }
    }

    /// Rebinds the lowering scope for one function: each parameter name to
    /// its slot, slots numbered in declaration order from zero.
    pub fn for_function(&mut self, function: &FinalizedFunction)
        ensures
            final(self).syntax == old(self).syntax,
            final(self).compiler == old(self).compiler,
            final(self).compiling == old(self).compiling,
            final(self).blocks == old(self).blocks,
            final(self).emitted == old(self).emitted,
            final(self).variables@.len() == function.fields@.len(),
            forall|j: int|
                0 <= j < function.fields@.len() ==> (#[trigger] final(self).variables@[j]).0@
                    == function.fields@[j].name@ && final(self).variables@[j].1 == j,
            old(self).wf() ==> final(self).wf(),
    {
        let mut variables: Vec<(String, usize)> = Vec::new();
        let mut i: usize = 0;
        while i < function.fields.len()
            invariant
                i <= function.fields@.len(),
                variables@.len() == i,
                forall|j: int|
                    0 <= j < i ==> (#[trigger] variables@[j]).0@ == function.fields@[j].name@
                        && variables@[j].1 == j,
            decreases function.fields@.len() - i,
        {
            variables.push((function.fields[i].name.clone(), i));
            i += 1;
        }
        self.variables = variables;
    }

    /// The backend value for `function`: the module function already
    /// declared under its name, or a fresh declaration, enqueued for
    /// emission. Demanding an already-known function changes nothing: the
    /// worklist is idempotent against the module.
    #[verifier::loop_isolation(false)]
    pub fn get_function(&mut self, name: &String) -> (r: usize)
        requires
            old(self).wf(),
            table_has(old(self).syntax.functions@, name@),
            demanded(old(self).syntax, name@),
        ensures
            final(self).wf(),
            final(self).syntax == old(self).syntax,
            final(self).blocks == old(self).blocks,
            final(self).variables == old(self).variables,
            final(self).emitted == old(self).emitted,
            final(self).compiler.globals == old(self).compiler.globals,
            old(self).undone_queued() ==> final(self).undone_queued(),
            r < final(self).compiler.functions@.len(),
            final(self).compiler.functions@[r as int].name@ == name@,
            fn_module_has(old(self).compiler.functions@, name@) ==> {
                &&& *final(self) == *old(self)
                &&& r == fn_module_index(old(self).compiler.functions@, name@)
            },
            !fn_module_has(old(self).compiler.functions@, name@) ==> {
                &&& r == old(self).compiler.functions@.len()
                &&& final(self).compiler.functions@.len() == old(self).compiler.functions@.len()
                    + 1
                &&& forall|k: int|
                    0 <= k < old(self).compiler.functions@.len() ==> final(self).compiler.functions@[k]
                        == old(self).compiler.functions@[k]
                &&& !final(self).compiler.functions@[r as int].body_done
                &&& final(self).compiler.functions@[r as int].instructions@.len() == 0
                &&& final(self).compiling@ == old(self).compiling@.push((r, *name))
            },
    {
        let mut k: usize = 0;
        while k < self.compiler.functions.len()
            invariant
                k <= self.compiler.functions@.len(),
                forall|j: int| 0 <= j < k ==> self.compiler.functions@[j].name@ != name@,
            decreases self.compiler.functions@.len() - k,
        {
            if self.compiler.functions[k].name == *name {
                proof {
                    lemma_fn_module_index_unique(self.compiler.functions@, name@, k as int);
                }
                return k;
            }
            k += 1;
        }
        let params = match self.syntax.get_function(name) {
            Some(f) => f.fields.len(),
            None => 0,
        };
        let r = self.compiler.functions.len();
        self.compiler.functions.push(
            FunctionValue {
                name: name.clone(),
                params,
                instructions: Vec::new(),
                body_done: false,
            },
        );
        self.compiling.push((r, name.clone()));
        proof {
            if old(self).undone_queued() {
                assert forall|k: int|
                    0 <= k < self.compiler.functions@.len() implies (
                #[trigger] self.compiler.functions@[k]).body_done || exists|w: int|
                    0 <= w < self.compiling@.len() && (#[trigger] self.compiling@[w]).0 == k by {
                    if k < old(self).compiler.functions@.len() {
                        if !self.compiler.functions@[k].body_done {
                            let w = choose|w: int|
                                0 <= w < old(self).compiling@.len() && (#[trigger] old(
                                    self,
                                ).compiling@[w]).0 == k;
                            assert(self.compiling@[w].0 == k);
                        }
                    } else {
                        assert(self.compiling@[self.compiling@.len() - 1].0 == k);
                    }
                }
            }
        }
        r
    }

    /// The backend type a resolved type lowers to: struct values by their
    /// definition, references as pointers to the same.
    pub fn get_type(&self, types: &FinalizedTypes) -> (r: BasicTypeKind)
        requires
            is_ground(types@),
        ensures
            r == (match types@ {
                crate::types::TypeV::Reference(_) => BasicTypeKind::Pointer(spec_inner_id(types@)),
                _ => BasicTypeKind::Value(spec_inner_id(types@)),
            }),
    {
        match types {
            FinalizedTypes::Reference(_) => BasicTypeKind::Pointer(types.inner_id()),
            _ => BasicTypeKind::Value(types.inner_id()),
        }
    }
}


/// The variable names a lowering scope binds.
pub open spec fn env_of(variables: Seq<(String, usize)>) -> Set<Seq<char>> {
    Set::new(|n: Seq<char>| exists|i: int| 0 <= i < variables.len() && (#[trigger] variables[i]).0@ == n)
}

/// The parameter names a function's scope starts with.
pub open spec fn param_env(f: FinalizedFunction) -> Set<Seq<char>> {
    Set::new(
        |n: Seq<char>| exists|i: int| 0 <= i < f.fields@.len() && (#[trigger] f.fields@[i]).name@ == n,
    )
}

/// Every named argument is bound in the scope.
pub open spec fn args_bound(env: Set<Seq<char>>, args: Seq<Seq<char>>) -> bool {
    forall|i: int| 0 <= i < args.len() ==> env.contains(#[trigger] args[i])
}

/// A simple effect lowers in a scope when every variable it reads is bound
/// and every function it calls is defined.
pub open spec fn simple_lowerable(
    funcs: Seq<(String, FinalizedFunction)>,
    env: Set<Seq<char>>,
    s: crate::blocks::SimpleV,
) -> bool {
    match s {
        crate::blocks::SimpleV::Number(_) => true,
        crate::blocks::SimpleV::LoadVariable(v) => env.contains(v),
        crate::blocks::SimpleV::CallFunction(name, args) => table_has(funcs, name) && args_bound(
            env,
            args,
        ),
    }
}

/// A body's statements from position `k` on lower in the given scope, each
/// binding extending the scope for what follows.
pub open spec fn body_lowerable(
    funcs: Seq<(String, FinalizedFunction)>,
    env: Set<Seq<char>>,
    exprs: Seq<crate::blocks::EffectV>,
    k: int,
) -> bool
    decreases exprs.len() - k,
{
    if k < 0 || k >= exprs.len() {
        true
    } else {
        match exprs[k] {
            crate::blocks::EffectV::NOP => body_lowerable(funcs, env, exprs, k + 1),
            crate::blocks::EffectV::Evaluate(inner) => simple_lowerable(funcs, env, inner)
                && body_lowerable(funcs, env, exprs, k + 1),
            crate::blocks::EffectV::CreateVariable(v, inner) => simple_lowerable(funcs, env, inner)
                && body_lowerable(funcs, env.insert(v), exprs, k + 1),
            crate::blocks::EffectV::CodeReturn(v) => env.contains(v) && body_lowerable(
                funcs,
                env,
                exprs,
                k + 1,
            ),
        }
    }
}

/// A demanded function compiles without a defect: it is defined, not
/// poisoned, a built-in only with a catalogue operation, and its body — if
/// it has one to lower — resolves every name it uses.
pub open spec fn fn_compilable(syntax: Syntax, n: Seq<char>) -> bool {
    table_has(syntax.functions@, n) && {
        let f = table_get(syntax.functions@, n);
        &&& f.data.poisoned@.len() == 0
        &&& (f.data.modifiers & MODIFIER_INTERNAL == MODIFIER_INTERNAL ==> f.intrinsic is Some)
        &&& (f.intrinsic is None ==> body_lowerable(
            syntax.functions@,
            param_env(f),
            code_view(f.code),
            0,
        ))
    }
}

/// The instructions a boxed integer literal emits: allocate the box, the
/// constant, store it through the box pointer at `slot`.
pub open spec fn number_emission(
    pre: Seq<Instruction>,
    post: Seq<Instruction>,
    slot: usize,
    n: u64,
) -> bool {
    post == pre.push(Instruction::Allocate { words: 1 }).push(
        Instruction::ConstInt { value: n },
    ).push(Instruction::Store { ptr: slot, value: (slot + 1) as usize })
}

/// The slot a lowering scope binds `v` to.
pub open spec fn bound_slot(variables: Seq<(String, usize)>, v: Seq<char>, slot: usize) -> bool {
    exists|i: int|
        0 <= i < variables.len() && (#[trigger] variables[i]).0@ == v && variables[i].1 == slot
}

/// Every function body is small enough that slot numbering cannot overflow
/// the machine: a machine limit, not a rule of the language.
pub open spec fn sizes_ok(funcs: Seq<(String, FinalizedFunction)>) -> bool {
    forall|i: int|
        0 <= i < funcs.len() ==> (#[trigger] funcs[i]).1.fields@.len() + 4 * code_view(
            funcs[i].1.code,
        ).len() + 8 < usize::MAX
}

/// A module whose function names are distinct and all drawn from the
/// function table can never outgrow the table.
pub proof fn lemma_module_bound(fs: Seq<FunctionValue>, table: Seq<(String, FinalizedFunction)>)
    requires
        fn_names_unique(fs),
        crate::util::names_unique(table),
        forall|k: int|
            0 <= k < fs.len() ==> table_has(table, (#[trigger] fs[k]).name@),
    ensures
        fs.len() <= table.len(),
{
    broadcast use vstd::seq_lib::seq_to_set_is_finite;

    let module_names = fs.map_values(|f: FunctionValue| f.name@);
    let table_names = table.map_values(|e: (String, FinalizedFunction)| e.0@);
    assert(module_names.no_duplicates());
    assert(table_names.no_duplicates());
    module_names.unique_seq_to_set();
    table_names.unique_seq_to_set();
    assert forall|n: Seq<char>| module_names.to_set().contains(n) implies table_names.to_set().contains(
        n,
    ) by {
        let k = choose|k: int| 0 <= k < module_names.len() && module_names[k] == n;
        assert(table_has(table, fs[k].name@));
        let j = choose|j: int| 0 <= j < table.len() && table[j].0@ == n;
        assert(table_names[j] == n);
        assert(table_names.contains(n));
    }
    vstd::set_lib::lemma_len_subset(module_names.to_set(), table_names.to_set());
}

/// Appends one instruction to the module function at `i`.
fn emit(functions: &mut Vec<FunctionValue>, i: usize, instruction: Instruction)
    requires
        i < old(functions)@.len(),
    ensures
        final(functions)@.len() == old(functions)@.len(),
        forall|k: int|
            0 <= k < old(functions)@.len() && k != i ==> final(functions)@[k] == old(
                functions,
            )@[k],
        final(functions)@[i as int].name == old(functions)@[i as int].name,
        final(functions)@[i as int].params == old(functions)@[i as int].params,
        final(functions)@[i as int].body_done == old(functions)@[i as int].body_done,
        final(functions)@[i as int].instructions@ == old(functions)@[i as int].instructions@.push(
            instruction,
        ),
{
    let fv = &mut functions[i];
    fv.instructions.push(instruction);
}

impl CompilerTypeGetter {
    /// Lowers one simple effect into the function being emitted, handing
    /// back the value slot it leaves the result in. A variable or callee
    /// name that resolves to nothing is a resolution error.
    #[verifier::loop_isolation(false)]
    #[verifier::rlimit(90)]
    fn lower_simple(&mut self, fn_index: usize, effect: &SimpleEffect) -> (r: Result<
        usize,
        CompileError,
    >)
        requires
            old(self).wf(),
            fn_index < old(self).compiler.functions@.len(),
            forall|w: int|
                0 <= w < old(self).compiling@.len() ==> (#[trigger] old(self).compiling@[w]).0
                    != fn_index,
            forall|n: Seq<char>|
                simple_calls(effect@).contains(n) ==> demanded(old(self).syntax, n),
            old(self).compiler.functions@[fn_index as int].params + old(self).compiler.functions@[fn_index as int].instructions@.len() + 8 < usize::MAX,
        ensures
            final(self).wf(),
            final(self).syntax == old(self).syntax,
            final(self).blocks == old(self).blocks,
            final(self).variables == old(self).variables,
            final(self).emitted == old(self).emitted,
            final(self).compiler.globals == old(self).compiler.globals,
            old(self).undone_queued() ==> final(self).undone_queued(),
            forall|w: int|
                old(self).compiling@.len() <= w < final(self).compiling@.len() ==> (
                #[trigger] final(self).compiling@[w]).0 == old(self).compiler.functions@.len() + (
                w - old(self).compiling@.len()),
            final(self).compiler.functions@.len() >= old(self).compiler.functions@.len(),
            forall|k: int|
                0 <= k < old(self).compiler.functions@.len() && k != fn_index ==> final(self).compiler.functions@[k] == old(self).compiler.functions@[k],
            final(self).compiler.functions@[fn_index as int].name == old(self).compiler.functions@[fn_index as int].name,
            final(self).compiler.functions@[fn_index as int].params == old(self).compiler.functions@[fn_index as int].params,
            final(self).compiler.functions@[fn_index as int].body_done == old(self).compiler.functions@[fn_index as int].body_done,
            final(self).compiler.functions@[fn_index as int].instructions@.len() <= old(self).compiler.functions@[fn_index as int].instructions@.len() + 3,
            final(self).compiling@.len() >= old(self).compiling@.len(),
            forall|w: int|
                0 <= w < old(self).compiling@.len() ==> final(self).compiling@[w] == old(self).compiling@[w],
            final(self).compiling@.len() - old(self).compiling@.len() == final(self).compiler.functions@.len() - old(self).compiler.functions@.len(),
            forall|w: int|
                0 <= w < final(self).compiling@.len() ==> (#[trigger] final(self).compiling@[w]).0
                    != fn_index,
            r is Ok <==> simple_lowerable(
                old(self).syntax.functions@,
                env_of(old(self).variables@),
                effect@,
            ),
            match effect@ {
                crate::blocks::SimpleV::Number(n) => r matches Ok(slot) && slot == old(self).compiler.functions@[fn_index as int].params
                    + old(self).compiler.functions@[fn_index as int].instructions@.len()
                    && number_emission(
                    old(self).compiler.functions@[fn_index as int].instructions@,
                    final(self).compiler.functions@[fn_index as int].instructions@,
                    slot,
                    n,
                ),
                crate::blocks::SimpleV::LoadVariable(v) => final(self).compiler == old(self).compiler
                    && (r matches Ok(slot) ==> bound_slot(old(self).variables@, v, slot)),
                crate::blocks::SimpleV::CallFunction(name, args) => r matches Ok(slot) ==> {
                    &&& slot == old(self).compiler.functions@[fn_index as int].params + old(self).compiler.functions@[fn_index as int].instructions@.len()
                    &&& final(self).compiler.functions@[fn_index as int].instructions@.len() == old(self).compiler.functions@[fn_index as int].instructions@.len()
                        + 1
                    &&& final(self).compiler.functions@[fn_index as int].instructions@.last() matches Instruction::Call {
                        function,
                        arguments,
                    } && function < final(self).compiler.functions@.len() && final(self).compiler.functions@[function as int].name@
                        == name && arguments@.len() == args.len() && forall|l: int|
                        0 <= l < args.len() ==> bound_slot(
                            old(self).variables@,
                            #[trigger] args[l],
                            arguments@[l],
                        )
                },
            },
            forall|k: int|
                old(self).compiler.functions@.len() <= k < final(self).compiler.functions@.len()
                    ==> simple_calls(effect@).contains(
                    (#[trigger] final(self).compiler.functions@[k]).name@,
                ),
            match r {
                Ok(_) => true,
                Err(e) => e is SymbolNotFound && *final(self) == *old(self),
            },
    {
        match effect {
            SimpleEffect::Number(n) => {
                proof {
                    assert(effect@ == crate::blocks::SimpleV::Number(*n));
                }
                let base = self.compiler.functions[fn_index].params
                    + self.compiler.functions[fn_index].instructions.len();
                emit(&mut self.compiler.functions, fn_index, Instruction::Allocate { words: 1 });
                emit(&mut self.compiler.functions, fn_index, Instruction::ConstInt { value: *n });
                emit(
                    &mut self.compiler.functions,
                    fn_index,
                    Instruction::Store { ptr: base, value: base + 1 },
                );
                proof {
                    assert(number_emission(
                        old(self).compiler.functions@[fn_index as int].instructions@,
                        self.compiler.functions@[fn_index as int].instructions@,
                        base,
                        *n,
                    ));
                }
                Ok(base)
            },
            SimpleEffect::LoadVariable(v) => {
                proof {
                    assert(env_of(self.variables@).contains(v@) == table_has(self.variables@, v@));
                }
                match table_find(&self.variables, v) {
                    Some(i) => Ok(self.variables[i].1),
                    None => Err(CompileError::SymbolNotFound { name: v.clone() }),
                }
            },
            SimpleEffect::CallFunction(name, args) => {
                let ghost argv = crate::util::strs_of(args@);
                let mut arg_slots: Vec<usize> = Vec::new();
                let mut i: usize = 0;
                while i < args.len()
                    invariant
                        i <= args@.len(),
                        arg_slots@.len() == i,
                        argv == crate::util::strs_of(args@),
                        *self == *old(self),
                        forall|l: int|
                            0 <= l < i ==> env_of(self.variables@).contains(#[trigger] argv[l]),
                        forall|l: int|
                            0 <= l < i ==> bound_slot(
                                self.variables@,
                                argv[l],
                                #[trigger] arg_slots@[l],
                            ),
                    decreases args@.len() - i,
                {
                    proof {
                        assert(argv[i as int] == args@[i as int]@);
                    }
                    match table_find(&self.variables, &args[i]) {
                        Some(pos) => {
                            proof {
                                assert(env_of(self.variables@).contains(argv[i as int]));
                            }
                            arg_slots.push(self.variables[pos].1);
                            proof {
                                assert(bound_slot(
                                    self.variables@,
                                    argv[i as int],
                                    arg_slots@[i as int],
                                ));
                            }
                        },
                        None => {
                            proof {
                                assert(argv.len() == args@.len());
                                assert(effect@ == crate::blocks::SimpleV::CallFunction(name@, argv));
                                assert(!env_of(self.variables@).contains(argv[i as int]));
                                assert(!args_bound(env_of(self.variables@), argv));
                                assert(!simple_lowerable(
                                    self.syntax.functions@,
                                    env_of(self.variables@),
                                    effect@,
                                ));
                            }
                            return Err(CompileError::SymbolNotFound { name: args[i].clone() });
                        },
                    }
                    i += 1;
                }
                let known = match self.syntax.get_function(name) {
                    Some(_) => true,
                    None => false,
                };
                if !known {
                    return Err(CompileError::SymbolNotFound { name: name.clone() });
                }
                proof {
                    assert(simple_calls(effect@).contains(name@));
                }
                let callee = self.get_function(name);
                let base = self.compiler.functions[fn_index].params
                    + self.compiler.functions[fn_index].instructions.len();
                emit(
                    &mut self.compiler.functions,
                    fn_index,
                    Instruction::Call { function: callee, arguments: arg_slots },
                );
                Ok(base)
            },
        }
    }
}


impl CompilerTypeGetter {
    /// Emits the body of one demanded function: the catalogue lowering for a
    /// built-in operation, or its statements lowered one by one, every
    /// freshly discovered callee enqueued at the back of the worklist. A
    /// poisoned definition aborts with its accumulated errors instead of
    /// being compiled around.
    #[verifier::loop_isolation(false)]
    fn compile_block(&mut self, fn_index: usize, name: &String) -> (r: Result<(), CompileError>)
        requires
            old(self).wf(),
            intrinsics_ok(old(self).syntax.functions@),
            sizes_ok(old(self).syntax.functions@),
            fn_index < old(self).compiler.functions@.len(),
            old(self).compiler.functions@[fn_index as int].name@ == name@,
            old(self).compiler.functions@[fn_index as int].instructions@.len() == 0,
            !old(self).compiler.functions@[fn_index as int].body_done,
            forall|w: int|
                0 <= w < old(self).compiling@.len() ==> (#[trigger] old(self).compiling@[w]).0
                    != fn_index,
        ensures
            final(self).wf(),
            final(self).syntax == old(self).syntax,
            final(self).compiler.globals == old(self).compiler.globals,
            final(self).compiler.functions@.len() >= old(self).compiler.functions@.len(),
            forall|k: int|
                0 <= k < old(self).compiler.functions@.len() && k != fn_index ==> final(self).compiler.functions@[k]
                    == old(self).compiler.functions@[k],
            final(self).compiler.functions@[fn_index as int].name == old(self).compiler.functions@[fn_index as int].name,
            final(self).compiler.functions@[fn_index as int].params == old(self).compiler.functions@[fn_index as int].params,
            forall|w: int|
                0 <= w < old(self).compiling@.len() ==> final(self).compiling@[w] == old(self).compiling@[w],
            final(self).compiling@.len() - old(self).compiling@.len() == final(self).compiler.functions@.len()
                - old(self).compiler.functions@.len(),
            forall|w: int|
                0 <= w < final(self).compiling@.len() ==> (#[trigger] final(self).compiling@[w]).0
                    != fn_index,
            forall|w: int|
                old(self).compiling@.len() <= w < final(self).compiling@.len() ==> (
                #[trigger] final(self).compiling@[w]).0 == old(self).compiler.functions@.len() + (
                w - old(self).compiling@.len()),
            forall|k: int|
                old(self).compiler.functions@.len() <= k < final(self).compiler.functions@.len()
                    ==> edge(
                    old(self).syntax.functions@,
                    name@,
                    (#[trigger] final(self).compiler.functions@[k]).name@,
                ),
            fn_compilable(old(self).syntax, name@) ==> r is Ok,
            match r {
                Ok(()) => {
                    &&& final(self).compiler.functions@[fn_index as int].body_done
                    &&& final(self).emitted@ == old(self).emitted@.push(name@)
                    &&& (match table_get(old(self).syntax.functions@, name@).intrinsic {
                        Some(op) => final(self).compiler.functions@[fn_index as int].instructions@
                            == crate::backend::lower_intrinsic(
                            op,
                            final(self).compiler.functions@[fn_index as int].params as int,
                        ),
                        None => true,
                    })
                },
                Err(e) => {
                    &&& !(e is NoEntryPoint)
                    &&& final(self).emitted == old(self).emitted
                },
            },
    {
        let ghost funcs = self.syntax.functions@;
        proof {
            assert(table_has(funcs, name@));
            assert(demanded(self.syntax, name@));
        }
        let (modifiers, intrinsic, poisoned, param_names, code) = {
            let func = match self.syntax.get_function(name) {
                Some(f) => f,
                None => vstd::pervasive::unreached(),
            };
            let modifiers = func.data.modifiers;
            let intrinsic: Option<Intrinsic> = func.intrinsic;
            let mut poisoned: Vec<ParsingError> = Vec::new();
            let mut pe: usize = 0;
            while pe < func.data.poisoned.len()
                invariant
                    pe <= func.data.poisoned@.len(),
                    poisoned@.len() == pe,
                decreases func.data.poisoned@.len() - pe,
            {
                poisoned.push(func.data.poisoned[pe].duplicate());
                pe += 1;
            }
            let mut param_names: Vec<String> = Vec::new();
            let mut pi: usize = 0;
            while pi < func.fields.len()
                invariant
                    pi <= func.fields@.len(),
                    param_names@.len() == pi,
                    forall|l: int| 0 <= l < pi ==> (#[trigger] param_names@[l])@ == func.fields@[l].name@,
                decreases func.fields@.len() - pi,
            {
                param_names.push(func.fields[pi].name.clone());
                pi += 1;
            }
            (modifiers, intrinsic, poisoned, param_names, func.code.duplicate())
        };
        let ghost table_fn = table_get(funcs, name@);
        if poisoned.len() > 0 {
            proof {
                assert(table_fn.data.poisoned@.len() > 0);
                assert(!fn_compilable(old(self).syntax, name@));
            }
            return Err(CompileError::Poisoned { errors: poisoned });
        }
        if is_modifier(modifiers, MODIFIER_INTERNAL) && intrinsic.is_none() {
            // A built-in definition outside the catalogue is an upstream
            // bug: abort, never fall back to lowering a body.
            proof {
                assert(!fn_compilable(old(self).syntax, name@));
            }
            return Err(CompileError::UnknownIntrinsic { name: name.clone() });
        }
        match intrinsic {
            Some(op) => {
                proof {
                    assert(self.compiler.functions@[fn_index as int].params
                        == table_fn.fields@.len());
                    assert(table_fn.fields@.len() == intrinsic_arity(op));
                }
                let fv = &mut self.compiler.functions[fn_index];
                compile_internal(fv, op);
                proof {
                    self.emitted@ = self.emitted@.push(name@);
                }
                Ok(())
            },
            None => {
                let ghost code_v = code_view(code);
                proof {
                    assert(code_v == code_view(table_fn.code));
                }
                let mut variables: Vec<(String, usize)> = Vec::new();
                let mut pi: usize = 0;
                while pi < param_names.len()
                    invariant
                        pi <= param_names@.len(),
                        variables@.len() == pi,
                        forall|l: int| 0 <= l < pi ==> (#[trigger] variables@[l]).0@ == param_names@[l]@,
                    decreases param_names@.len() - pi,
                {
                    variables.push((param_names[pi].clone(), pi));
                    pi += 1;
                }
                self.variables = variables;
                proof {
                    assert forall|n: Seq<char>|
                        env_of(self.variables@).contains(n) == param_env(table_fn).contains(n) by {
                        if env_of(self.variables@).contains(n) {
                            let l = choose|l: int|
                                0 <= l < self.variables@.len() && (#[trigger] self.variables@[l]).0@
                                    == n;
                            assert(table_fn.fields@[l].name@ == n);
                        }
                        if param_env(table_fn).contains(n) {
                            let l = choose|l: int|
                                0 <= l < table_fn.fields@.len() && (#[trigger] table_fn.fields@[l]).name@
                                    == n;
                            assert(self.variables@[l].0@ == n);
                        }
                    }
                    assert(env_of(self.variables@) =~= param_env(table_fn));
                }
                let total = code.expressions.len();
                let mut e: usize = 0;
                while e < total
                    invariant
                        e <= total,
                        total == code_v.len(),
                        code_v == code_view(code),
                        self.wf(),
                        self.syntax == old(self).syntax,
                        self.compiler.globals == old(self).compiler.globals,
                        self.compiler.functions@.len() >= old(self).compiler.functions@.len(),
                        fn_index < self.compiler.functions@.len(),
                        forall|k: int|
                            0 <= k < old(self).compiler.functions@.len() && k != fn_index
                                ==> self.compiler.functions@[k] == old(self).compiler.functions@[k],
                        self.compiler.functions@[fn_index as int].name == old(self).compiler.functions@[fn_index as int].name,
                        self.compiler.functions@[fn_index as int].params == old(self).compiler.functions@[fn_index as int].params,
                        self.compiler.functions@[fn_index as int].body_done == old(self).compiler.functions@[fn_index as int].body_done,
                        self.compiler.functions@[fn_index as int].instructions@.len() <= 4 * e,
                        forall|w: int|
                            0 <= w < old(self).compiling@.len() ==> self.compiling@[w] == old(self).compiling@[w],
                        self.compiling@.len() >= old(self).compiling@.len(),
                        self.compiling@.len() - old(self).compiling@.len() == self.compiler.functions@.len()
                            - old(self).compiler.functions@.len(),
                        forall|w: int|
                            0 <= w < self.compiling@.len() ==> (#[trigger] self.compiling@[w]).0
                                != fn_index,
                        forall|w: int|
                            old(self).compiling@.len() <= w < self.compiling@.len() ==> (
                            #[trigger] self.compiling@[w]).0 == old(self).compiler.functions@.len()
                                + (w - old(self).compiling@.len()),
                        self.emitted == old(self).emitted,
                        fn_compilable(old(self).syntax, name@) ==> body_lowerable(
                            funcs,
                            env_of(self.variables@),
                            code_v,
                            e as int,
                        ),
                        forall|k: int|
                            old(self).compiler.functions@.len() <= k
                                < self.compiler.functions@.len() ==> edge(
                                funcs,
                                name@,
                                (#[trigger] self.compiler.functions@[k]).name@,
                            ),
                    decreases total - e,
                {
                    proof {
                        assert(code_v[e as int] == code.expressions@[e as int].effect@);
                        lemma_calls_upto_monotonic(code_v, e as int, code_v.len() as int);
                        assert(self.compiler.functions@[fn_index as int].params
                            == table_fn.fields@.len());
                        assert(table_fn.fields@.len() + 4 * code_v.len() + 8 < usize::MAX);
                    }
                    match &code.expressions[e].effect {
                        crate::blocks::Effects::NOP => {},
                        crate::blocks::Effects::Evaluate(se) => {
                            proof {
                                assert forall|n: Seq<char>| simple_calls(se@).contains(n) implies demanded(
                                    self.syntax,
                                    n,
                                ) by {
                                    assert(crate::blocks::effect_calls(code_v[e as int]).contains(n));
                                    assert(edge(funcs, name@, n));
                                    lemma_demanded_step(self.syntax, name@, n);
                                }
                            }
                            let ghost flen_before = self.compiler.functions@.len() as int;
                            match self.lower_simple(fn_index, se) {
                                Ok(_) => {
                                    proof {
                                        assert forall|k: int|
                                            flen_before <= k < self.compiler.functions@.len() implies edge(
                                            funcs,
                                            name@,
                                            (#[trigger] self.compiler.functions@[k]).name@,
                                        ) by {
                                            assert(simple_calls(se@).contains(
                                                self.compiler.functions@[k].name@,
                                            ));
                                            assert(crate::blocks::effect_calls(
                                                code_v[e as int],
                                            ).contains(self.compiler.functions@[k].name@));
                                        }
                                    }
                                },
                                Err(err) => {
                                    proof {
                                        assert(!fn_compilable(old(self).syntax, name@));
                                    }
                                    return Err(err);
                                },
                            }
                        },
                        crate::blocks::Effects::CreateVariable(v, se) => {
                            proof {
                                assert forall|n: Seq<char>| simple_calls(se@).contains(n) implies demanded(
                                    self.syntax,
                                    n,
                                ) by {
                                    assert(crate::blocks::effect_calls(code_v[e as int]).contains(n));
                                    assert(edge(funcs, name@, n));
                                    lemma_demanded_step(self.syntax, name@, n);
                                }
                            }
                            let ghost flen_before = self.compiler.functions@.len() as int;
                            let ghost env_before = env_of(self.variables@);
                            let ghost vars_pre = self.variables@;
                            match self.lower_simple(fn_index, se) {
                                Ok(slot) => {
                                    self.variables.push((v.clone(), slot));
                                    proof {
                                        assert forall|k: int|
                                            flen_before <= k < self.compiler.functions@.len() implies edge(
                                            funcs,
                                            name@,
                                            (#[trigger] self.compiler.functions@[k]).name@,
                                        ) by {
                                            assert(simple_calls(se@).contains(
                                                self.compiler.functions@[k].name@,
                                            ));
                                            assert(crate::blocks::effect_calls(
                                                code_v[e as int],
                                            ).contains(self.compiler.functions@[k].name@));
                                        }
                                        assert(self.variables@ == vars_pre.push((self.variables@.last())));
                                        assert(self.variables@.last().0@ == v@);
                                        assert forall|n: Seq<char>|
                                            env_of(self.variables@).contains(n)
                                                == env_before.insert(v@).contains(n) by {
                                            if env_of(self.variables@).contains(n) {
                                                let l = choose|l: int|
                                                    0 <= l < self.variables@.len() && (
                                                    #[trigger] self.variables@[l]).0@ == n;
                                                if l < vars_pre.len() {
                                                    assert(vars_pre[l].0@ == n);
                                                    assert(env_before.contains(n));
                                                } else {
                                                    assert(n == v@);
                                                }
                                            }
                                            if env_before.contains(n) {
                                                let l = choose|l: int|
                                                    0 <= l < vars_pre.len() && (
                                                    #[trigger] vars_pre[l]).0@ == n;
                                                assert(self.variables@[l].0@ == n);
                                                assert(env_of(self.variables@).contains(n));
                                            }
                                            if n == v@ {
                                                assert(self.variables@[self.variables@.len() - 1].0@
                                                    == n);
                                                assert(env_of(self.variables@).contains(n));
                                            }
                                        }
                                        assert(env_of(self.variables@) =~= env_before.insert(v@));
                                    }
                                },
                                Err(err) => {
                                    proof {
                                        assert(!fn_compilable(old(self).syntax, name@));
                                    }
                                    return Err(err);
                                },
                            }
                        },
                        crate::blocks::Effects::CodeReturn(v) => {
                            proof {
                                assert(env_of(self.variables@).contains(v@) == table_has(
                                    self.variables@,
                                    v@,
                                ));
                            }
                            match table_find(&self.variables, v) {
                                Some(pos) => {
                                    let slot = self.variables[pos].1;
                                    emit(
                                        &mut self.compiler.functions,
                                        fn_index,
                                        Instruction::Return { value: slot },
                                    );
                                },
                                None => {
                                    proof {
                                        assert(!fn_compilable(old(self).syntax, name@));
                                    }
                                    return Err(
                                        CompileError::SymbolNotFound { name: v.clone() },
                                    );
                                },
                            }
                        },
                    }
                    e += 1;
                }
                let fv = &mut self.compiler.functions[fn_index];
                fv.body_done = true;
                proof {
                    self.emitted@ = self.emitted@.push(name@);
                }
                Ok(())
            },
        }
    }

    /// Compiles the whole program demanded from the entry point: resolves
    /// `main::main`, then drains the FIFO worklist, emitting one function at
    /// a time, oldest demand first, with newly demanded callees appended at
    /// the back — so functions are emitted exactly in the order they were
    /// demanded. When the entry point is absent it returns the one-element
    /// `NoEntryPoint` error list with nothing instanced; any defect met
    /// while emitting (a poisoned definition, an unknown built-in, an
    /// unresolved name) aborts with its structured error. On success every
    /// module function has its body emitted and the worklist is drained:
    /// a partial program is never presented as success, and nothing not
    /// demanded — from the entry point or a dispatch table — is ever
    /// emitted.
    #[verifier::loop_isolation(false)]
    pub fn compile(&mut self) -> (r: Result<usize, Vec<CompileError>>)
        requires
            old(self).wf(),
            old(self).undone_queued(),
            intrinsics_ok(old(self).syntax.functions@),
            sizes_ok(old(self).syntax.functions@),
        ensures
            final(self).wf(),
            final(self).syntax == old(self).syntax,
            forall|k: int|
                0 <= k < final(self).compiler.functions@.len() ==> demanded(
                    old(self).syntax,
                    (#[trigger] final(self).compiler.functions@[k]).name@,
                ),
            !table_has(old(self).syntax.functions@, entry_name()) ==> *final(self) == *old(self),
            (r matches Err(es) && es@[0] is NoEntryPoint) <==> !table_has(
                old(self).syntax.functions@,
                entry_name(),
            ),
            (old(self).compiling@.len() == 0 && table_has(
                old(self).syntax.functions@,
                entry_name(),
            ) && (forall|n: Seq<char>|
                reaches(old(self).syntax.functions@, entry_name(), n) ==> fn_compilable(
                    old(self).syntax,
                    n,
                ))) ==> r is Ok,
            match r {
                Ok(main) => {
                    &&& main < final(self).compiler.functions@.len()
                    &&& final(self).compiler.functions@[main as int].name@ == entry_name()
                    &&& final(self).compiling@.len() == 0
                    &&& forall|k: int|
                        0 <= k < final(self).compiler.functions@.len() ==> (
                        #[trigger] final(self).compiler.functions@[k]).body_done
                    &&& (old(self).compiling@.len() == 0 ==> {
                        &&& final(self).emitted@.len() == old(self).emitted@.len() + final(self).compiler.functions@.len()
                            - old(self).compiler.functions@.len()
                        &&& forall|i: int|
                            0 <= i < final(self).compiler.functions@.len() - old(self).compiler.functions@.len()
                                ==> final(self).emitted@[old(self).emitted@.len() + i] == (
                            #[trigger] final(self).compiler.functions@[old(self).compiler.functions@.len()
                                + i]).name@
                    })
                },
                Err(es) => es@.len() == 1,
            },
    {
        let entry = String::from_str("main::main");
        let known = match self.syntax.get_function(&entry) {
            Some(_) => true,
            None => false,
        };
        if !known {
            return Err(vec![CompileError::NoEntryPoint]);
        }
        proof {
            lemma_demanded_entry(self.syntax);
        }
        let ghost fn0 = self.compiler.functions@.len() as int;
        let ghost em0 = self.emitted@.len() as int;
        let ghost q0 = self.compiling@.len() as int;
        let main_index = self.get_function(&entry);
        proof {
            lemma_module_bound(self.compiler.functions@, self.syntax.functions@);
            lemma_reaches_self(self.syntax.functions@, entry_name());
        }
        while self.compiling.len() > 0
            invariant
                self.wf(),
                self.undone_queued(),
                self.syntax == old(self).syntax,
                self.emitted@.len() >= em0,
                main_index < self.compiler.functions@.len(),
                self.compiler.functions@[main_index as int].name@ == entry_name(),
                self.compiler.functions@.len() <= self.syntax.functions@.len(),
                q0 == 0 ==> forall|k: int|
                    fn0 <= k < self.compiler.functions@.len() ==> reaches(
                        old(self).syntax.functions@,
                        entry_name(),
                        (#[trigger] self.compiler.functions@[k]).name@,
                    ),
                q0 == 0 ==> {
                    &&& self.compiler.functions@.len() == fn0 + (self.emitted@.len() - em0)
                        + self.compiling@.len()
                    &&& forall|w: int|
                        0 <= w < self.compiling@.len() ==> (#[trigger] self.compiling@[w]).0 == fn0
                            + (self.emitted@.len() - em0) + w
                    &&& forall|i: int|
                        0 <= i < self.emitted@.len() - em0 ==> self.emitted@[em0 + i] == (
                        #[trigger] self.compiler.functions@[fn0 + i]).name@
                },
            decreases 2 * (self.syntax.functions@.len() - self.compiler.functions@.len())
                + self.compiling@.len(),
        {
            let ghost pre = *self;
            let item = self.compiling.remove(0);
            let fn_index = item.0;
            let item_name = item.1;
            match self.compile_block(fn_index, &item_name) {
                Ok(()) => {
                    proof {
                        if q0 == 0 {
                            assert forall|k: int|
                                fn0 <= k < self.compiler.functions@.len() implies reaches(
                                old(self).syntax.functions@,
                                entry_name(),
                                (#[trigger] self.compiler.functions@[k]).name@,
                            ) by {
                                if k >= pre.compiler.functions@.len() {
                                    assert(edge(
                                        old(self).syntax.functions@,
                                        item_name@,
                                        self.compiler.functions@[k].name@,
                                    ));
                                    assert(reaches(
                                        old(self).syntax.functions@,
                                        entry_name(),
                                        item_name@,
                                    ));
                                    lemma_reaches_step(
                                        old(self).syntax.functions@,
                                        entry_name(),
                                        item_name@,
                                        self.compiler.functions@[k].name@,
                                    );
                                }
                            }
                        }
                    }
                },
                Err(err) => {
                    proof {
                        lemma_module_bound(self.compiler.functions@, self.syntax.functions@);
                        if q0 == 0 && table_has(old(self).syntax.functions@, entry_name()) {
                            assert(reaches(
                                old(self).syntax.functions@,
                                entry_name(),
                                pre.compiler.functions@[fn_index as int].name@,
                            ));
                            assert(!fn_compilable(old(self).syntax, item_name@));
                        }
                    }
                    return Err(vec![err]);
                },
            }
            proof {
                lemma_module_bound(self.compiler.functions@, self.syntax.functions@);
                assert forall|k: int|
                    0 <= k < self.compiler.functions@.len() implies (
                #[trigger] self.compiler.functions@[k]).body_done || exists|w: int|
                    0 <= w < self.compiling@.len() && (#[trigger] self.compiling@[w]).0 == k by {
                    if k == fn_index {
                    } else if k < pre.compiler.functions@.len() {
                        if !self.compiler.functions@[k].body_done {
                            let w = choose|w: int|
                                0 <= w < pre.compiling@.len() && (#[trigger] pre.compiling@[w]).0
                                    == k;
                            assert(pre.compiling@[w].0 != fn_index);
                            assert(w >= 1);
                            assert(self.compiling@[w - 1].0 == k);
                        }
                    } else {
                        let w = pre.compiling@.len() - 1 + (k - pre.compiler.functions@.len());
                        assert(self.compiling@[w].0 == k);
                    }
                }
            }
        }
        proof {
            assert forall|k: int|
                0 <= k < self.compiler.functions@.len() implies (
            #[trigger] self.compiler.functions@[k]).body_done by {
                if !self.compiler.functions@[k].body_done {
                    let w = choose|w: int|
                        0 <= w < self.compiling@.len() && (#[trigger] self.compiling@[w]).0 == k;
                }
            }
        }
        Ok(main_index)
    }
}

/// What a resolved type lowers to in the backend: a struct value or a
/// pointer to one, by definition identity.
#[derive(Clone, Copy, Debug, PartialEq, Eq, Structural)]
pub enum BasicTypeKind {
    Value(u64),
    Pointer(u64),
}

} // verus!

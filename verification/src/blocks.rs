//! Statement and expression forms as the code-generation driver consumes
//! them: straight-line effects whose operands are already bound to
//! variables, plus the `for` statement wrapper.

use vstd::prelude::*;
use vstd::string::StrSliceExecFns;
use vstd::string::StringExecFns;
use crate::util::strs_of;

verus! {

/// A value-producing effect in the flattened form code generation lowers:
/// every operand is a variable, so effects never nest.
#[derive(Debug)]
pub enum SimpleEffect {
    /// An integer literal, boxed when lowered.
    Number(u64),
    /// The value of a local variable.
    LoadVariable(String),
    /// A call of the named user function on the named variables.
    CallFunction(String, Vec<String>),
}

/// The mathematical value of a simple effect.
#[verifier::ext_equal]
pub enum SimpleV {
    Number(u64),
    LoadVariable(Seq<char>),
    CallFunction(Seq<char>, Seq<Seq<char>>),
}

impl View for SimpleEffect {
    type V = SimpleV;

    open spec fn view(&self) -> SimpleV {
        match self {
            SimpleEffect::Number(n) => SimpleV::Number(*n),
            SimpleEffect::LoadVariable(v) => SimpleV::LoadVariable(v@),
            SimpleEffect::CallFunction(name, args) => SimpleV::CallFunction(name@, strs_of(args@)),
        }
    }
}

impl SimpleEffect {
    /// A copy with the same mathematical value.
    pub fn duplicate(&self) -> (r: SimpleEffect)
        ensures
            r@ == self@,
    {
        match self {
            SimpleEffect::Number(n) => SimpleEffect::Number(*n),
            SimpleEffect::LoadVariable(v) => SimpleEffect::LoadVariable(v.clone()),
            SimpleEffect::CallFunction(name, args) => {
                let mut out: Vec<String> = Vec::new();
                let mut i: usize = 0;
                while i < args.len()
                    invariant
                        i <= args@.len(),
                        out@.len() == i,
                        forall|j: int| 0 <= j < i ==> out@[j] == #[trigger] args@[j],
                    decreases args@.len() - i,
                {
                    out.push(args[i].clone());
                    i += 1;
                }
                proof {
                    assert(strs_of(out@) =~= strs_of(args@));
                }
                SimpleEffect::CallFunction(name.clone(), out)
            },
        }
    }
}

/// One effect of a statement.
#[derive(Debug)]
pub enum Effects {
    /// Nothing.
    NOP,
    /// Evaluates a simple effect; the value is discarded.
    Evaluate(SimpleEffect),
    /// Binds a simple effect's value to a fresh local variable.
    CreateVariable(String, SimpleEffect),
    /// Returns the named variable's value from the enclosing function.
    CodeReturn(String),
}

/// The mathematical value of an effect.
#[verifier::ext_equal]
pub enum EffectV {
    NOP,
    Evaluate(SimpleV),
    CreateVariable(Seq<char>, SimpleV),
    CodeReturn(Seq<char>),
}

impl View for Effects {
    type V = EffectV;

    open spec fn view(&self) -> EffectV {
        match self {
            Effects::NOP => EffectV::NOP,
            Effects::Evaluate(inner) => EffectV::Evaluate(inner@),
            Effects::CreateVariable(v, inner) => EffectV::CreateVariable(v@, inner@),
            Effects::CodeReturn(v) => EffectV::CodeReturn(v@),
        }
    }
}

impl Effects {
    /// A copy with the same mathematical value.
    pub fn duplicate(&self) -> (r: Effects)
        ensures
            r@ == self@,
    {
        match self {
            Effects::NOP => Effects::NOP,
            Effects::Evaluate(inner) => Effects::Evaluate(inner.duplicate()),
            Effects::CreateVariable(v, inner) => Effects::CreateVariable(
                v.clone(),
                inner.duplicate(),
            ),
            Effects::CodeReturn(v) => Effects::CodeReturn(v.clone()),
        }
    }
}

/// The names the simple effect calls.
pub open spec fn simple_calls(e: SimpleV) -> Set<Seq<char>> {
    match e {
        SimpleV::CallFunction(name, _) => Set::empty().insert(name),
        _ => Set::empty(),
    }
}

/// The names of the functions an effect calls.
pub open spec fn effect_calls(e: EffectV) -> Set<Seq<char>> {
    match e {
        EffectV::Evaluate(inner) => simple_calls(inner),
        EffectV::CreateVariable(_, inner) => simple_calls(inner),
        _ => Set::empty(),
    }
}

/// Whether the effect returns from the enclosing function.
pub open spec fn spec_is_return(e: Effects) -> bool {
    e is CodeReturn
}

impl Effects {
    /// Whether this effect returns from the enclosing function.
    pub fn is_return(&self) -> (r: bool)
        ensures
            r == spec_is_return(*self),
    {
        match self {
            Effects::CodeReturn(_) => true,
            _ => false,
        }
    }
}

/// One statement: an effect to perform.
#[derive(Debug)]
pub struct Expression {
    pub effect: Effects,
}

/// A function body: its statements in order.
#[derive(Debug)]
pub struct CodeBody {
    pub expressions: Vec<Expression>,
}

/// The mathematical values of a statement list.
pub open spec fn code_view_of(exprs: Seq<Expression>) -> Seq<EffectV> {
    exprs.map_values(|x: Expression| x.effect@)
}

/// The mathematical value of a body: its effects in order.
pub open spec fn code_view(c: CodeBody) -> Seq<EffectV> {
    code_view_of(c.expressions@)
}

impl CodeBody {
    /// A copy with the same mathematical value.
    pub fn duplicate(&self) -> (r: CodeBody)
        ensures
            code_view(r) == code_view(*self),
    {
        let mut expressions: Vec<Expression> = Vec::new();
        let mut i: usize = 0;
        while i < self.expressions.len()
            invariant
                i <= self.expressions@.len(),
                expressions@.len() == i,
                forall|j: int|
                    0 <= j < i ==> (#[trigger] expressions@[j]).effect@
                        == self.expressions@[j].effect@,
            decreases self.expressions@.len() - i,
        {
            expressions.push(Expression { effect: self.expressions[i].effect.duplicate() });
            i += 1;
        }
        let r = CodeBody { expressions };
        proof {
            assert(code_view(r) =~= code_view(*self));
        }
        r
    }
}

/// The names of the functions called by the first `k` effects.
pub open spec fn calls_upto(exprs: Seq<EffectV>, k: int) -> Set<Seq<char>>
    decreases k,
{
    if k <= 0 {
        Set::empty()
    } else {
        calls_upto(exprs, k - 1).union(effect_calls(exprs[k - 1]))
    }
}

/// The names of the functions a body calls.
pub open spec fn body_calls(code: Seq<EffectV>) -> Set<Seq<char>> {
    calls_upto(code, code.len() as int)
}

/// What the effect at `j` calls, the whole body calls.
pub proof fn lemma_calls_upto_monotonic(exprs: Seq<EffectV>, j: int, k: int)
    requires
        0 <= j < k,
    ensures
        effect_calls(exprs[j]).subset_of(calls_upto(exprs, k)),
    decreases k,
{
    if j < k - 1 {
        lemma_calls_upto_monotonic(exprs, j, k - 1);
    }
}

/// The decimal digit character for `d`.
pub open spec fn spec_digit(d: u64) -> char {
    ((48 + d) as u8) as char
}

/// The decimal rendering of `n`, most significant digit first.
pub open spec fn spec_dec(n: u64) -> Seq<char>
    decreases n,
{
    if n < 10 {
        seq![spec_digit(n)]
    } else {
        spec_dec(n / 10).push(spec_digit(n % 10))
    }
}

/// The one-character string for the decimal digit `d`.
fn digit_str(d: u64) -> (r: &'static str)
    requires
        d < 10,
    ensures
        r@ == seq![spec_digit(d)],
{
    proof {
        reveal_strlit("0");
        reveal_strlit("1");
        reveal_strlit("2");
        reveal_strlit("3");
        reveal_strlit("4");
        reveal_strlit("5");
        reveal_strlit("6");
        reveal_strlit("7");
        reveal_strlit("8");
        reveal_strlit("9");
    }
    match d {
        0 => "0",
        1 => "1",
        2 => "2",
        3 => "3",
        4 => "4",
        5 => "5",
        6 => "6",
        7 => "7",
        8 => "8",
        _ => "9",
    }
}

/// Renders `n` in decimal.
pub fn format_number(n: u64) -> (r: String)
    ensures
        r@ == spec_dec(n),
    decreases n,
{
    if n < 10 {
        digit_str(n).to_owned()
    } else {
        let mut s = format_number(n / 10);
        s.append(digit_str(n % 10));
        proof {
            assert(s@ =~= spec_dec(n));
        }
        s
    }
}

/// The rendering of call arguments from position `k` on, comma-separated.
pub open spec fn spec_args_fmt(args: Seq<Seq<char>>, k: int) -> Seq<char>
    decreases args.len() - k,
{
    if k < 0 || k >= args.len() {
        Seq::empty()
    } else if k == args.len() - 1 {
        args[k]
    } else {
        args[k] + ", "@ + spec_args_fmt(args, k + 1)
    }
}

/// The rendering of a simple effect: a literal in decimal, a variable by
/// name, a call as its name around its comma-separated arguments.
pub open spec fn spec_simple_fmt(e: SimpleV) -> Seq<char> {
    match e {
        SimpleV::Number(n) => spec_dec(n),
        SimpleV::LoadVariable(v) => v,
        SimpleV::CallFunction(name, args) => name + "("@ + spec_args_fmt(args, 0) + ")"@,
    }
}

/// Renders the arguments from position `k` on.
fn format_args(args: &Vec<String>, k: usize) -> (r: String)
    ensures
        r@ == spec_args_fmt(strs_of(args@), k as int),
    decreases args@.len() - k,
{
    proof {
        assert(strs_of(args@).len() == args@.len());
    }
    if k >= args.len() {
        String::new()
    } else if k == args.len() - 1 {
        proof {
            assert(strs_of(args@)[k as int] == args@[k as int]@);
        }
        args[k].clone()
    } else {
        proof {
            assert(strs_of(args@)[k as int] == args@[k as int]@);
        }
        let mut s = args[k].clone();
        s.append(", ");
        let rest = format_args(args, k + 1);
        s.append(rest.as_str());
        s
    }
}

impl SimpleEffect {
    /// Renders this effect.
    pub fn format(&self) -> (r: String)
        ensures
            r@ == spec_simple_fmt(self@),
    {
        match self {
            SimpleEffect::Number(n) => format_number(*n),
            SimpleEffect::LoadVariable(v) => v.clone(),
            SimpleEffect::CallFunction(name, args) => {
                let mut s = name.clone();
                s.append("(");
                let rendered = format_args(args, 0);
                s.append(rendered.as_str());
                s.append(")");
                s
            },
        }
    }
}

/// The rendering of an effect.
pub open spec fn spec_effect_fmt(e: EffectV) -> Seq<char> {
    match e {
        EffectV::NOP => Seq::empty(),
        EffectV::Evaluate(inner) => spec_simple_fmt(inner),
        EffectV::CreateVariable(v, inner) => v + " = "@ + spec_simple_fmt(inner),
        EffectV::CodeReturn(v) => "return "@ + v,
    }
}

impl Effects {
    /// Renders this effect.
    pub fn format(&self) -> (r: String)
        ensures
            r@ == spec_effect_fmt(self@),
    {
        match self {
            Effects::NOP => String::new(),
            Effects::Evaluate(inner) => inner.format(),
            Effects::CreateVariable(v, inner) => {
                let mut s = v.clone();
                s.append(" = ");
                let rendered = inner.format();
                s.append(rendered.as_str());
                s
            },
            Effects::CodeReturn(v) => {
                let mut s = "return ".to_owned();
                s.append(v.as_str());
                s
            },
        }
    }
}

/// The rendering of a body's statements from position `k` on, one per
/// line, each under the given indent.
pub open spec fn spec_body_fmt(exprs: Seq<EffectV>, indent: Seq<char>, k: int) -> Seq<char>
    decreases exprs.len() - k,
{
    if k < 0 || k >= exprs.len() {
        Seq::empty()
    } else {
        indent + spec_effect_fmt(exprs[k]) + "\n"@ + spec_body_fmt(exprs, indent, k + 1)
    }
}

/// Renders the statements from position `k` on.
fn format_body(exprs: &Vec<Expression>, indent: &str, k: usize) -> (r: String)
    ensures
        r@ == spec_body_fmt(code_view_of(exprs@), indent@, k as int),
    decreases exprs@.len() - k,
{
    proof {
        assert(code_view_of(exprs@).len() == exprs@.len());
    }
    if k >= exprs.len() {
        String::new()
    } else {
        proof {
            assert(code_view_of(exprs@)[k as int] == exprs@[k as int].effect@);
        }
        let mut s = indent.to_owned();
        let rendered = exprs[k].effect.format();
        s.append(rendered.as_str());
        s.append("\n");
        let rest = format_body(exprs, indent, k + 1);
        s.append(rest.as_str());
        s
    }
}

impl CodeBody {
    /// Renders this body, one statement per line under the given indent.
    pub fn format(&self, indent: &str) -> (r: String)
        ensures
            r@ == spec_body_fmt(code_view(*self), indent@, 0),
    {
        format_body(&self.expressions, indent, 0)
    }
}

/// A `for` loop over the values an effect produces.
#[derive(Debug)]
pub struct ForStatement {
    /// The loop variable's name.
    pub variable: String,
    /// What is iterated over.
    pub effect: Effects,
    /// The loop body.
    pub code_block: CodeBody,
}

impl ForStatement {
    /// Renders this loop: its head, then its body one statement per line,
    /// indented one step deeper than the given indent.
    pub fn format(&self, indent: &str) -> (r: String)
        ensures
            r@ == "for "@ + self.variable@ + " in "@ + spec_effect_fmt(self.effect@) + " "@
                + spec_body_fmt(code_view(self.code_block), indent@ + "    "@, 0),
    {
        let mut deeper = indent.to_owned();
        deeper.append("    ");
        let mut s = "for ".to_owned();
        s.append(self.variable.as_str());
        s.append(" in ");
        let effect = self.effect.format();
        s.append(effect.as_str());
        s.append(" ");
        let block = self.code_block.format(deeper.as_str());
        s.append(block.as_str());
        s
    }

    /// Whether some statement of the loop body returns from the enclosing
    /// function.
    pub fn is_return(&self) -> (r: bool)
        ensures
            r == exists|i: int|
                0 <= i < self.code_block.expressions@.len() && spec_is_return(
                    (#[trigger] self.code_block.expressions@[i]).effect,
                ),
    {
        let mut i: usize = 0;
        while i < self.code_block.expressions.len()
            invariant
                i <= self.code_block.expressions@.len(),
                forall|j: int|
                    0 <= j < i ==> !spec_is_return(
                        (#[trigger] self.code_block.expressions@[j]).effect,
                    ),
            decreases self.code_block.expressions@.len() - i,
        {
            if self.code_block.expressions[i].effect.is_return() {
                return true;
            }
            i += 1;
        }
        false
    }
}

} // verus!

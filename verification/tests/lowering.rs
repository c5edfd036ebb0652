use lang_core::backend::BinOp;
use lang_core::backend::FunctionValue;
use lang_core::backend::Intrinsic;
use lang_core::backend::compile_internal;
use lang_core::backend::intrinsic_of_name;
use lang_core::backend::str_ends_with;
use lang_core::backend::str_starts_with;
use lang_core::blocks::CodeBody;
use lang_core::blocks::Effects;
use lang_core::blocks::Expression;
use lang_core::blocks::ForStatement;
use lang_core::blocks::SimpleEffect;
use lang_core::machine::Machine;
use lang_core::machine::eval_binop;
use lang_core::machine::run_function;
use lang_core::resolver::ImportNameResolver;
use lang_core::resolver::UnparsedType;

fn empty_function(name: &str, params: usize) -> FunctionValue {
    FunctionValue {
        name: name.to_string(),
        params,
        instructions: Vec::new(),
        body_done: false,
    }
}

#[test]
fn add_intrinsic_boxes_the_sum() {
    let mut function = empty_function("math::Add$i64", 2);
    compile_internal(&mut function, Intrinsic::Add);
    assert!(function.body_done);
    // Two boxes holding 3 and 4; the parameters are their addresses.
    let mut machine = Machine::new();
    machine.heap.push(3);
    machine.heap.push(4);
    let result = run_function(&function, &vec![0, 1], &mut machine).unwrap();
    // A freshly allocated box, not either operand box.
    assert_eq!(result, 2);
    assert_eq!(machine.heap, vec![3, 4, 7]);
}

#[test]
fn subtract_and_multiply_lower_like_add() {
    let mut sub = empty_function("math::Subtract$i64", 2);
    compile_internal(&mut sub, Intrinsic::Subtract);
    let mut machine = Machine::new();
    machine.heap.push(10);
    machine.heap.push(4);
    let r = run_function(&sub, &vec![0, 1], &mut machine).unwrap();
    assert_eq!(machine.heap[r as usize], 6);

    let mut mul = empty_function("math::Multiply$i64", 2);
    compile_internal(&mut mul, Intrinsic::Multiply);
    let mut machine2 = Machine::new();
    machine2.heap.push(6);
    machine2.heap.push(7);
    let r2 = run_function(&mul, &vec![0, 1], &mut machine2).unwrap();
    assert_eq!(machine2.heap[r2 as usize], 42);
}

#[test]
fn empty_array_writes_a_zero_length_header() {
    let mut function = empty_function("array::Empty$i64", 1);
    compile_internal(&mut function, Intrinsic::ArrayEmpty);
    let mut machine = Machine::new();
    machine.heap.push(0);
    let array = run_function(&function, &vec![0], &mut machine).unwrap();
    assert_eq!(array, 1);
    // One fresh word holding the zero length header.
    assert_eq!(machine.heap, vec![0, 0]);
}

#[test]
fn array_index_skips_the_length_header_word() {
    // An array at address 0: header word, then its first element.
    let mut machine = Machine::new();
    machine.heap.push(1);
    machine.heap.push(42);
    // A box at address 2 holding the index 0.
    machine.heap.push(0);
    let mut function = empty_function("array::Index$i64", 2);
    compile_internal(&mut function, Intrinsic::ArrayIndex);
    let element = run_function(&function, &vec![0, 2], &mut machine).unwrap();
    // Index 0 reads the slot one word past the header.
    assert_eq!(element, 42);
}

#[test]
fn cast_reloads_the_operand_box() {
    let mut function = empty_function("numbers::Cast$i64$i32", 1);
    compile_internal(&mut function, Intrinsic::Cast);
    let mut machine = Machine::new();
    machine.heap.push(99);
    let r = run_function(&function, &vec![0], &mut machine).unwrap();
    assert_eq!(r, 99);
}

#[test]
fn equality_and_negation_box_flags() {
    let mut eq = empty_function("math::Equal$i64", 2);
    compile_internal(&mut eq, Intrinsic::Equal);
    let mut machine = Machine::new();
    machine.heap.push(5);
    machine.heap.push(5);
    let r = run_function(&eq, &vec![0, 1], &mut machine).unwrap();
    assert_eq!(machine.heap[r as usize], 1);

    let mut not = empty_function("math::Not$bool", 1);
    compile_internal(&mut not, Intrinsic::Not);
    let mut machine2 = Machine::new();
    machine2.heap.push(1);
    let r2 = run_function(&not, &vec![0], &mut machine2).unwrap();
    assert_eq!(machine2.heap[r2 as usize], 0);
}

#[test]
fn bitwise_operations_lower_and_run() {
    let mut xor = empty_function("math::BitXOR$u64", 2);
    compile_internal(&mut xor, Intrinsic::BitXor);
    let mut machine = Machine::new();
    machine.heap.push(0b1100);
    machine.heap.push(0b1010);
    let r = run_function(&xor, &vec![0, 1], &mut machine).unwrap();
    assert_eq!(machine.heap[r as usize], 0b0110);
}

#[test]
fn name_prefixes_pick_the_catalogue_operation() {
    assert_eq!(intrinsic_of_name("math::Add$i64"), Some(Intrinsic::Add));
    assert_eq!(intrinsic_of_name("math::Subtract$u32"), Some(Intrinsic::Subtract));
    assert_eq!(intrinsic_of_name("math::Divide$u64"), Some(Intrinsic::DivideUnsigned));
    assert_eq!(intrinsic_of_name("math::Divide$i64"), Some(Intrinsic::DivideSigned));
    assert_eq!(intrinsic_of_name("math::Remainder$u64"), Some(Intrinsic::RemainderUnsigned));
    assert_eq!(intrinsic_of_name("math::Remainder$i16"), Some(Intrinsic::RemainderSigned));
    assert_eq!(intrinsic_of_name("numbers::Cast$i64$i32"), Some(Intrinsic::Cast));
    assert_eq!(intrinsic_of_name("array::Index$i64"), Some(Intrinsic::ArrayIndex));
    assert_eq!(intrinsic_of_name("array::Empty$i64"), Some(Intrinsic::ArrayEmpty));
    assert_eq!(intrinsic_of_name("math::Not$bool"), Some(Intrinsic::Not));
    assert_eq!(intrinsic_of_name("math::BitXOR$u64"), Some(Intrinsic::BitXor));
    assert_eq!(intrinsic_of_name("math::BitOr$u64"), Some(Intrinsic::BitOr));
    assert_eq!(intrinsic_of_name("math::BitAnd$u64"), Some(Intrinsic::BitAnd));
    assert_eq!(intrinsic_of_name("main::main"), None);
    assert_eq!(intrinsic_of_name("math::Unknown"), None);
}

#[test]
fn prefix_and_suffix_tests_count_characters() {
    assert!(str_starts_with("math::Add$i64", "math::Add"));
    assert!(!str_starts_with("math::Add", "math::Add$i64"));
    assert!(!str_starts_with("math::Sub", "math::Add"));
    assert!(str_ends_with("math::Divide$u64", "u64"));
    assert!(!str_ends_with("math::Divide$i64", "u64"));
    assert!(str_ends_with("u64", "u64"));
    assert!(!str_ends_with("64", "u64"));
}

#[test]
fn signed_division_truncates_toward_zero() {
    let minus_seven = (-7i64) as u64;
    let minus_three = (-3i64) as u64;
    assert_eq!(eval_binop(BinOp::DivideSigned, minus_seven, 2), Some(minus_three));
    let minus_one = (-1i64) as u64;
    assert_eq!(eval_binop(BinOp::DivideSigned, 7, minus_seven), Some(minus_one));
    assert_eq!(eval_binop(BinOp::RemainderSigned, minus_seven, 2), Some(minus_one));
    assert_eq!(eval_binop(BinOp::DivideSigned, minus_seven, 0), None);
    assert_eq!(eval_binop(BinOp::DivideSigned, i64::MIN as u64, minus_one), None);
    assert_eq!(eval_binop(BinOp::DivideUnsigned, 7, 2), Some(3));
    assert_eq!(eval_binop(BinOp::RemainderUnsigned, 7, 2), Some(1));
    assert_eq!(eval_binop(BinOp::RemainderUnsigned, 7, 0), None);
}

#[test]
fn wrapping_arithmetic_wraps() {
    assert_eq!(eval_binop(BinOp::Add, u64::MAX, 1), Some(0));
    assert_eq!(eval_binop(BinOp::Subtract, 0, 1), Some(u64::MAX));
    assert_eq!(eval_binop(BinOp::Multiply, 1 << 63, 2), Some(0));
    assert_eq!(eval_binop(BinOp::Equal, 3, 4), Some(0));
    assert_eq!(eval_binop(BinOp::BitOr, 0b100, 0b001), Some(0b101));
    assert_eq!(eval_binop(BinOp::BitAnd, 0b110, 0b011), Some(0b010));
}

#[test]
fn for_statement_reports_a_returning_body() {
    let returning = ForStatement {
        variable: "x".to_string(),
        effect: Effects::NOP,
        code_block: CodeBody {
            expressions: vec![
                Expression { effect: Effects::NOP },
                Expression { effect: Effects::CodeReturn("x".to_string()) },
            ],
        },
    };
    assert!(returning.is_return());
    let plain = ForStatement {
        variable: "x".to_string(),
        effect: Effects::NOP,
        code_block: CodeBody {
            expressions: vec![Expression {
                effect: Effects::Evaluate(SimpleEffect::Number(1)),
            }],
        },
    };
    assert!(!plain.is_return());
}

#[test]
fn numbers_render_in_decimal() {
    assert_eq!(lang_core::blocks::format_number(0), "0");
    assert_eq!(lang_core::blocks::format_number(7), "7");
    assert_eq!(lang_core::blocks::format_number(42), "42");
    assert_eq!(lang_core::blocks::format_number(1234567890), "1234567890");
    assert_eq!(lang_core::blocks::format_number(u64::MAX), "18446744073709551615");
}

#[test]
fn effects_render_readably() {
    let call = SimpleEffect::CallFunction(
        "math::Add".to_string(),
        vec!["a".to_string(), "b".to_string()],
    );
    assert_eq!(call.format(), "math::Add(a, b)");
    assert_eq!(SimpleEffect::Number(9).format(), "9");
    assert_eq!(
        Effects::CreateVariable("x".to_string(), SimpleEffect::Number(1)).format(),
        "x = 1"
    );
    assert_eq!(Effects::CodeReturn("x".to_string()).format(), "return x");
}

#[test]
fn for_statement_renders_with_indented_body() {
    let statement = ForStatement {
        variable: "x".to_string(),
        effect: Effects::Evaluate(SimpleEffect::LoadVariable("items".to_string())),
        code_block: CodeBody {
            expressions: vec![Expression {
                effect: Effects::CreateVariable("y".to_string(), SimpleEffect::Number(7)),
            }],
        },
    };
    assert_eq!(statement.format(""), "for x in items     y = 7\n");
}

#[test]
fn import_resolver_starts_with_its_module() {
    let resolver = ImportNameResolver::new("my::module".to_string());
    assert_eq!(resolver.imports().len(), 1);
    assert_eq!(resolver.imports()[0], "my::module");
    assert!(resolver.parent.is_none());
    assert_eq!(resolver.last_id, 0);
    assert!(resolver.generic(&"T".to_string()).is_none());
    assert_eq!(resolver.generics().len(), 0);
}

#[test]
fn import_resolver_finds_generics_in_scope() {
    let mut resolver = ImportNameResolver::new("m".to_string());
    resolver
        .generics
        .push(("T".to_string(), vec![UnparsedType::Basic("Display".to_string())]));
    let bounds = resolver.generic(&"T".to_string()).unwrap();
    assert_eq!(bounds.len(), 1);
    match &bounds[0] {
        UnparsedType::Basic(name) => assert_eq!(name, "Display"),
        _ => panic!("expected a plain bound"),
    }
    assert!(resolver.generic(&"U".to_string()).is_none());
}

use lang_core::backend::CompilerImpl;
use lang_core::blocks::CodeBody;
use lang_core::blocks::Effects;
use lang_core::blocks::Expression;
use lang_core::blocks::SimpleEffect;
use lang_core::directory::AsyncGetter;
use lang_core::errors::CompileError;
use lang_core::errors::ParsingError;
use lang_core::function::FinalizedFunction;
use lang_core::function::FunctionData;
use lang_core::generics::GenericsEngine;
use lang_core::solver::Implementation;
use lang_core::structure::FinalizedMemberField;
use lang_core::structure::FinalizedStruct;
use lang_core::structure::GenericParam;
use lang_core::structure::StructData;
use lang_core::structure::get_internal;
use lang_core::syntax::Syntax;
use lang_core::type_getter::CompilerTypeGetter;
use lang_core::types::FinalizedTypes;
use lang_core::types::TypeRef;
use lang_core::vtable_manager::VTableManager;

fn plain_struct(syntax: &mut Syntax, name: &str) -> StructData {
    StructData::new(Vec::new(), 0, name.to_string(), &mut syntax.ids)
}

fn ground(syntax: &Syntax, name: &str) -> FinalizedTypes {
    let data = get_internal(&syntax.internals, &name.to_string());
    FinalizedTypes::Struct(TypeRef { id: data.id, name: data.name.clone() })
}

fn simple_function(syntax: &mut Syntax, name: &str, effects: Vec<Effects>) -> FinalizedFunction {
    let data = FunctionData {
        modifiers: 0,
        id: {
            syntax.ids.last += 1;
            syntax.ids.last
        },
        name: name.to_string(),
        attributes: Vec::new(),
        poisoned: Vec::new(),
    };
    let expressions = effects.into_iter().map(|effect| Expression { effect }).collect();
    FinalizedFunction {
        generics: Vec::new(),
        fields: Vec::new(),
        return_type: None,
        code: CodeBody { expressions },
        intrinsic: None,
        data,
    }
}

fn fresh_driver(syntax: Syntax) -> CompilerTypeGetter {
    CompilerTypeGetter::new(CompilerImpl { functions: Vec::new(), globals: Vec::new() }, syntax)
}

#[test]
fn forward_reference_resolves_like_backward() {
    // Definition after the reference.
    let mut forward = AsyncGetter::new();
    assert!(!forward.resolve(&"B".to_string(), 1));
    let mut s1 = Syntax::new();
    let data1 = plain_struct(&mut s1, "B");
    let woken = forward.finalize("B".to_string(), FinalizedStruct::empty_of(data1));
    assert_eq!(woken, vec![1]);
    let found_forward = forward.get_finalized(&"B".to_string()).unwrap().data.name.clone();

    // Definition before the reference.
    let mut backward = AsyncGetter::new();
    let mut s2 = Syntax::new();
    let data2 = plain_struct(&mut s2, "B");
    let woken2 = backward.finalize("B".to_string(), FinalizedStruct::empty_of(data2));
    assert_eq!(woken2.len(), 0);
    assert!(backward.resolve(&"B".to_string(), 1));
    let found_backward = backward.get_finalized(&"B".to_string()).unwrap().data.name.clone();

    assert_eq!(found_forward, found_backward);
}

#[test]
fn finalize_wakes_every_waiter_once() {
    let mut getter = AsyncGetter::new();
    assert!(!getter.resolve(&"A".to_string(), 10));
    assert!(!getter.resolve(&"A".to_string(), 11));
    assert!(!getter.resolve(&"other".to_string(), 12));
    let mut syntax = Syntax::new();
    let data = plain_struct(&mut syntax, "A");
    let woken = getter.finalize("A".to_string(), FinalizedStruct::empty_of(data));
    assert_eq!(woken, vec![10, 11]);
    // The unrelated waiter is untouched.
    assert_eq!(getter.wakers.len(), 1);
    assert_eq!(getter.wakers[0].1, 12);
}

#[test]
fn session_completion_reports_missing_symbols() {
    let mut getter = AsyncGetter::new();
    assert!(!getter.resolve(&"missing".to_string(), 7));
    let unresolved = getter.complete_session();
    assert_eq!(unresolved.len(), 1);
    assert_eq!(unresolved[0].0, 7);
    match &unresolved[0].1 {
        CompileError::SymbolNotFound { name } => assert_eq!(name, "missing"),
        _ => panic!("expected a missing-symbol error"),
    }
    assert_eq!(getter.wakers.len(), 0);
}

#[test]
fn registered_but_unfinalized_resolves_immediately() {
    let mut getter = AsyncGetter::new();
    let mut syntax = Syntax::new();
    let data = plain_struct(&mut syntax, "Early");
    getter.register("Early".to_string(), data);
    assert!(getter.resolve(&"Early".to_string(), 3));
    assert!(getter.get_unfinalized(&"Early".to_string()).is_some());
    assert!(getter.get_finalized(&"Early".to_string()).is_none());
}

fn wrapper_definition(syntax: &mut Syntax, bounds: Vec<TypeRef>) -> FinalizedStruct {
    let data = plain_struct(syntax, "Wrapper");
    FinalizedStruct {
        generics: vec![GenericParam { name: "T".to_string(), bounds }],
        fields: vec![FinalizedMemberField {
            modifiers: 0,
            name: "value".to_string(),
            field_type: FinalizedTypes::Generic("T".to_string(), Vec::new()),
        }],
        data,
    }
}

#[test]
fn specialization_is_cached_and_solver_runs_once() {
    let mut syntax = Syntax::new();
    let definition = wrapper_definition(&mut syntax, Vec::new());
    let arg = ground(&syntax, "i32");
    let mut engine = GenericsEngine::new();
    let first = engine
        .specialize(&definition, &vec![arg], &syntax.implementations, &mut syntax.ids)
        .unwrap();
    let arg_again = ground(&syntax, "i32");
    let second = engine
        .specialize(&definition, &vec![arg_again], &syntax.implementations, &mut syntax.ids)
        .unwrap();
    assert_eq!(first, second);
    assert_eq!(engine.cache.len(), 1);
    assert_eq!(engine.solver_runs, 1);
    // The cached value is ground: the field now holds the concrete type.
    match &engine.cache[first].value.fields[0].field_type {
        FinalizedTypes::Struct(tref) => assert_eq!(tref.name, "i32"),
        _ => panic!("expected a concrete field type"),
    }
    // The specialization is a distinct definition from its skeleton.
    assert_ne!(engine.cache[first].value.data.id, definition.data.id);
    assert_eq!(engine.cache[first].value.data.name, definition.data.name);
}

#[test]
fn distinct_arguments_get_distinct_specializations() {
    let mut syntax = Syntax::new();
    let definition = wrapper_definition(&mut syntax, Vec::new());
    let mut engine = GenericsEngine::new();
    let a = engine
        .specialize(&definition, &vec![ground(&syntax, "i32")], &syntax.implementations, &mut syntax.ids)
        .unwrap();
    let b = engine
        .specialize(&definition, &vec![ground(&syntax, "u64")], &syntax.implementations, &mut syntax.ids)
        .unwrap();
    assert_ne!(a, b);
    assert_eq!(engine.cache.len(), 2);
    assert_eq!(engine.solver_runs, 2);
}

#[test]
fn unsatisfied_bound_fails_and_caches_nothing() {
    let mut syntax = Syntax::new();
    let display = StructData::new(
        Vec::new(),
        lang_core::structure::MODIFIER_TRAIT,
        "Display".to_string(),
        &mut syntax.ids,
    );
    let bound = TypeRef { id: display.id, name: display.name.clone() };
    let definition = wrapper_definition(&mut syntax, vec![bound]);
    let mut engine = GenericsEngine::new();
    let err = engine
        .specialize(&definition, &vec![ground(&syntax, "i32")], &syntax.implementations, &mut syntax.ids)
        .unwrap_err();
    assert_eq!(err.parameter, "T");
    assert_eq!(err.required_trait, "Display");
    assert_eq!(err.actual_type, "i32");
    assert_eq!(engine.cache.len(), 0);
    assert_eq!(engine.solver_runs, 1);

    // Once the implementation relation knows i32: Display, the same request
    // succeeds.
    let i32_id = get_internal(&syntax.internals, &"i32".to_string()).id;
    syntax.add_implementation(Implementation {
        struct_id: i32_id,
        trait_id: display.id,
        methods: Vec::new(),
    });
    let ok = engine.specialize(
        &definition,
        &vec![ground(&syntax, "i32")],
        &syntax.implementations,
        &mut syntax.ids,
    );
    assert!(ok.is_ok());
    assert_eq!(engine.cache.len(), 1);
}

#[test]
fn missing_entry_point_fails_compilation() {
    let syntax = Syntax::new();
    let mut driver = fresh_driver(syntax);
    match driver.compile() {
        Err(errors) => {
            assert_eq!(errors.len(), 1);
            assert!(matches!(errors[0], CompileError::NoEntryPoint));
        },
        _ => panic!("expected the missing-entry-point error"),
    }
}

#[test]
fn unreachable_functions_are_never_emitted() {
    let mut syntax = Syntax::new();
    let main = simple_function(
        &mut syntax,
        "main::main",
        vec![Effects::Evaluate(SimpleEffect::CallFunction("used".to_string(), Vec::new()))],
    );
    let used = simple_function(&mut syntax, "used", vec![Effects::NOP]);
    let unused = simple_function(&mut syntax, "unused", vec![Effects::NOP]);
    syntax.add_function("main::main".to_string(), main);
    syntax.add_function("used".to_string(), used);
    syntax.add_function("unused".to_string(), unused);
    let mut driver = fresh_driver(syntax);
    let main_index = driver.compile().unwrap();
    assert_eq!(driver.compiler.functions[main_index].name, "main::main");
    let names: Vec<String> =
        driver.compiler.functions.iter().map(|f| f.name.clone()).collect();
    assert!(names.contains(&"used".to_string()));
    assert!(!names.contains(&"unused".to_string()));
    assert_eq!(driver.compiling.len(), 0);
    assert!(driver.compiler.functions.iter().all(|f| f.body_done));
}

#[test]
fn transitive_callees_are_emitted_in_demand_order() {
    let mut syntax = Syntax::new();
    let main = simple_function(
        &mut syntax,
        "main::main",
        vec![
            Effects::Evaluate(SimpleEffect::CallFunction("first".to_string(), Vec::new())),
            Effects::Evaluate(SimpleEffect::CallFunction("second".to_string(), Vec::new())),
        ],
    );
    let first = simple_function(
        &mut syntax,
        "first",
        vec![Effects::Evaluate(SimpleEffect::CallFunction("third".to_string(), Vec::new()))],
    );
    let second = simple_function(&mut syntax, "second", vec![Effects::NOP]);
    let third = simple_function(&mut syntax, "third", vec![Effects::NOP]);
    syntax.add_function("main::main".to_string(), main);
    syntax.add_function("first".to_string(), first);
    syntax.add_function("second".to_string(), second);
    syntax.add_function("third".to_string(), third);
    let mut driver = fresh_driver(syntax);
    driver.compile().unwrap();
    let names: Vec<String> =
        driver.compiler.functions.iter().map(|f| f.name.clone()).collect();
    // FIFO demand: main, then its callees in statement order, then theirs.
    assert_eq!(names, vec!["main::main", "first", "second", "third"]);
}

#[test]
fn lowered_main_body_runs_on_the_machine() {
    let mut syntax = Syntax::new();
    let main = simple_function(
        &mut syntax,
        "main::main",
        vec![
            Effects::CreateVariable("x".to_string(), SimpleEffect::Number(41)),
            Effects::CodeReturn("x".to_string()),
        ],
    );
    syntax.add_function("main::main".to_string(), main);
    let mut driver = fresh_driver(syntax);
    let main_index = driver.compile().unwrap();
    let mut machine = lang_core::machine::Machine::new();
    let result = lang_core::machine::run_function(
        &driver.compiler.functions[main_index],
        &Vec::new(),
        &mut machine,
    )
    .unwrap();
    // The returned value is the box holding the literal.
    assert_eq!(machine.heap[result as usize], 41);
}

#[test]
fn for_function_binds_parameters_to_slots() {
    let mut syntax = Syntax::new();
    let mut f = simple_function(&mut syntax, "callee", vec![Effects::NOP]);
    f.fields.push(FinalizedMemberField {
        modifiers: 0,
        name: "left".to_string(),
        field_type: ground(&syntax, "i64"),
    });
    f.fields.push(FinalizedMemberField {
        modifiers: 0,
        name: "right".to_string(),
        field_type: ground(&syntax, "i64"),
    });
    let mut driver = fresh_driver(Syntax::new());
    driver.for_function(&f);
    assert_eq!(driver.variables.len(), 2);
    assert_eq!(driver.variables[0], ("left".to_string(), 0));
    assert_eq!(driver.variables[1], ("right".to_string(), 1));
}

#[test]
fn get_type_maps_references_to_pointers() {
    let syntax = Syntax::new();
    let value = ground(&syntax, "i64");
    let reference = lang_core::types::FinalizedTypes::Reference(Box::new(ground(&syntax, "i64")));
    let driver = fresh_driver(syntax);
    let i64_id = match &value {
        FinalizedTypes::Struct(tref) => tref.id,
        _ => unreachable!(),
    };
    assert_eq!(driver.get_type(&value), lang_core::type_getter::BasicTypeKind::Value(i64_id));
    assert_eq!(
        driver.get_type(&reference),
        lang_core::type_getter::BasicTypeKind::Pointer(i64_id)
    );
}

#[test]
fn poisoned_definition_aborts_compilation() {
    let mut syntax = Syntax::new();
    let mut main = simple_function(&mut syntax, "main::main", vec![Effects::NOP]);
    main.data.poisoned.push(ParsingError::new((1, 2), 3, (4, 5), 6, "broken".to_string()));
    syntax.add_function("main::main".to_string(), main);
    let mut driver = fresh_driver(syntax);
    match driver.compile() {
        Err(errors) => match &errors[0] {
            CompileError::Poisoned { errors: accumulated } => {
                assert_eq!(accumulated.len(), 1);
                assert_eq!(accumulated[0].message, "broken");
            },
            _ => panic!("expected the poison to propagate"),
        },
        _ => panic!("expected the poison to propagate"),
    }
}

#[test]
fn unknown_callee_is_a_resolution_error() {
    let mut syntax = Syntax::new();
    let main = simple_function(
        &mut syntax,
        "main::main",
        vec![Effects::Evaluate(SimpleEffect::CallFunction("ghost".to_string(), Vec::new()))],
    );
    syntax.add_function("main::main".to_string(), main);
    let mut driver = fresh_driver(syntax);
    match driver.compile() {
        Err(errors) => match &errors[0] {
            CompileError::SymbolNotFound { name } => assert_eq!(name, "ghost"),
            _ => panic!("expected a missing-symbol error"),
        },
        _ => panic!("expected a missing-symbol error"),
    }
}

fn dispatch_session() -> (Syntax, StructData, StructData) {
    let mut syntax = Syntax::new();
    let shape = plain_struct(&mut syntax, "Shape");
    let area = StructData::new(
        Vec::new(),
        lang_core::structure::MODIFIER_TRAIT,
        "Area".to_string(),
        &mut syntax.ids,
    );
    let main = simple_function(
        &mut syntax,
        "main::main",
        vec![
            Effects::Evaluate(SimpleEffect::CallFunction("f1".to_string(), Vec::new())),
            Effects::Evaluate(SimpleEffect::CallFunction("f2".to_string(), Vec::new())),
        ],
    );
    let f1 = simple_function(&mut syntax, "f1", vec![Effects::NOP]);
    let f2 = simple_function(&mut syntax, "f2", vec![Effects::NOP]);
    syntax.add_function("main::main".to_string(), main);
    syntax.add_function("f1".to_string(), f1);
    syntax.add_function("f2".to_string(), f2);
    syntax.add_trait_methods(area.id, vec!["m1".to_string(), "m2".to_string()]);
    // The implementation declares its methods in the opposite order.
    syntax.add_implementation(Implementation {
        struct_id: shape.id,
        trait_id: area.id,
        methods: vec![
            ("m2".to_string(), "f2".to_string()),
            ("m1".to_string(), "f1".to_string()),
        ],
    });
    (syntax, shape, area)
}

#[test]
fn vtable_entries_follow_trait_declaration_order() {
    let (syntax, shape, area) = dispatch_session();
    let shape_type = FinalizedTypes::Struct(TypeRef { id: shape.id, name: shape.name.clone() });
    let area_type = FinalizedTypes::Struct(TypeRef { id: area.id, name: area.name.clone() });
    let mut driver = fresh_driver(syntax);
    driver.compile().unwrap();
    let mut vtables = VTableManager::new();
    let global = vtables.get_vtable(&mut driver, &shape_type, &area_type).unwrap();
    let entries = &driver.compiler.globals[global].entries;
    assert_eq!(entries.len(), 2);
    // Trait order [m1, m2], not the order the implementation stored.
    assert_eq!(driver.compiler.functions[entries[0]].name, "f1");
    assert_eq!(driver.compiler.functions[entries[1]].name, "f2");
    assert_eq!(driver.compiler.globals[global].name, "Shape_vtable");
}

#[test]
fn vtable_is_built_at_most_once_per_pair() {
    let (syntax, shape, area) = dispatch_session();
    let shape_type = FinalizedTypes::Struct(TypeRef { id: shape.id, name: shape.name.clone() });
    let area_type = FinalizedTypes::Struct(TypeRef { id: area.id, name: area.name.clone() });
    let mut driver = fresh_driver(syntax);
    driver.compile().unwrap();
    let mut vtables = VTableManager::new();
    let first = vtables.get_vtable(&mut driver, &shape_type, &area_type).unwrap();
    let second = vtables.get_vtable(&mut driver, &shape_type, &area_type).unwrap();
    assert_eq!(first, second);
    assert_eq!(driver.compiler.globals.len(), 1);
    assert_eq!(vtables.data.len(), 1);
}

#[test]
fn missing_method_implementation_is_fatal() {
    let mut syntax = Syntax::new();
    let shape = plain_struct(&mut syntax, "Shape");
    let area = StructData::new(
        Vec::new(),
        lang_core::structure::MODIFIER_TRAIT,
        "Area".to_string(),
        &mut syntax.ids,
    );
    syntax.add_trait_methods(area.id, vec!["m1".to_string()]);
    syntax.add_implementation(Implementation {
        struct_id: shape.id,
        trait_id: area.id,
        methods: Vec::new(),
    });
    let shape_type = FinalizedTypes::Struct(TypeRef { id: shape.id, name: shape.name.clone() });
    let area_type = FinalizedTypes::Struct(TypeRef { id: area.id, name: area.name.clone() });
    let mut driver = fresh_driver(syntax);
    let mut vtables = VTableManager::new();
    match vtables.get_vtable(&mut driver, &shape_type, &area_type) {
        Err(CompileError::InternalDispatchError { structure, target, missing_method }) => {
            assert_eq!(structure, "Shape");
            assert_eq!(target, "Area");
            assert_eq!(missing_method, "m1");
        },
        _ => panic!("expected the internal dispatch error"),
    }
    assert_eq!(driver.compiler.globals.len(), 0);
    assert_eq!(vtables.data.len(), 0);
}

#[test]
fn ground_definition_specializes_to_itself() {
    let mut syntax = Syntax::new();
    let data = plain_struct(&mut syntax, "Plain");
    let definition = FinalizedStruct {
        generics: Vec::new(),
        fields: vec![FinalizedMemberField {
            modifiers: 0,
            name: "n".to_string(),
            field_type: ground(&syntax, "i64"),
        }],
        data,
    };
    let mut engine = GenericsEngine::new();
    let k = engine
        .specialize(&definition, &Vec::new(), &syntax.implementations, &mut syntax.ids)
        .unwrap();
    // A definition with no generic parameters passes through, identity and
    // content untouched.
    assert_eq!(engine.cache[k].value.data.id, definition.data.id);
    assert_eq!(engine.cache[k].value.fields.len(), 1);
}

#[test]
fn internal_definition_outside_the_catalogue_is_fatal() {
    let mut syntax = Syntax::new();
    let mut main = simple_function(&mut syntax, "main::main", vec![Effects::NOP]);
    main.data.modifiers = lang_core::structure::MODIFIER_INTERNAL;
    main.intrinsic = None;
    syntax.add_function("main::main".to_string(), main);
    let mut driver = fresh_driver(syntax);
    match driver.compile() {
        Err(errors) => match &errors[0] {
            CompileError::UnknownIntrinsic { name } => assert_eq!(name, "main::main"),
            _ => panic!("expected the unknown-intrinsic error"),
        },
        _ => panic!("expected the unknown-intrinsic error"),
    }
}

#[test]
fn generic_function_specializes_like_a_struct() {
    let mut syntax = Syntax::new();
    let mut function = simple_function(&mut syntax, "identity", vec![Effects::CodeReturn("value".to_string())]);
    function.generics.push(GenericParam { name: "T".to_string(), bounds: Vec::new() });
    function.fields.push(FinalizedMemberField {
        modifiers: 0,
        name: "value".to_string(),
        field_type: FinalizedTypes::Generic("T".to_string(), Vec::new()),
    });
    function.return_type = Some(FinalizedTypes::Generic("T".to_string(), Vec::new()));
    let args = vec![ground(&syntax, "i64")];
    function.degeneric(&args, &syntax.implementations).unwrap();
    assert_eq!(function.generics.len(), 0);
    match &function.fields[0].field_type {
        FinalizedTypes::Struct(tref) => assert_eq!(tref.name, "i64"),
        _ => panic!("expected a concrete parameter type"),
    }
    match function.return_type.as_ref().unwrap() {
        FinalizedTypes::Struct(tref) => assert_eq!(tref.name, "i64"),
        _ => panic!("expected a concrete return type"),
    }
}

#[test]
fn generic_function_bound_violation_changes_nothing() {
    let mut syntax = Syntax::new();
    let display = StructData::new(
        Vec::new(),
        lang_core::structure::MODIFIER_TRAIT,
        "Display".to_string(),
        &mut syntax.ids,
    );
    let mut function = simple_function(&mut syntax, "show", vec![Effects::NOP]);
    function.generics.push(GenericParam {
        name: "T".to_string(),
        bounds: vec![TypeRef { id: display.id, name: display.name.clone() }],
    });
    function.fields.push(FinalizedMemberField {
        modifiers: 0,
        name: "value".to_string(),
        field_type: FinalizedTypes::Generic("T".to_string(), Vec::new()),
    });
    let args = vec![ground(&syntax, "u8")];
    let err = function.degeneric(&args, &syntax.implementations).unwrap_err();
    assert_eq!(err.parameter, "T");
    assert_eq!(err.required_trait, "Display");
    assert_eq!(err.actual_type, "u8");
    assert_eq!(function.generics.len(), 1);
    assert!(matches!(
        function.fields[0].field_type,
        FinalizedTypes::Generic(_, _)
    ));
}

#[test]
fn internal_types_keep_their_identity() {
    let syntax = Syntax::new();
    let first = get_internal(&syntax.internals, &"i64".to_string()).id;
    let again = get_internal(&syntax.internals, &"i64".to_string()).id;
    let other = get_internal(&syntax.internals, &"bool".to_string()).id;
    assert_eq!(first, again);
    assert_ne!(first, other);
    assert_eq!(syntax.internals.len(), 12);
}

#[test]
fn struct_data_new_assigns_solver_records() {
    let mut syntax = Syntax::new();
    let data = plain_struct(&mut syntax, "Point");
    let (ty, adt) = data.chalk_data.to_struct();
    assert_eq!(ty.adt_id as u64, data.id);
    assert_eq!(adt.id as u64, data.id);
    let trait_data = StructData::new(
        Vec::new(),
        lang_core::structure::MODIFIER_TRAIT,
        "Compare".to_string(),
        &mut syntax.ids,
    );
    assert_eq!(trait_data.chalk_data.to_trait().id as u64, trait_data.id);
}

#[test]
fn fix_id_reidentifies_a_copy() {
    let mut syntax = Syntax::new();
    let original = plain_struct(&mut syntax, "Point");
    let mut copy = original.duplicate();
    assert_eq!(copy.id, original.id);
    copy.fix_id(&mut syntax.ids);
    assert_ne!(copy.id, original.id);
    assert_eq!(copy.name, original.name);
}

#[test]
fn poison_accumulates_errors() {
    let mut syntax = Syntax::new();
    let mut data = plain_struct(&mut syntax, "Bad");
    assert_eq!(data.errors().len(), 0);
    data.poison(ParsingError::new((0, 0), 0, (0, 0), 0, "first".to_string()));
    data.poison(ParsingError::new((0, 0), 0, (0, 0), 0, "second".to_string()));
    assert_eq!(data.errors().len(), 2);
    assert_eq!(data.errors()[1].message, "second");
    let poisoned =
        StructData::new_poisoned("Gone".to_string(), ParsingError::new((0, 0), 0, (0, 0), 0, "lost".to_string()), &mut syntax.ids);
    assert_eq!(poisoned.poisoned.len(), 1);
    assert!(!poisoned.is_operator());
    assert_eq!(poisoned.name(), "Gone");
}

use kennedy::ast::Type;
use kennedy::compiler::ir::{
    BasicBlock, FunctionSignature, Instruction, Module, Operation, Routine, Terminator,
    UnaryOperation, ValueType,
};
use kennedy::compiler::machine::{Trap, Value};
use kennedy::compiler::Compiler;
use kennedy::error::{CompileError, Span};

const FUEL: u64 = 100_000;

fn compile(source: &str) -> Result<Module, CompileError> {
    Compiler::default().compile(source)
}

fn module(source: &str) -> Module {
    match compile(source) {
        Ok(module) => module,
        Err(e) => panic!("{}", e.to_string_with_source(source)),
    }
}

/// The result of calling the function `name` of `source`.
fn call(source: &str, name: &str, arguments: Vec<Value>) -> Result<Value, Trap> {
    let module = module(source);
    let function = module.find(name).unwrap();
    module.call(function, &arguments, FUEL)
}

/// The result of the function `f` of `source`, called without arguments.
fn result(source: &str) -> Result<Value, Trap> {
    call(source, "f", vec![])
}

/// The value of the expression `e`, which must be an integer.
fn int_of(e: &str) -> i64 {
    match result(&format!("func f(): int {{ return {}; }}", e)) {
        Ok(Value::Int(n)) => n,
        other => panic!("unexpected result: {:?}", other),
    }
}

/// The value of the expression `e`, which must be a boolean.
fn bool_of(e: &str) -> bool {
    match result(&format!("func f(): bool {{ return {}; }}", e)) {
        Ok(Value::Bool(b)) => b,
        other => panic!("unexpected result: {:?}", other),
    }
}

fn semantic_error(source: &str) -> (String, Span) {
    match compile(source) {
        Err(CompileError::SemanticError(message, span)) => (message, span),
        other => panic!("unexpected result: {:?}", other),
    }
}

/// The message of the semantic error in the body `body` of an int function.
fn error_in(body: &str) -> String {
    semantic_error(&format!("func f(): int {{ {} }}", body)).0
}

#[test]
fn subtraction_groups_to_the_left() {
    assert_eq!(int_of("1 - 2 - 3"), -4);
}

#[test]
fn product_before_sum() {
    assert_eq!(int_of("1 + 2 * 3"), 7);
    assert_eq!(int_of("(1 + 2) * 3"), 9);
    assert_eq!(int_of("8 / 4 / 2"), 1);
    assert_eq!(int_of("7 / 2"), 3);
    assert_eq!(int_of("-7 / 2"), -3);
    assert_eq!(int_of("- - 5"), 5);
}

#[test]
fn inner_shadow_does_not_leak() {
    let source = "func f(): int { let x: int = 1; { let x: int = 2; } return x; }";
    assert_eq!(result(source), Ok(Value::Int(1)));
}

#[test]
fn inner_scope_sees_and_changes_the_outer_variable() {
    let source = "func f(): int { let x: int = 1; { x = x + 4; let x: int = 100; x = 0; } return x; }";
    assert_eq!(result(source), Ok(Value::Int(5)));
}

#[test]
fn redeclaration_in_one_scope_takes_the_later() {
    let source = "func f(): bool { let x: int = 1; let x: bool = true; return x; }";
    assert_eq!(result(source), Ok(Value::Bool(true)));
}

#[test]
fn do_until_runs_the_body_at_least_once() {
    let source = "func f(): int { let x: int = 0; do { x += 1; } until (x >= 1); return x; }";
    assert_eq!(result(source), Ok(Value::Int(1)));
    let source = "func f(): int { let x: int = 10; do { x += 1; } until (true); return x; }";
    assert_eq!(result(source), Ok(Value::Int(11)));
}

#[test]
fn do_until_repeats_while_the_condition_is_false() {
    let source = "func f(): int { let x: int = 0; do { x += 2; } until (x >= 7); return x; }";
    assert_eq!(result(source), Ok(Value::Int(8)));
}

#[test]
fn while_may_run_no_iteration() {
    let source = "func f(): int { let x: int = 0; while (x > 0) { x += 1; } return x; }";
    assert_eq!(result(source), Ok(Value::Int(0)));
    let source = "func f(): int { let x: int = 0; while (x < 5) { x += 1; } return x; }";
    assert_eq!(result(source), Ok(Value::Int(5)));
}

#[test]
fn for_loop_sums() {
    let source =
        "func f(): int { let s: int = 0; for (let i: int = 0; i < 3; i += 1) { s += i; } return s; }";
    assert_eq!(result(source), Ok(Value::Int(3)));
}

#[test]
fn for_loop_is_its_while_form() {
    let with_for =
        "func f(): int { let s: int = 0; for (let i: int = 0; i < 3; i += 1) { s += i; } return s; }";
    let with_while =
        "func f(): int { let s: int = 0; { let i: int = 0; while (i < 3) { { s += i; } i += 1; } } return s; }";
    let a = module(with_for);
    let b = module(with_while);
    assert_eq!(a.routines[0].code, b.routines[0].code);
    assert_eq!(a.routines[0].blocks, b.routines[0].blocks);
    assert_eq!(a.routines[0].slots, b.routines[0].slots);
    assert_eq!(a.call(0, &vec![], FUEL), Ok(Value::Int(3)));
    assert_eq!(b.call(0, &vec![], FUEL), Ok(Value::Int(3)));
}

#[test]
fn for_variable_is_scoped_to_the_loop() {
    let (message, _) = semantic_error(
        "func f(): int { for (let i: int = 0; i < 3; i += 1) { } return i; }",
    );
    assert_eq!(message, "Unknown identifier: i");
}

#[test]
fn one_bad_function_leaves_no_module() {
    let source = "func good(): int { return 1; }\nfunc bad(): int { return true; }";
    let (message, span) = semantic_error(source);
    assert_eq!(message, "Mismatched return type");
    assert_eq!(span, Span { start: 49, end: 61 });
    // The same good function alone compiles.
    assert!(compile("func good(): int { return 1; }").is_ok());
}

#[test]
fn a_failed_compile_is_not_counted() {
    let mut compiler = Compiler::default();
    assert_eq!(compiler.units(), 0);
    assert!(compiler.compile("func f(): int { return 1; }").is_ok());
    assert_eq!(compiler.units(), 1);
    assert!(compiler.compile("func f(): int { return true; }").is_err());
    assert_eq!(compiler.units(), 1);
    assert!(compiler.compile("func f(): int { return 2; }").is_ok());
    assert_eq!(compiler.units(), 2);
}

#[test]
fn or_does_not_evaluate_its_right_operand_after_true() {
    // The right operand would trap if it were evaluated.
    assert_eq!(bool_of("true or 1 / 0 == 1"), true);
    assert_eq!(result("func f(): bool { return false or 1 / 0 == 1; }"), Err(Trap::Division));
}

#[test]
fn and_does_not_evaluate_its_right_operand_after_false() {
    assert_eq!(bool_of("false and 1 / 0 == 1"), false);
    assert_eq!(result("func f(): bool { return true and 1 / 0 == 1; }"), Err(Trap::Division));
}

#[test]
fn logical_operators() {
    assert_eq!(bool_of("true and true"), true);
    assert_eq!(bool_of("true and false"), false);
    assert_eq!(bool_of("false or false"), false);
    assert_eq!(bool_of("false or true"), true);
    assert_eq!(bool_of("false or true and false"), false);
    assert_eq!(bool_of("true or false and false"), true);
    assert_eq!(bool_of("!true or !false"), true);
}

#[test]
fn right_operand_of_a_logical_operator_is_still_checked() {
    assert_eq!(error_in("let b = true or 1; return 0;"), "Operand is not a bool");
    assert_eq!(error_in("let b = 1 and true; return 0;"), "Operand is not a bool");
    assert_eq!(error_in("let b = true or nope; return 0;"), "Unknown identifier: nope");
}

#[test]
fn comparisons() {
    assert_eq!(bool_of("1 < 2"), true);
    assert_eq!(bool_of("2 <= 1"), false);
    assert_eq!(bool_of("2 > 1"), true);
    assert_eq!(bool_of("1 >= 1"), true);
    assert_eq!(bool_of("1 == 1"), true);
    assert_eq!(bool_of("1 != 1"), false);
    assert_eq!(bool_of("true == false"), false);
    assert_eq!(bool_of("true != false"), true);
    assert_eq!(bool_of("1 + 1 == 2 and 2 * 2 > 3"), true);
}

#[test]
fn integer_arithmetic_wraps() {
    assert_eq!(int_of("9223372036854775807 + 1"), i64::MIN);
    assert_eq!(int_of("-9223372036854775807 - 2"), i64::MAX);
    assert_eq!(int_of("4611686018427387904 * 2"), i64::MIN);
}

#[test]
fn division_traps() {
    assert_eq!(result("func f(): int { return 1 / 0; }"), Err(Trap::Division));
    assert_eq!(
        result("func f(): int { return (-9223372036854775807 - 1) / -1; }"),
        Err(Trap::Division)
    );
}

#[test]
fn increment_and_decrement() {
    assert_eq!(result("func f(): int { let x = 5; return x++; }"), Ok(Value::Int(5)));
    assert_eq!(result("func f(): int { let x = 5; return ++x; }"), Ok(Value::Int(6)));
    assert_eq!(result("func f(): int { let x = 5; x++; return x; }"), Ok(Value::Int(6)));
    assert_eq!(result("func f(): int { let x = 5; return x--; }"), Ok(Value::Int(5)));
    assert_eq!(result("func f(): int { let x = 5; return --x; }"), Ok(Value::Int(4)));
    assert_eq!(result("func f(): int { let x = 5; --x; --x; return x; }"), Ok(Value::Int(3)));
}

#[test]
fn compound_assignment() {
    assert_eq!(result("func f(): int { let x = 5; x += 2; return x; }"), Ok(Value::Int(7)));
    assert_eq!(result("func f(): int { let x = 5; x -= 2; return x; }"), Ok(Value::Int(3)));
    assert_eq!(result("func f(): int { let x = 5; x *= 2; return x; }"), Ok(Value::Int(10)));
    assert_eq!(result("func f(): int { let x = 5; x /= 2; return x; }"), Ok(Value::Int(2)));
    assert_eq!(result("func f(): int { let x = 5; return x += 1; }"), Ok(Value::Int(6)));
    assert_eq!(
        result("func f(): int { let x = 1; let y = 2; x += y += 3; return x * 10 + y; }"),
        Ok(Value::Int(65))
    );
}

#[test]
fn if_else() {
    let source = "func f(x: int): int { if (x > 0) { return 1; } else if (x < 0) { return -1; } else { return 0; } }";
    assert_eq!(call(source, "f", vec![Value::Int(5)]), Ok(Value::Int(1)));
    assert_eq!(call(source, "f", vec![Value::Int(-5)]), Ok(Value::Int(-1)));
    assert_eq!(call(source, "f", vec![Value::Int(0)]), Ok(Value::Int(0)));
    let source = "func f(x: int): int { let r = 0; if (x > 0) { r = 1; } return r; }";
    assert_eq!(call(source, "f", vec![Value::Int(5)]), Ok(Value::Int(1)));
    assert_eq!(call(source, "f", vec![Value::Int(-5)]), Ok(Value::Int(0)));
}

#[test]
fn parameters_can_be_reassigned() {
    let source = "func f(a: int, b: int): int { a = a + b; b += a; return a * 100 + b; }";
    assert_eq!(call(source, "f", vec![Value::Int(1), Value::Int(2)]), Ok(Value::Int(305)));
}

#[test]
fn calls_pass_arguments_in_order() {
    let source = "func sub(a: int, b: int): int { return a - b; }\nfunc f(): int { return sub(10, 3); }";
    assert_eq!(result(source), Ok(Value::Int(7)));
}

#[test]
fn a_function_may_call_one_that_is_declared_later() {
    let source = "func f(): int { return g(2) + 1; }\nfunc g(x: int): int { return x * 10; }";
    assert_eq!(result(source), Ok(Value::Int(21)));
}

#[test]
fn nested_calls() {
    let source = "func add(a: int, b: int): int { return a + b; }\nfunc f(): int { return add(add(1, 2), add(3, add(4, 5))); }";
    assert_eq!(result(source), Ok(Value::Int(15)));
}

#[test]
fn a_call_with_a_logical_argument() {
    let source = "func pick(a: int, b: bool): int { if (b) { return a; } return 0 - a; }\nfunc f(): int { return pick(7, false or true) + pick(1, true and false); }";
    assert_eq!(result(source), Ok(Value::Int(6)));
}

#[test]
fn recursion() {
    let source = "func fact(n: int): int { if (n <= 1) { return 1; } return n * fact(n - 1); }";
    assert_eq!(call(source, "fact", vec![Value::Int(10)]), Ok(Value::Int(3628800)));
    let source = "func fib(n: int): int { if (n < 2) { return n; } return fib(n - 1) + fib(n - 2); }";
    assert_eq!(call(source, "fib", vec![Value::Int(15)]), Ok(Value::Int(610)));
}

#[test]
fn function_values() {
    let source = "func f(): int { let twice = func (x: int): int { return x * 2; }; return twice(21); }";
    assert_eq!(result(source), Ok(Value::Int(42)));
    let source = "func g(x: int): int { return x + 1; }\nfunc f(): int { let h = g; return h(1); }";
    assert_eq!(result(source), Ok(Value::Int(2)));
    let source = "func f(): int { return (func (): int { return 9; })(); }";
    assert_eq!(result(source), Ok(Value::Int(9)));
}

#[test]
fn a_function_literal_sees_no_variable_around_it() {
    let (message, _) = semantic_error(
        "func f(): int { let a = 1; let g = func (): int { return a; }; return g(); }",
    );
    assert_eq!(message, "Unknown identifier: a");
}

#[test]
fn a_variable_hides_a_function_of_its_name() {
    let source = "func g(): int { return 1; }\nfunc f(): int { let g = func (): int { return 2; }; return g(); }";
    assert_eq!(result(source), Ok(Value::Int(2)));
    let (message, _) =
        semantic_error("func g(): int { return 1; }\nfunc f(): int { let g = 3; return g(); }");
    assert_eq!(message, "Not a function");
}

#[test]
fn function_values_of_one_signature_are_one_type() {
    let source = "func a(x: int): int { return x + 1; }\nfunc b(x: int): int { return x + 2; }\nfunc f(): int { let h = a; h = b; return h(0); }";
    assert_eq!(result(source), Ok(Value::Int(2)));
    let (message, _) = semantic_error(
        "func a(x: int): int { return x; }\nfunc b(): int { return 0; }\nfunc f(): int { let h = a; h = b; return 0; }",
    );
    assert_eq!(message, "Mismatched types");
}

#[test]
fn functions_that_return_nothing() {
    let source = "func f(): void { return; }";
    assert_eq!(result(source), Ok(Value::Null));
    let source = "func f(): void { }";
    assert_eq!(result(source), Ok(Value::Null));
    let source = "func f(): null { return null; }";
    assert_eq!(result(source), Ok(Value::Null));
    let source = "func g(): void { }\nfunc f(): int { g(); return 1; }";
    assert_eq!(result(source), Ok(Value::Int(1)));
}

#[test]
fn falling_off_the_end_of_a_function_that_owes_a_value_traps() {
    let source = "func f(x: int): int { if (x > 0) { return 1; } }";
    assert_eq!(call(source, "f", vec![Value::Int(1)]), Ok(Value::Int(1)));
    assert_eq!(call(source, "f", vec![Value::Int(0)]), Err(Trap::MissingReturn));
}

#[test]
fn statements_after_a_return_are_checked_and_never_run() {
    let source = "func f(): int { return 1; return 2; }";
    assert_eq!(result(source), Ok(Value::Int(1)));
    assert_eq!(error_in("return 1; return true;"), "Mismatched return type");
}

#[test]
fn an_endless_loop_runs_out_of_fuel() {
    let source = "func f(): int { while (true) { } return 0; }";
    assert_eq!(result(source), Err(Trap::OutOfFuel));
}

#[test]
fn more_fuel_does_not_change_an_answer() {
    let source = "func f(): int { let s = 0; for (let i = 0; i < 10; i += 1) { s += i; } return s; }";
    let module = module(source);
    let mut first = None;
    for fuel in 0..400u64 {
        let r = module.call(0, &vec![], fuel);
        match (first, r) {
            (None, Err(Trap::OutOfFuel)) => {}
            (None, other) => {
                assert_eq!(other, Ok(Value::Int(45)));
                first = Some(fuel);
            }
            (Some(_), other) => assert_eq!(other, Ok(Value::Int(45))),
        }
    }
    assert!(first.is_some());
}

#[test]
fn floating_point_is_lowered_but_not_interpreted() {
    let source = "func f(): float { return 1.5 + 2.25; }";
    let module = module(source);
    let routine = &module.routines[0];
    assert_eq!(routine.floats, vec!["1.5".to_string(), "2.25".to_string()]);
    assert_eq!(
        routine.code,
        vec![
            Instruction::FloatConst { literal: 0 },
            Instruction::FloatConst { literal: 1 },
            Instruction::Binary {
                operation: Operation::Add,
                operand_type: Type::Float,
                left: 0,
                right: 1
            },
        ]
    );
    assert_eq!(module.call(0, &vec![], FUEL), Err(Trap::FloatingPoint));
}

#[test]
fn call_checks_the_number_of_arguments_only() {
    let module = module("func f(a: int): int { return a; }");
    assert_eq!(module.call(0, &vec![], FUEL), Err(Trap::Malformed));
    assert_eq!(module.call(0, &vec![Value::Int(1), Value::Int(2)], FUEL), Err(Trap::Malformed));
    assert_eq!(module.call(1, &vec![], FUEL), Err(Trap::Malformed));
    assert_eq!(module.call(0, &vec![Value::Int(3)], FUEL), Ok(Value::Int(3)));
    assert_eq!(module.call(0, &vec![Value::Bool(true)], FUEL), Ok(Value::Bool(true)));
}

#[test]
fn module_exposes_names_and_signatures() {
    let module = module(
        "func a(x: int, y: bool): float { return 1.0; }\nfunc b(): void { let g = func (): int { return 1; }; }",
    );
    assert_eq!(module.declared, 2);
    assert_eq!(module.routines.len(), 3);
    assert_eq!(module.find("a"), Some(0));
    assert_eq!(module.find("b"), Some(1));
    assert_eq!(module.find("c"), None);
    // A function literal has no name.
    assert_eq!(module.find(""), None);
    assert_eq!(
        module.signature(0),
        Some(&FunctionSignature { params: vec![Type::Int, Type::Bool], return_type: Type::Float })
    );
    assert_eq!(module.signature(1), Some(&FunctionSignature { params: vec![], return_type: Type::Void }));
    assert_eq!(module.signature(2), Some(&FunctionSignature { params: vec![], return_type: Type::Int }));
    assert_eq!(module.signature(3), None);
}

#[test]
fn lowering_of_a_return() {
    let module = module("func f(): int { return 1 + 2; }");
    let expected = Routine {
        name: "f".to_string(),
        signature: FunctionSignature { params: vec![], return_type: Type::Int },
        slots: vec![],
        floats: vec![],
        code: vec![
            Instruction::IntConst { value: 1 },
            Instruction::IntConst { value: 2 },
            Instruction::Binary {
                operation: Operation::Add,
                operand_type: Type::Int,
                left: 0,
                right: 1,
            },
        ],
        blocks: vec![
            BasicBlock { start: 0, end: 3, terminator: Terminator::Return { value: Some(2) } },
            BasicBlock { start: 3, end: 3, terminator: Terminator::Trap },
        ],
    };
    assert_eq!(module, Module { routines: vec![expected], declared: 1 });
}

#[test]
fn lowering_of_parameters_and_variables() {
    let module = module("func f(a: int, b: bool): void { let c = -a; let d: bool = !b; }");
    let routine = &module.routines[0];
    assert_eq!(
        routine.slots,
        vec![
            ValueType::Data(Type::Int),
            ValueType::Data(Type::Bool),
            ValueType::Data(Type::Int),
            ValueType::Data(Type::Bool),
        ]
    );
    assert_eq!(
        routine.code,
        vec![
            Instruction::Load { slot: 0 },
            Instruction::Unary {
                operation: UnaryOperation::Negate,
                operand_type: Type::Int,
                operand: 0
            },
            Instruction::Store { slot: 2, value: 1 },
            Instruction::Load { slot: 1 },
            Instruction::Unary {
                operation: UnaryOperation::Not,
                operand_type: Type::Bool,
                operand: 3
            },
            Instruction::Store { slot: 3, value: 4 },
        ]
    );
    assert_eq!(
        routine.blocks,
        vec![BasicBlock { start: 0, end: 6, terminator: Terminator::Return { value: None } }]
    );
}

#[test]
fn lowering_of_or_branches_around_the_right_operand() {
    let module = module("func f(a: bool, b: bool): bool { return a or b; }");
    let routine = &module.routines[0];
    assert_eq!(
        routine.code,
        vec![
            Instruction::Load { slot: 0 },
            Instruction::Store { slot: 2, value: 0 },
            Instruction::Load { slot: 1 },
            Instruction::Store { slot: 2, value: 2 },
            Instruction::Load { slot: 2 },
        ]
    );
    assert_eq!(
        routine.blocks,
        vec![
            BasicBlock {
                start: 0,
                end: 2,
                terminator: Terminator::Branch { condition: 0, then_target: 2, else_target: 1 },
            },
            BasicBlock { start: 2, end: 4, terminator: Terminator::Jump { target: 2 } },
            BasicBlock { start: 4, end: 5, terminator: Terminator::Return { value: Some(4) } },
            BasicBlock { start: 5, end: 5, terminator: Terminator::Trap },
        ]
    );
}

#[test]
fn lowering_of_and_branches_around_the_right_operand() {
    let module = module("func f(a: bool, b: bool): bool { return a and b; }");
    assert_eq!(
        module.routines[0].blocks[0].terminator,
        Terminator::Branch { condition: 0, then_target: 1, else_target: 2 }
    );
}

#[test]
fn lowering_of_while() {
    let module = module("func f(): void { while (true) { } }");
    let routine = &module.routines[0];
    assert_eq!(routine.code, vec![Instruction::BoolConst { value: true }]);
    assert_eq!(
        routine.blocks,
        vec![
            BasicBlock { start: 0, end: 0, terminator: Terminator::Jump { target: 1 } },
            BasicBlock {
                start: 0,
                end: 1,
                terminator: Terminator::Branch { condition: 0, then_target: 2, else_target: 3 },
            },
            BasicBlock { start: 1, end: 1, terminator: Terminator::Jump { target: 1 } },
            BasicBlock { start: 1, end: 1, terminator: Terminator::Return { value: None } },
        ]
    );
}

#[test]
fn lowering_of_do_until() {
    let module = module("func f(): void { do { } until (true); }");
    let routine = &module.routines[0];
    assert_eq!(
        routine.blocks,
        vec![
            BasicBlock { start: 0, end: 0, terminator: Terminator::Jump { target: 1 } },
            BasicBlock {
                start: 0,
                end: 1,
                terminator: Terminator::Branch { condition: 0, then_target: 2, else_target: 1 },
            },
            BasicBlock { start: 1, end: 1, terminator: Terminator::Return { value: None } },
        ]
    );
}

#[test]
fn lowering_of_a_call() {
    let module = module("func g(a: int, b: int): int { return a; }\nfunc f(): int { return g(1, 2); }");
    assert_eq!(
        module.routines[1].code,
        vec![
            Instruction::IntConst { value: 1 },
            Instruction::Argument { value: 0 },
            Instruction::IntConst { value: 2 },
            Instruction::Argument { value: 2 },
            Instruction::Call { function: 0, arguments: 2 },
        ]
    );
}

#[test]
fn lowering_of_a_function_literal() {
    let module = module("func f(): void { let g = func (x: int): int { return x; }; g(1); }");
    assert_eq!(module.declared, 1);
    assert_eq!(module.routines.len(), 2);
    assert_eq!(module.routines[1].name, "");
    assert_eq!(
        module.routines[0].code,
        vec![
            Instruction::FunctionRef { function: 1 },
            Instruction::Store { slot: 0, value: 0 },
            Instruction::Load { slot: 0 },
            Instruction::IntConst { value: 1 },
            Instruction::Argument { value: 3 },
            Instruction::CallIndirect { callee: 2, signature: 1, arguments: 1 },
        ]
    );
    assert_eq!(module.routines[0].slots, vec![ValueType::Function(1)]);
}

#[test]
fn error_unknown_identifier() {
    let (message, span) = semantic_error("func f(): int { return y; }");
    assert_eq!(message, "Unknown identifier: y");
    assert_eq!(span, Span { start: 16, end: 25 });
    assert_eq!(error_in("y = 1; return 0;"), "Unknown identifier: y");
    assert_eq!(error_in("y += 1; return 0;"), "Unknown identifier: y");
    assert_eq!(error_in("y++; return 0;"), "Unknown identifier: y");
    assert_eq!(error_in("return g(1);"), "Unknown identifier: g");
}

#[test]
fn error_no_forward_reference_to_a_variable() {
    assert_eq!(error_in("let a = b; let b = 1; return a;"), "Unknown identifier: b");
    assert_eq!(error_in("let a = a; return a;"), "Unknown identifier: a");
}

#[test]
fn error_mismatched_types() {
    assert_eq!(error_in("let a: bool = 1; return 0;"), "Mismatched types");
    assert_eq!(error_in("let a: float = 1; return 0;"), "Mismatched types");
    assert_eq!(error_in("let a = 1; a = true; return 0;"), "Mismatched types");
    assert_eq!(error_in("let a = 1; a += 1.5; return 0;"), "Mismatched types");
    assert_eq!(error_in("return 1 + true;"), "Mismatched types");
    assert_eq!(error_in("return 1 + 1.5;"), "Mismatched types");
    assert_eq!(error_in("return 1 == true;"), "Mismatched types");
}

#[test]
fn error_operator_not_defined_for_a_type() {
    assert_eq!(error_in("let b = true + false; return 0;"), "Operator is not defined for this type");
    assert_eq!(error_in("let b = true < false; return 0;"), "Operator is not defined for this type");
    assert_eq!(error_in("let b = -true; return 0;"), "Operator is not defined for this type");
    assert_eq!(error_in("let b = !1; return 0;"), "Operator is not defined for this type");
    assert_eq!(error_in("let b = true; b++; return 0;"), "Operator is not defined for this type");
    assert_eq!(error_in("let b = true; b += true; return 0;"), "Operator is not defined for this type");
    assert_eq!(error_in("let b = null == null; return 0;"), "Operator is not defined for this type");
}

#[test]
fn error_reserved_operators() {
    assert_eq!(error_in("return 2 ** 3;"), "Operator is not implemented");
}

#[test]
fn error_strings_are_not_supported() {
    assert_eq!(error_in("let s = \"a\"; return 0;"), "String values are not supported");
}

#[test]
fn error_condition_is_not_a_bool() {
    assert_eq!(error_in("if (1) { } return 0;"), "Condition is not a bool");
    assert_eq!(error_in("while (1) { } return 0;"), "Condition is not a bool");
    assert_eq!(error_in("do { } until (1); return 0;"), "Condition is not a bool");
    assert_eq!(error_in("for (let i = 0; i; i += 1) { } return 0;"), "Condition is not a bool");
}

#[test]
fn error_return_type() {
    assert_eq!(error_in("return true;"), "Mismatched return type");
    assert_eq!(error_in("return;"), "Missing return value");
    let (message, _) = semantic_error("func f(): void { return 1; }");
    assert_eq!(message, "Mismatched return type");
    let (message, _) = semantic_error("func f(): null { return 1; }");
    assert_eq!(message, "Mismatched return type");
}

#[test]
fn error_invalid_assignment_target() {
    assert_eq!(error_in("let a = 1; (a) += 1; return 0;"), "Invalid assignment target");
    assert_eq!(error_in("1++; return 0;"), "Invalid assignment target");
    assert_eq!(error_in("let a = 1; ++(a); return 0;"), "Invalid assignment target");
}

#[test]
fn error_calls() {
    let g = "func g(a: int, b: bool): int { return a; }\n";
    let (message, _) = semantic_error(&format!("{}func f(): int {{ return g(1); }}", g));
    assert_eq!(message, "Wrong number of arguments");
    let (message, _) = semantic_error(&format!("{}func f(): int {{ return g(1, true, 3); }}", g));
    assert_eq!(message, "Wrong number of arguments");
    let (message, _) = semantic_error(&format!("{}func f(): int {{ return g(true, true); }}", g));
    assert_eq!(message, "Mismatched types");
    let (message, _) = semantic_error(&format!("{}func f(): int {{ return g(1, 2); }}", g));
    assert_eq!(message, "Mismatched types");
    let (message, _) = semantic_error(&format!("{}func f(): bool {{ return g(1, true); }}", g));
    assert_eq!(message, "Mismatched return type");
    assert_eq!(error_in("let a = 1; return a(1);"), "Not a function");
    assert_eq!(error_in("return 1(2);"), "Not a function");
}

#[test]
fn error_unsupported_types_in_a_signature() {
    let (message, span) = semantic_error("func f(s: string): int { return 1; }");
    assert_eq!(message, "Unsupported type");
    assert_eq!(span, Span { start: 0, end: 22 });
    let (message, _) = semantic_error("func f(): string { }");
    assert_eq!(message, "Unsupported type");
    let (message, _) = semantic_error("func f(n: null): int { return 1; }");
    assert_eq!(message, "Unsupported type");
    let (message, _) = semantic_error("func f(n: void): int { return 1; }");
    assert_eq!(message, "Unsupported type");
    assert_eq!(
        error_in("let g = func (s: string): int { return 1; }; return 0;"),
        "Unsupported type"
    );
}

#[test]
fn error_duplicate_function() {
    match compile("func a(): int { return 1; }\nfunc b(): int { return 2; }\nfunc a(): bool { return true; }") {
        Err(CompileError::ModuleError(message)) => assert_eq!(message, "Duplicate function: a"),
        other => panic!("unexpected result: {:?}", other),
    }
}

#[test]
fn error_duplicate_function_comes_before_any_semantic_error() {
    match compile("func a(): int { return true; }\nfunc a(): int { return 2; }") {
        Err(CompileError::ModuleError(message)) => assert_eq!(message, "Duplicate function: a"),
        other => panic!("unexpected result: {:?}", other),
    }
}

#[test]
fn error_of_the_scanner_and_of_the_parser_come_through_compile() {
    match compile("func f(): int { return 1 # 2; }") {
        Err(CompileError::SyntaxError(message, span)) => {
            assert_eq!(message, "Unexpected character: #");
            assert_eq!(span, Span { start: 25, end: 26 });
        }
        other => panic!("unexpected result: {:?}", other),
    }
    match compile("func f(: int { return 1; }") {
        Err(CompileError::SyntaxError(message, span)) => {
            assert_eq!(message, "Expected ident, got :");
            assert_eq!(span, Span { start: 7, end: 8 });
        }
        other => panic!("unexpected result: {:?}", other),
    }
}

#[test]
fn error_is_the_first_in_evaluation_order() {
    assert_eq!(error_in("return nope + (1 + true);"), "Unknown identifier: nope");
    assert_eq!(error_in("return (1 + true) + nope;"), "Mismatched types");
    assert_eq!(error_in("let a = 1; a = nope; a = true; return 0;"), "Unknown identifier: nope");
}

#[test]
fn error_report_of_a_semantic_error() {
    let source = "func f(): int {\n    let a = 1;\n    return b;\n}";
    let report = match compile(source) {
        Err(e) => e.to_string_with_source(source),
        Ok(_) => panic!("compiled"),
    };
    assert_eq!(
        report,
        "Semantic error at 3:5: Unknown identifier: b\n\t2 |     let a = 1;\n\t1 | func f(): int {\n\t3 |     return b;\n\t        ^^^^^^^^^"
    );
}

#[test]
fn compiled_modules_are_well_formed() {
    let sources = [
        "func f(): int { return 1 + 2; }",
        "func f(a: int, b: bool): int { let g = func (x: int): int { return -x; }; for (let i = 0; i < 3; i += 1) { if (b and !(i == 1)) { a += g(i); } else { a--; } } do { a = a * 2; } until (a > 100 or false); while (a > 0) { a /= 2; } return a; }",
        "func a(): void { }\nfunc b(): float { a(); return 1.5; }",
    ];
    for source in sources {
        assert!(module(source).well_formed());
    }
}

#[test]
fn a_module_put_together_by_hand_may_be_malformed() {
    let mut broken = module("func f(): int { return 1 + 2; }");
    assert!(broken.well_formed());
    // An operand that no earlier instruction computes.
    broken.routines[0].code[2] = Instruction::Binary {
        operation: Operation::Add,
        operand_type: Type::Int,
        left: 0,
        right: 2,
    };
    assert!(!broken.well_formed());
    assert_eq!(broken.call(0, &vec![], FUEL), Err(Trap::Malformed));

    let mut broken = module("func f(): int { return 1 + 2; }");
    // A jump to a block that is not there.
    broken.routines[0].blocks[0].terminator = Terminator::Jump { target: 2 };
    assert!(!broken.well_formed());
    assert_eq!(broken.call(0, &vec![], FUEL), Err(Trap::Malformed));

    let mut broken = module("func f(): int { return 1 + 2; }");
    // A call of a routine that is not there.
    broken.routines[0].code[0] = Instruction::Call { function: 1, arguments: 0 };
    assert!(!broken.well_formed());

    let mut broken = module("func f(): int { return 1 + 2; }");
    broken.declared = 2;
    assert!(!broken.well_formed());

    let mut broken = module("func f(a: int): int { return a; }");
    broken.routines[0].slots.clear();
    assert!(!broken.well_formed());
}

#[test]
fn constant_arithmetic_evaluates_to_its_value() {
    assert_eq!(int_of("1 - 2 - 3"), (1 - 2) - 3);
    assert_eq!(int_of("2 * 3 - 4 * 5"), 2 * 3 - 4 * 5);
    assert_eq!(int_of("-(7 - 10) * (2 + 3) / 4"), -(7 - 10) * (2 + 3) / 4);
    assert_eq!(int_of("100 / 7 / 2 - -3"), 100 / 7 / 2 - -3);
    assert_eq!(int_of("((((5))))"), 5);
    // Operands are evaluated left to right: the first trap ends the run.
    assert_eq!(result("func f(): int { return 1 / 0 + 2 / 0; }"), Err(Trap::Division));
    assert_eq!(result("func f(): int { return 8 / (4 - 4); }"), Err(Trap::Division));
}

#[test]
fn a_constant_function_takes_a_step_for_every_instruction_and_the_return() {
    let module = module("func f(): int { return 1 - 2 - 3; }");
    // Three literals and two operators, and the return.
    assert_eq!(module.routines[0].code.len(), 5);
    assert_eq!(module.call(0, &vec![], 5), Err(Trap::OutOfFuel));
    assert_eq!(module.call(0, &vec![], 6), Ok(Value::Int(-4)));
}

#[test]
fn a_decided_logical_operator_takes_five_steps_whatever_its_right_operand_is() {
    for source in [
        "func f(): bool { return true or 1 / 0 == 1; }",
        "func f(): bool { return true or (false or (true and 1 / 0 == 1)); }",
        "func g(): bool { return g(); }\nfunc f(): bool { return true or g(); }",
    ] {
        let module = module(source);
        let f = module.find("f").unwrap();
        assert_eq!(module.call(f, &vec![], 4), Err(Trap::OutOfFuel));
        assert_eq!(module.call(f, &vec![], 5), Ok(Value::Bool(true)));
    }
    let module = module("func f(): bool { return false and 1 / 0 == 1; }");
    assert_eq!(module.call(0, &vec![], 5), Ok(Value::Bool(false)));
}

#[test]
fn a_mismatched_return_in_the_second_function_fails_the_whole_unit() {
    let source = "func ok(): int { return 1; } func bad(): int { return 1.5; }";
    let (message, span) = semantic_error(source);
    assert_eq!(message, "Mismatched return type");
    assert_eq!(span, Span { start: 47, end: 58 });
    assert_eq!(&source[span.start..span.end], "return 1.5;");
    // Each function alone: the first compiles, the second fails in the same way.
    assert!(compile("func ok(): int { return 1; }").is_ok());
    assert_eq!(semantic_error("func bad(): int { return 1.5; }").0, "Mismatched return type");
}

fn block(start: usize, end: usize) -> BasicBlock {
    BasicBlock { start, end, terminator: Terminator::Trap }
}

fn routine_of(blocks: Vec<BasicBlock>) -> Routine {
    Routine {
        name: String::new(),
        signature: FunctionSignature { params: vec![], return_type: Type::Void },
        slots: vec![],
        floats: vec![],
        code: vec![],
        blocks,
    }
}

#[test]
fn layout_orders_the_blocks_by_their_code() {
    assert_eq!(routine_of(vec![]).layout(), Vec::<usize>::new());
    assert_eq!(routine_of(vec![block(0, 0)]).layout(), vec![0]);
    let routine = routine_of(vec![block(0, 2), block(7, 9), block(2, 4), block(4, 7)]);
    assert_eq!(routine.layout(), vec![0, 2, 3, 1]);
    // Blocks that start at one place keep the order of their indices.
    let routine = routine_of(vec![block(0, 0), block(3, 3), block(0, 3), block(3, 5), block(0, 0)]);
    assert_eq!(routine.layout(), vec![0, 2, 4, 1, 3]);
    // The entry is not first where it does not start the code.
    assert_eq!(routine_of(vec![block(1, 2), block(0, 1)]).layout(), vec![1, 0]);
}

#[test]
fn layout_of_a_lowered_routine_follows_the_code() {
    let lowered = module("func f(a: bool, b: bool): bool { return a or (b and a); }");
    let routine = &lowered.routines[0];
    let order = routine.layout();
    assert_eq!(order.len(), routine.blocks.len());
    assert_eq!(order[0], 0);
    let mut sorted = order.clone();
    sorted.sort();
    assert_eq!(sorted, (0..routine.blocks.len()).collect::<Vec<usize>>());
    for pair in order.windows(2) {
        assert!(routine.blocks[pair[0]].start <= routine.blocks[pair[1]].start);
    }
    // The block that joins the two paths of `or` was opened before the right operand's
    // block and is filled after it.
    assert_ne!(order, sorted);
}

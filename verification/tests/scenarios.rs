use apoloo::compiler::{compile, number_lexemes};
use apoloo::opcode::OpCode;
use apoloo::value::{Value, ValueRepr};
use apoloo::vm::{InterpretResult, Step, VM};

struct Outcome {
    ok: bool,
    errors: Vec<String>,
    output: Vec<String>,
    result: Option<InterpretResult>,
    message: String,
    stack_depth: usize,
}

fn literal_values(source: &str) -> Vec<u64> {
    number_lexemes(source.to_string())
        .iter()
        .map(|text| text.parse::<f64>().unwrap_or(0.0).to_bits())
        .collect()
}

fn render(value: &Value) -> String {
    match value.to_text() {
        Some(text) => text,
        None => match value.0 {
            ValueRepr::Number(bits) => format!("{}", f64::from_bits(bits)),
            _ => unreachable!(),
        },
    }
}

fn arithmetic(op: OpCode, left: u64, right: u64) -> u64 {
    let l = f64::from_bits(left);
    let r = f64::from_bits(right);
    let value = match op {
        OpCode::OpAdd => l + r,
        OpCode::OpSubtract => l - r,
        OpCode::OpMultiple => l * r,
        OpCode::OpDivide => l / r,
        _ => unreachable!(),
    };
    value.to_bits()
}

fn run_on(vm: &mut VM, source: &str) -> Outcome {
    let compilation = compile(source.to_string(), literal_values(source));
    let errors: Vec<String> = compilation
        .diagnostics
        .iter()
        .map(|d| d.to_string())
        .collect();
    let mut outcome = Outcome {
        ok: compilation.ok,
        errors,
        output: Vec::new(),
        result: None,
        message: String::new(),
        stack_depth: 0,
    };
    if !compilation.ok {
        outcome.result = Some(InterpretResult::InterpretCompileError);
        return outcome;
    }
    vm.interpret(compilation.code);
    let mut steps = 0;
    loop {
        steps += 1;
        assert!(steps < 100_000);
        match vm.run(1000) {
            Step::Continue => {}
            Step::Print(value) => outcome.output.push(render(&value)),
            Step::Arithmetic(op, left, right) => {
                if let Step::Done(result) = vm.resume(arithmetic(op, left, right)) {
                    outcome.result = Some(result);
                    break;
                }
            }
            Step::Done(result) => {
                outcome.result = Some(result);
                break;
            }
        }
    }
    outcome.message = vm.message.clone();
    outcome.stack_depth = vm.stack.len();
    outcome
}

fn run_source(source: &str) -> Outcome {
    let mut vm = VM::new();
    run_on(&mut vm, source)
}

fn expect_output(source: &str, lines: &[&str]) {
    let outcome = run_source(source);
    assert!(outcome.ok, "{:?}", outcome.errors);
    assert_eq!(outcome.result, Some(InterpretResult::InterpretOk));
    assert_eq!(outcome.output, lines.iter().map(|s| s.to_string()).collect::<Vec<String>>());
    assert_eq!(outcome.stack_depth, 0);
}

fn expect_runtime_error(source: &str, message: &str) {
    let outcome = run_source(source);
    assert!(outcome.ok, "{:?}", outcome.errors);
    assert_eq!(outcome.result, Some(InterpretResult::InterpretRuntimeError));
    assert_eq!(outcome.message, message);
    assert_eq!(outcome.stack_depth, 0);
}

fn expect_compile_error(source: &str, error: &str) {
    let outcome = run_source(source);
    assert!(!outcome.ok);
    assert_eq!(outcome.errors.first().map(|s| s.as_str()), Some(error));
}

#[test]
fn arithmetic_follows_precedence() {
    expect_output("print 1 + 2 * 3;", &["7"]);
}

#[test]
fn strings_are_concatenated() {
    expect_output("var a = \"hi\"; var b = \" there\"; print a + b;", &["hi there"]);
}

#[test]
fn while_loop_counts() {
    expect_output("var x = 0; while (x < 3) { print x; x = x + 1; }", &["0", "1", "2"]);
}

#[test]
fn if_takes_the_then_branch() {
    expect_output("var x = 10; if (x > 5) print \"big\"; else print \"small\";", &["big"]);
}

#[test]
fn if_takes_the_else_branch() {
    expect_output("var x = 1; if (x > 5) print \"big\"; else print \"small\";", &["small"]);
}

#[test]
fn inner_scope_shadows_outer() {
    expect_output("{ var a = 1; { var a = 2; print a; } print a; }", &["2", "1"]);
}

#[test]
fn for_loop_counts() {
    expect_output("for (var i = 0; i < 3; i = i + 1) print i;", &["0", "1", "2"]);
}

#[test]
fn for_loop_without_increment() {
    expect_output("for (var i = 0; i < 2;) { print i; i = i + 1; }", &["0", "1"]);
}

#[test]
fn for_loop_without_initializer() {
    expect_output("var i = 5; for (; i < 7; i = i + 1) print i;", &["5", "6"]);
}

#[test]
fn or_yields_the_fallback() {
    expect_output("print nil or \"fallback\";", &["fallback"]);
}

#[test]
fn or_short_circuits_on_truthy() {
    expect_output("print 1 or 2;", &["1"]);
}

#[test]
fn and_yields_the_last_value() {
    expect_output("print true and 0;", &["0"]);
}

#[test]
fn and_short_circuits_on_falsey() {
    expect_output("print nil and 1;", &["nil"]);
    expect_output("print false and 1;", &["false"]);
}

#[test]
fn assignment_updates_a_global() {
    expect_output("var a = 1; a = a + 1; print a;", &["2"]);
}

#[test]
fn assignment_to_undefined_global_fails() {
    expect_runtime_error("b = 1;", "Undefined variable 'b'.");
}

#[test]
fn reading_undefined_global_fails() {
    expect_runtime_error("print c;", "Undefined variable 'c'.");
}

#[test]
fn negating_a_string_fails() {
    expect_runtime_error("-\"x\";", "Operand must be a number.");
}

#[test]
fn adding_number_and_string_fails() {
    expect_runtime_error("print 1 + \"x\";", "Operands must be two numbers or two strings");
}

#[test]
fn multiplying_string_and_number_fails() {
    expect_runtime_error("print \"ab\" * 2;", "Operands must be numbers");
}

#[test]
fn subtracting_strings_fails() {
    expect_runtime_error("print \"a\" - \"b\";", "Operands must be numbers");
}

#[test]
fn comparing_number_and_string_fails() {
    expect_runtime_error("print 1 < \"x\";", "Operands must be two numbers or two strings");
}

#[test]
fn division_by_zero_is_infinity() {
    expect_output("print 1 / 0;", &["inf"]);
    expect_output("print -1 / 0;", &["-inf"]);
}

#[test]
fn numbers_print_with_minimal_decimals() {
    expect_output("print 0.5; print 10 / 4; print 3; print 0.1 + 0.2;", &[
        "0.5",
        "2.5",
        "3",
        "0.30000000000000004",
    ]);
}

#[test]
fn literals_print() {
    expect_output("print nil; print true; print false; print \"\";", &["nil", "true", "false", ""]);
}

#[test]
fn comparisons_and_equality() {
    expect_output(
        "print 1 < 2; print 2 <= 2; print 3 > 4; print 4 >= 5; print 1 == 1; print 1 != 1;",
        &["true", "true", "false", "false", "true", "false"],
    );
}

#[test]
fn strings_are_ordered_and_compared() {
    expect_output(
        "print \"a\" < \"b\"; print \"b\" < \"a\"; print \"a\" == \"a\"; print \"a\" == \"b\"; print \"ab\" > \"a\";",
        &["true", "false", "true", "false", "true"],
    );
}

#[test]
fn values_of_different_kinds_are_unequal() {
    expect_output("print 1 == \"1\"; print nil == false; print nil == nil;", &[
        "false",
        "false",
        "true",
    ]);
}

#[test]
fn unary_operators() {
    expect_output("print -3; print !true; print !nil; print !0; print --2;", &[
        "-3",
        "false",
        "true",
        "false",
        "2",
    ]);
}

#[test]
fn grouping_overrides_precedence() {
    expect_output("print (1 + 2) * 3; print 8 - 2 - 1; print 8 / 2 / 2;", &["9", "5", "2"]);
}

#[test]
fn locals_are_assigned() {
    expect_output("{ var a = 1; a = a + 4; var b = a * 2; print a; print b; }", &["5", "10"]);
}

#[test]
fn variable_without_initializer_is_nil() {
    expect_output("var a; print a; { var b; print b; }", &["nil", "nil"]);
}

#[test]
fn block_locals_are_discarded() {
    expect_output("var a = 1; { var b = 2; var c = 3; print b + c; } print a;", &["5", "1"]);
}

#[test]
fn nested_loops() {
    expect_output(
        "for (var i = 0; i < 2; i = i + 1) { var j = 0; while (j < 2) { print i * 10 + j; j = j + 1; } }",
        &["0", "1", "10", "11"],
    );
}

#[test]
fn comments_are_skipped() {
    expect_output("// nothing\nprint 1; // one\n// end", &["1"]);
}

#[test]
fn empty_source_runs() {
    expect_output("", &[]);
}

#[test]
fn globals_persist_between_runs() {
    let mut vm = VM::new();
    let first = run_on(&mut vm, "var a = 41;");
    assert_eq!(first.result, Some(InterpretResult::InterpretOk));
    let second = run_on(&mut vm, "print a + 1;");
    assert_eq!(second.output, vec!["42".to_string()]);
}

#[test]
fn machine_recovers_after_runtime_error() {
    let mut vm = VM::new();
    let first = run_on(&mut vm, "var a = 1; print a + nil;");
    assert_eq!(first.result, Some(InterpretResult::InterpretRuntimeError));
    assert_eq!(first.stack_depth, 0);
    let second = run_on(&mut vm, "print a;");
    assert_eq!(second.output, vec!["1".to_string()]);
}

#[test]
fn missing_expression_is_reported() {
    expect_compile_error("print ;", "[line 1] Error at ';': expected expression");
}

#[test]
fn missing_semicolon_is_reported_at_end() {
    expect_compile_error("print 1", "[line 1] Error at end: Expect ';' after value.");
}

#[test]
fn invalid_assignment_target_is_reported() {
    expect_compile_error("var a = 1; var b = 2; a + b = 3;", "[line 1] Error at '=': invalid assignment target");
}

#[test]
fn local_in_its_own_initializer_is_reported() {
    expect_compile_error(
        "{ var a = 1; { var a = a; } }",
        "[line 1] Error at 'a': cannot read local variable in its own initializer",
    );
}

#[test]
fn duplicate_local_is_reported() {
    expect_compile_error(
        "{ var a = 1;\n var a = 2; }",
        "[line 2] Error at 'a': already a variable with this name in this scope",
    );
}

#[test]
fn redeclaring_a_global_is_allowed() {
    expect_output("var a = 1; var a = 2; print a;", &["2"]);
}

#[test]
fn scanner_errors_carry_their_message() {
    expect_compile_error("print @;", "[line 1] Error: unexpected character @");
    expect_compile_error("print \"abc;", "[line 1] Error: unterminated string");
}

#[test]
fn errors_after_the_first_are_suppressed_until_a_statement_starts() {
    let outcome = run_source("print ; ; ;\nprint );\nprint 1;");
    assert!(!outcome.ok);
    assert_eq!(outcome.errors, vec![
        "[line 1] Error at ';': expected expression".to_string(),
        "[line 1] Error at ';': expected expression".to_string(),
        "[line 2] Error at ')': expected expression".to_string(),
    ]);
}

#[test]
fn unclosed_block_is_reported() {
    expect_compile_error("{ print 1;", "[line 1] Error at end: Expected '}' after block");
}

#[test]
fn too_many_constants_are_reported() {
    let mut source = String::new();
    for i in 0..257 {
        source.push_str(&format!("print {};", i));
    }
    let outcome = run_source(&source);
    assert!(!outcome.ok);
    assert_eq!(outcome.errors, vec![
        "[line 1] Error at '256': Too many constants in one chunk.".to_string(),
    ]);
}

#[test]
fn too_many_locals_are_reported() {
    let mut source = String::from("{");
    for i in 0..257 {
        source.push_str(&format!("var v{};", i));
    }
    source.push('}');
    let outcome = run_source(&source);
    assert!(!outcome.ok);
    assert_eq!(outcome.errors, vec![
        "[line 1] Error at 'v256': Too many local variables in function.".to_string(),
    ]);
}

#[test]
fn a_full_scope_of_locals_is_discarded() {
    let mut source = String::from("{");
    for i in 0..256 {
        source.push_str(&format!("var v{};", i));
    }
    source.push_str("} print 1;");
    expect_output(&source, &["1"]);
}

#[test]
fn jump_over_too_much_code_is_reported() {
    let mut source = String::from("if (true) {");
    for _ in 0..8000 {
        source.push_str("print nil or nil;");
    }
    source.push('}');
    let outcome = run_source(&source);
    assert!(!outcome.ok);
    assert_eq!(outcome.errors, vec!["[line 1] Error at '}': Too much code to jump over.".to_string()]);
}

#[test]
fn loop_body_too_large_is_reported() {
    let mut source = String::from("while (true) {");
    for _ in 0..8000 {
        source.push_str("print nil or nil;");
    }
    source.push('}');
    let outcome = run_source(&source);
    assert!(!outcome.ok);
    assert_eq!(outcome.errors, vec!["[line 1] Error at '}': Loop body too large.".to_string()]);
}

#[test]
fn deep_expression_overflows_the_stack() {
    let mut source = String::from("print nil");
    for _ in 0..300 {
        source.push_str(" == (nil");
    }
    for _ in 0..300 {
        source.push(')');
    }
    source.push(';');
    expect_runtime_error(&source, "Stack overflow.");
}

#[test]
fn every_statement_leaves_the_stack_as_it_was() {
    let sources = [
        "1 + 2;",
        "var a = 1;",
        "print 1;",
        "if (true) 1; else 2;",
        "if (false) 1;",
        "var i = 0; while (i < 3) i = i + 1;",
        "for (var i = 0; i < 3; i = i + 1) { var j = i; }",
        "{ var a = 1; { var b = 2; } var c = 3; }",
        "true and false; nil or 1;",
    ];
    for source in sources {
        let outcome = run_source(source);
        assert_eq!(outcome.result, Some(InterpretResult::InterpretOk), "{}", source);
        assert_eq!(outcome.stack_depth, 0, "{}", source);
    }
}

#[test]
fn missing_literal_values_count_as_zero() {
    let compilation = compile("print 5;".to_string(), Vec::new());
    assert!(compilation.ok);
    assert_eq!(compilation.code.values.len(), 1);
    assert!(matches!(compilation.code.values[0].0, ValueRepr::Number(0)));
}

#[test]
fn each_missing_token_has_its_message() {
    let cases = [
        ("var 1 = 2;", "[line 1] Error at '1': Expect variable name"),
        ("var a = 1", "[line 1] Error at end: Expect ';' after variable declaration."),
        ("if true) print 1;", "[line 1] Error at 'true': Expect '(' after 'if'."),
        ("if (true print 1;", "[line 1] Error at 'print': Expect ')' after condition."),
        ("while true) print 1;", "[line 1] Error at 'true': Expect '(' after 'while'."),
        ("while (true print 1;", "[line 1] Error at 'print': Expect ')' after condition."),
        ("for var i = 0;;) print 1;", "[line 1] Error at 'var': Expect '(' after 'for'."),
        ("for (;true) print 1;", "[line 1] Error at ')': Expect ';' after loop condition."),
        ("for (;;1 print 1;", "[line 1] Error at 'print': Expect ')' after for clauses."),
        ("print (1;", "[line 1] Error at ';': Expect ')' after expression."),
        ("1 +;", "[line 1] Error at ';': expected expression"),
        ("print 1;\nprint 2 3;", "[line 2] Error at '3': Expect ';' after value."),
    ];
    for (source, error) in cases {
        expect_compile_error(source, error);
    }
}

#[test]
fn blocks_nest_only_so_deep() {
    let mut source = String::new();
    for _ in 0..127 {
        source.push('{');
    }
    source.push_str("print 1;");
    for _ in 0..127 {
        source.push('}');
    }
    expect_output(&source, &["1"]);
    let source = format!("{{{}}}", source);
    let outcome = run_source(&source);
    assert!(!outcome.ok);
    assert_eq!(outcome.errors[0], "[line 1] Error at '{': Too many nested blocks.");
}

#[test]
fn compile_errors_do_not_run() {
    let outcome = run_source("print 1; print ;");
    assert_eq!(outcome.result, Some(InterpretResult::InterpretCompileError));
    assert!(outcome.output.is_empty());
}

#[test]
fn compiled_constants_fit_the_pool() {
    let mut source = String::new();
    for i in 0..256 {
        source.push_str(&format!("{};", i));
    }
    let compilation = compile(source.clone(), literal_values(&source));
    assert!(compilation.ok);
    assert_eq!(compilation.code.values.len(), 256);
    assert_eq!(&compilation.code.code[765..], &[1, 255, 15, 0]);
}

#[test]
fn texts_of_any_language_are_printed() {
    expect_output("var s = \"h\u{e9}llo \u{4e16}\u{754c}\"; print s + \"!\";", &["h\u{e9}llo \u{4e16}\u{754c}!"]);
}

#[test]
fn runtime_errors_are_reported_with_a_line() {
    let mut vm = VM::new();
    let outcome = run_on(&mut vm, "print nothing;");
    assert_eq!(outcome.result, Some(InterpretResult::InterpretRuntimeError));
    assert_eq!(vm.error_report(), "Undefined variable 'nothing'.\n[line 0] in script\n");
}

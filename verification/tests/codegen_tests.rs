use adan::code_gen::builder::{CodeGenContext, ModuleValue, NativeFunc, NativeId, NativeModule};
use adan::code_gen::expressions::{
    build_float_mod, call_native, codegen_expressions, resolve, resolve_function, resolve_module,
    split_callee, storage_type, Resolved,
};
use adan::code_gen::ir::{
    BinaryOp, Block, BlockLabel, BlockRef, Function, Instr, IrType, Module, Value, ValueKind,
};
use adan::code_gen::registry::{native_module_for, NativeRegistry};
use adan::code_gen::statements::{
    add_loaded_source, build_branch_end, is_cursor_terminated, codegen_function, codegen_statements, collect_includes,
    load_native_registry, next_source, register_module, source_file_path, zero_value,
};
use adan::lexer::lexer::Lexer;
use adan::lexer::token::Types;
use adan::native::io::{printf, register_native};
use adan::parser::ast::{Expr, FunctionDecl, Literal, Operation, Statement};
use adan::parser::parser::Parser;

fn number(text: &str) -> Expr {
    Expr::Literal(Literal::Number(text.to_string()))
}

fn text(s: &str) -> Expr {
    Expr::Literal(Literal::String(s.to_string()))
}

fn boolean(b: bool) -> Expr {
    Expr::Literal(Literal::Bool(b))
}

/// A read of a variable, as the parser makes it: the node names no type.
fn read(name: &str) -> Expr {
    Expr::Variable { var_name: name.to_string(), var_type: None }
}

fn binary(left: Expr, op: Operation, right: Expr) -> Expr {
    Expr::Binary { left: Box::new(left), op, right: Box::new(right) }
}

fn unary(op: Operation, right: Expr) -> Expr {
    Expr::Unary { op, right: Box::new(right) }
}

fn call(callee: &str, args: Vec<Expr>) -> Expr {
    Expr::FCall { callee: callee.to_string(), args }
}

fn declare(name: &str, ty: Option<Types>, init: Option<Expr>) -> Statement {
    Statement::VarDecl { name: name.to_string(), var_type: ty, initializer: init }
}

fn function(name: &str, params: &[&str], body: Vec<Statement>) -> FunctionDecl {
    FunctionDecl {
        name: name.to_string(),
        params: params.iter().map(|p| p.to_string()).collect(),
        body,
    }
}

fn parse(source: &str) -> Vec<Statement> {
    Parser::new(Lexer::new(source).tokenize().unwrap()).parse().unwrap()
}

/// A context whose cursor is in the entry block of an empty function.
fn in_function() -> CodeGenContext {
    let mut ctx = CodeGenContext::new("test");
    let f = ctx.add_function("host".to_string(), vec![], IrType::F64, false);
    let entry = ctx.append_block_to(f, BlockLabel::Entry);
    ctx.position_at_end(entry);
    ctx
}

fn instrs(ctx: &CodeGenContext, func: usize, block: usize) -> Vec<String> {
    ctx.module().functions[func].blocks[block].instrs.iter().map(|i| format!("{:?}", i)).collect()
}

fn labels(ctx: &CodeGenContext, func: usize) -> Vec<BlockLabel> {
    ctx.module().functions[func].blocks.iter().map(|b| b.label).collect()
}

fn at(func: usize, block: usize) -> BlockRef {
    BlockRef { func, block }
}

fn result(func: usize, block: usize, index: usize, ty: IrType) -> Value {
    Value::Result { at: at(func, block), index, ty }
}

#[test]
fn a_declared_variable_reads_back_what_was_stored() {
    let mut ctx = CodeGenContext::new("m");
    let registry = NativeRegistry::new();
    let decl = function(
        "main",
        &[],
        vec![
            declare("x", Some(Types::F64), Some(number("7.5"))),
            Statement::Return { value: Some(read("x")) },
        ],
    );
    assert_eq!(codegen_function(&mut ctx, &decl, &registry), Ok(0));
    let module = ctx.module();
    assert_eq!(module.constants, vec!["7.5"]);
    assert_eq!(module.functions.len(), 1);
    let main = &module.functions[0];
    assert_eq!(main.name, "main");
    assert_eq!(main.ret, IrType::F64);
    assert!(main.params.is_empty());
    assert_eq!(format!("{:?}", main.slots), "[Slot { ty: F64, name: \"x\" }]");
    assert_eq!(labels(&ctx, 0), vec![BlockLabel::Entry]);
    assert_eq!(
        instrs(&ctx, 0, 0),
        vec![
            "Store { ptr: Slot { func: 0, index: 0 }, value: Float(0) }",
            "Load { ty: F64, ptr: Slot { func: 0, index: 0 } }",
            "Ret { value: Some(Result { at: BlockRef { func: 0, block: 0 }, index: 1, ty: F64 }) }",
        ]
    );
    assert_eq!(ctx.variable("x"), Some(Value::Slot { func: 0, index: 0 }));
}

#[test]
fn an_assignment_is_a_value_and_later_reads_see_it() {
    let mut ctx = in_function();
    let registry = NativeRegistry::new();
    codegen_statements(&mut ctx, &declare("x", Some(Types::F64), Some(number("7.5"))), &registry)
        .unwrap();
    let assign = Expr::Assign { name: "x".to_string(), value: Box::new(number("2.0")) };
    assert_eq!(codegen_expressions(&mut ctx, &assign, &registry), Ok(Value::Float(1)));
    assert_eq!(
        codegen_expressions(&mut ctx, &read("x"), &registry),
        Ok(result(0, 0, 2, IrType::F64))
    );
    assert_eq!(ctx.module().constants, vec!["7.5", "2.0"]);
    assert_eq!(
        instrs(&ctx, 0, 0),
        vec![
            "Store { ptr: Slot { func: 0, index: 0 }, value: Float(0) }",
            "Store { ptr: Slot { func: 0, index: 0 }, value: Float(1) }",
            "Load { ty: F64, ptr: Slot { func: 0, index: 0 } }",
        ]
    );
}

#[test]
fn a_float_modulo_calls_the_host_remainder() {
    let mut ctx = in_function();
    let registry = NativeRegistry::new();
    let e = binary(number("7.5"), Operation::Modulo, number("2.0"));
    assert_eq!(codegen_expressions(&mut ctx, &e, &registry), Ok(result(0, 0, 0, IrType::F64)));
    let module = ctx.module();
    assert_eq!(module.functions.len(), 2);
    let fmod = &module.functions[1];
    assert_eq!(fmod.name, "fmod");
    assert_eq!(fmod.params, vec![IrType::F64, IrType::F64]);
    assert_eq!(fmod.ret, IrType::F64);
    assert!(!fmod.variadic);
    assert!(fmod.blocks.is_empty());
    assert_eq!(instrs(&ctx, 0, 0), vec!["Call { callee: 1, args: [Float(0), Float(1)] }"]);
    // The host routine is declared once.
    codegen_expressions(&mut ctx, &e, &registry).unwrap();
    assert_eq!(ctx.module().functions.len(), 2);
    assert_eq!(instrs(&ctx, 0, 0)[1], "Call { callee: 1, args: [Float(2), Float(3)] }");
    assert_eq!(
        build_float_mod(&mut ctx, Value::FloatZero, Value::FloatZero),
        Ok(result(0, 0, 2, IrType::F64))
    );
}

#[test]
fn a_conditional_branches_on_whether_its_condition_differs_from_zero() {
    let mut ctx = in_function();
    let registry = NativeRegistry::new();
    let stmt = Statement::If {
        condition: number("1.0"),
        then_branch: Box::new(Statement::Block(vec![Statement::Expression(number("10"))])),
        else_branch: Some(Box::new(Statement::Block(vec![Statement::Expression(number(
            "20",
        ))]))),
    };
    assert_eq!(codegen_statements(&mut ctx, &stmt, &registry), Ok(()));
    assert_eq!(
        labels(&ctx, 0),
        vec![BlockLabel::Entry, BlockLabel::Then, BlockLabel::Else, BlockLabel::IfCont]
    );
    assert_eq!(
        instrs(&ctx, 0, 0),
        vec![
            "Binary { op: FloatNotEqual, lhs: Float(0), rhs: FloatZero }",
            "CondBr { cond: Result { at: BlockRef { func: 0, block: 0 }, index: 0, ty: Bool }, then_block: BlockRef { func: 0, block: 1 }, else_block: BlockRef { func: 0, block: 2 } }",
        ]
    );
    assert_eq!(instrs(&ctx, 0, 1), vec!["Br { target: BlockRef { func: 0, block: 3 } }"]);
    assert_eq!(instrs(&ctx, 0, 2), vec!["Br { target: BlockRef { func: 0, block: 3 } }"]);
    assert!(instrs(&ctx, 0, 3).is_empty());
    assert_eq!(ctx.cursor(), Some(at(0, 3)));
    assert_eq!(ctx.module().constants, vec!["1.0", "10", "20"]);
}

#[test]
fn a_conditional_without_else_falls_through_to_the_merge_block() {
    let mut ctx = in_function();
    let registry = NativeRegistry::new();
    let stmt = Statement::If {
        condition: number("0.0"),
        then_branch: Box::new(Statement::Block(vec![])),
        else_branch: None,
    };
    assert_eq!(codegen_statements(&mut ctx, &stmt, &registry), Ok(()));
    assert_eq!(labels(&ctx, 0), vec![BlockLabel::Entry, BlockLabel::Then, BlockLabel::IfCont]);
    assert_eq!(
        instrs(&ctx, 0, 0)[1],
        "CondBr { cond: Result { at: BlockRef { func: 0, block: 0 }, index: 0, ty: Bool }, then_block: BlockRef { func: 0, block: 1 }, else_block: BlockRef { func: 0, block: 2 } }"
    );
    assert_eq!(instrs(&ctx, 0, 1), vec!["Br { target: BlockRef { func: 0, block: 2 } }"]);
    assert_eq!(ctx.cursor(), Some(at(0, 2)));
}

#[test]
fn branches_that_return_get_no_jump_behind_the_return() {
    for condition in ["1.0", "0.0"] {
        let mut ctx = CodeGenContext::new("m");
        let registry = NativeRegistry::new();
        let decl = function(
            "f",
            &[],
            vec![Statement::If {
                condition: number(condition),
                then_branch: Box::new(Statement::Block(vec![Statement::Return {
                    value: Some(number("1.0")),
                }])),
                else_branch: Some(Box::new(Statement::Block(vec![Statement::Return {
                    value: Some(number("0.0")),
                }]))),
            }],
        );
        assert_eq!(codegen_function(&mut ctx, &decl, &registry), Ok(0));
        let f = &ctx.module().functions[0];
        assert_eq!(f.name, "f");
        assert!(f.params.is_empty());
        assert!(f.verify());
        assert_eq!(
            labels(&ctx, 0),
            vec![BlockLabel::Entry, BlockLabel::Then, BlockLabel::Else, BlockLabel::IfCont]
        );
        assert_eq!(
            instrs(&ctx, 0, 0),
            vec![
                "Binary { op: FloatNotEqual, lhs: Float(0), rhs: FloatZero }",
                "CondBr { cond: Result { at: BlockRef { func: 0, block: 0 }, index: 0, ty: Bool }, then_block: BlockRef { func: 0, block: 1 }, else_block: BlockRef { func: 0, block: 2 } }",
            ]
        );
        assert_eq!(instrs(&ctx, 0, 1), vec!["Ret { value: Some(Float(1)) }"]);
        assert_eq!(instrs(&ctx, 0, 2), vec!["Ret { value: Some(Float(2)) }"]);
        // The block where the branches would meet gets the default return.
        assert_eq!(instrs(&ctx, 0, 3), vec!["Ret { value: Some(FloatZero) }"]);
        assert_eq!(ctx.module().constants, vec![condition, "1.0", "0.0"]);
    }
}

#[test]
fn a_branch_that_returns_and_one_that_does_not() {
    let mut ctx = CodeGenContext::new("m");
    let registry = NativeRegistry::new();
    let stmts = parse(
        "program -> f(a: f64) { if (a) { return 1; } else { a; } if (a) { a; } else { return 2; } if (a) { return 3; } return 4; }",
    );
    assert_eq!(codegen_statements(&mut ctx, &stmts[0], &registry), Ok(()));
    assert!(ctx.module().functions[0].verify());
    let last: Vec<String> = ctx.module().functions[0]
        .blocks
        .iter()
        .map(|b| format!("{:?}", b.instrs.last().unwrap()))
        .collect();
    assert_eq!(last[1], "Ret { value: Some(Float(0)) }");
    assert_eq!(last[2], "Br { target: BlockRef { func: 0, block: 3 } }");
    assert_eq!(last[4], "Br { target: BlockRef { func: 0, block: 6 } }");
    assert_eq!(last[5], "Ret { value: Some(Float(1)) }");
    assert_eq!(last[7], "Ret { value: Some(Float(2)) }");
    assert_eq!(last[8], "Ret { value: Some(Float(3)) }");
}

#[test]
fn a_conditional_inside_a_conditional_is_lowered() {
    let mut ctx = CodeGenContext::new("m");
    let registry = NativeRegistry::new();
    let stmts = parse("program -> f(a: f64) { if (a) { if (a) { a; } } while (a) { if (a) { a; } } }");
    let Statement::Function(decl) = &stmts[0] else {
        panic!("no function was parsed");
    };
    assert_eq!(codegen_function(&mut ctx, decl, &registry), Ok(0));
    let f = &ctx.module().functions[0];
    assert!(f.verify());
    // The default return is in the block where the lowering ended, which
    // is not the last block of the function.
    assert_eq!(ctx.cursor(), Some(at(0, 7)));
    assert_eq!(f.blocks.len(), 10);
    assert_eq!(instrs(&ctx, 0, 7), vec!["Ret { value: Some(FloatZero) }"]);
}

#[test]
fn a_loop_body_that_returns_gets_no_jump_back() {
    let mut ctx = CodeGenContext::new("m");
    let registry = NativeRegistry::new();
    let stmts = parse("program -> f(a: f64) { while (a) { return a; } }");
    assert_eq!(codegen_statements(&mut ctx, &stmts[0], &registry), Ok(()));
    assert!(ctx.module().functions[0].verify());
    assert_eq!(
        instrs(&ctx, 0, 2),
        vec![
            "Load { ty: F64, ptr: Slot { func: 0, index: 0 } }",
            "Ret { value: Some(Result { at: BlockRef { func: 0, block: 2 }, index: 0, ty: F64 }) }",
        ]
    );
}

#[test]
fn nested_conditionals_whose_branches_all_return() {
    let mut ctx = CodeGenContext::new("m");
    let registry = NativeRegistry::new();
    let stmts = parse(
        "program -> f(a: f64) { if (a) { if (a) { return 1; } else { return 2; } } else { return 3; } }",
    );
    assert_eq!(codegen_statements(&mut ctx, &stmts[0], &registry), Ok(()));
    let f = &ctx.module().functions[0];
    assert!(f.verify());
    // The inner meeting block is where the outer then branch ends: it is
    // empty, so it gets the jump to the outer meeting block.
    assert_eq!(
        labels(&ctx, 0),
        vec![
            BlockLabel::Entry,
            BlockLabel::Then,
            BlockLabel::Else,
            BlockLabel::IfCont,
            BlockLabel::Then,
            BlockLabel::Else,
            BlockLabel::IfCont
        ]
    );
    assert_eq!(instrs(&ctx, 0, 6), vec!["Br { target: BlockRef { func: 0, block: 3 } }"]);
    assert_eq!(instrs(&ctx, 0, 3), vec!["Ret { value: Some(FloatZero) }"]);
}

#[test]
fn a_loop_tests_its_condition_before_each_round() {
    let mut ctx = CodeGenContext::new("m");
    let registry = NativeRegistry::new();
    let decl = function(
        "count",
        &[],
        vec![
            declare("i", Some(Types::F64), Some(number("3"))),
            Statement::While {
                condition: read("i"),
                body: Box::new(Statement::Block(vec![Statement::Expression(Expr::Assign {
                    name: "i".to_string(),
                    value: Box::new(binary(read("i"), Operation::Subtract, number("1"))),
                })])),
            },
        ],
    );
    assert_eq!(codegen_function(&mut ctx, &decl, &registry), Ok(0));
    assert_eq!(
        labels(&ctx, 0),
        vec![
            BlockLabel::Entry,
            BlockLabel::WhileCond,
            BlockLabel::WhileBody,
            BlockLabel::WhileCont
        ]
    );
    assert_eq!(
        instrs(&ctx, 0, 0),
        vec![
            "Store { ptr: Slot { func: 0, index: 0 }, value: Float(0) }",
            "Br { target: BlockRef { func: 0, block: 1 } }",
        ]
    );
    assert_eq!(
        instrs(&ctx, 0, 1),
        vec![
            "Load { ty: F64, ptr: Slot { func: 0, index: 0 } }",
            "Binary { op: FloatNotEqual, lhs: Result { at: BlockRef { func: 0, block: 1 }, index: 0, ty: F64 }, rhs: FloatZero }",
            "CondBr { cond: Result { at: BlockRef { func: 0, block: 1 }, index: 1, ty: Bool }, then_block: BlockRef { func: 0, block: 2 }, else_block: BlockRef { func: 0, block: 3 } }",
        ]
    );
    assert_eq!(
        instrs(&ctx, 0, 2),
        vec![
            "Load { ty: F64, ptr: Slot { func: 0, index: 0 } }",
            "Binary { op: FSub, lhs: Result { at: BlockRef { func: 0, block: 2 }, index: 0, ty: F64 }, rhs: Float(1) }",
            "Store { ptr: Slot { func: 0, index: 0 }, value: Result { at: BlockRef { func: 0, block: 2 }, index: 1, ty: F64 } }",
            "Br { target: BlockRef { func: 0, block: 1 } }",
        ]
    );
    assert_eq!(instrs(&ctx, 0, 3), vec!["Ret { value: Some(FloatZero) }"]);
    assert_eq!(ctx.cursor(), Some(at(0, 3)));
    assert!(ctx.module().functions[0].verify());
}

#[test]
fn the_io_module_is_registered_by_the_first_call_only() {
    let registry = load_native_registry(&vec!["io.rs".to_string()]);
    let mut ctx = in_function();
    assert!(!ctx.has_module("io"));
    let first = codegen_expressions(&mut ctx, &call("io.out", vec![number("1")]), &registry);
    assert_eq!(first, Ok(Value::Float(0)));
    assert!(ctx.has_module("io"));
    let after_first = format!("{:?}", ctx.get_module("io"));
    assert_eq!(
        after_first,
        "Some(ModuleValue { functions: [(\"printf\", NativeFn(Printf)), (\"out\", NativeFn(Printf))], variables: [] })"
    );
    let second = codegen_expressions(&mut ctx, &call("io.out", vec![number("2")]), &registry);
    assert_eq!(second, Ok(Value::Float(1)));
    assert_eq!(format!("{:?}", ctx.get_module("io")), after_first);
    // Both calls were emitted, against one declaration of the host routine.
    let module = ctx.module();
    assert_eq!(module.functions.len(), 2);
    assert_eq!(module.functions[1].name, "printf");
    assert_eq!(module.functions[1].params, vec![IrType::Ptr]);
    assert_eq!(module.functions[1].ret, IrType::I32);
    assert!(module.functions[1].variadic);
    assert_eq!(
        format!("{:?}", module.globals),
        "[Text { name: \"fmt_float\", text: \"%f\\n\\0\" }, Text { name: \"fmt_float\", text: \"%f\\n\\0\" }]"
    );
    assert_eq!(
        instrs(&ctx, 0, 0),
        vec![
            "Call { callee: 1, args: [Global(0), Float(0)] }",
            "Call { callee: 1, args: [Global(1), Float(1)] }",
        ]
    );
}

#[test]
fn a_module_that_is_registered_is_left_as_it_is() {
    let registry = load_native_registry(&vec!["io.rs".to_string()]);
    let mut ctx = in_function();
    ctx.register_native_fn("io", "custom", NativeId::Printf);
    // The module is there, so the runtime's routine does not run: `out` stays unknown.
    assert_eq!(
        codegen_expressions(&mut ctx, &call("io.out", vec![number("1")]), &registry),
        Err("Function 'out' not defined in module 'io'".to_string())
    );
    assert_eq!(
        codegen_expressions(&mut ctx, &call("io.custom", vec![number("1")]), &registry),
        Ok(Value::Float(0))
    );
}

#[test]
fn an_unresolvable_call_is_an_error_and_emits_nothing() {
    let registry = load_native_registry(&vec!["io.rs".to_string()]);
    let mut ctx = in_function();
    assert_eq!(
        codegen_expressions(&mut ctx, &call("foo.bar", vec![number("1")]), &registry),
        Err("Function 'bar' not defined in module 'foo'".to_string())
    );
    assert!(!ctx.has_module("foo"));
    assert!(!ctx.has_module("io"));
    assert_eq!(ctx.module().functions.len(), 1);
    assert!(instrs(&ctx, 0, 0).is_empty());
    assert!(ctx.module().constants.is_empty());
    assert_eq!(
        codegen_expressions(&mut ctx, &call("bar", vec![]), &registry),
        Err("Function 'bar' not defined in module ''".to_string())
    );
    assert_eq!(
        codegen_expressions(&mut ctx, &call("io.nothing", vec![]), &registry),
        Err("Function 'nothing' not defined in module 'io'".to_string())
    );
    // Resolving `io` registered it, though the function is missing.
    assert!(ctx.has_module("io"));
}

#[test]
fn literals() {
    let mut ctx = in_function();
    let registry = NativeRegistry::new();
    assert_eq!(codegen_expressions(&mut ctx, &number("12"), &registry), Ok(Value::Float(0)));
    assert_eq!(
        codegen_expressions(&mut ctx, &boolean(true), &registry),
        Ok(Value::Int { ty: IrType::Bool, value: 1 })
    );
    assert_eq!(
        codegen_expressions(&mut ctx, &boolean(false), &registry),
        Ok(Value::Int { ty: IrType::Bool, value: 0 })
    );
    assert_eq!(
        codegen_expressions(&mut ctx, &Expr::Literal(Literal::Nil), &registry),
        Ok(Value::Null)
    );
    assert_eq!(codegen_expressions(&mut ctx, &text("hi"), &registry), Ok(Value::Global(0)));
    assert_eq!(codegen_expressions(&mut ctx, &text("ho"), &registry), Ok(Value::Global(1)));
    assert_eq!(
        format!("{:?}", ctx.module().globals),
        "[Text { name: \"str\", text: \"hi\" }, Text { name: \"str\", text: \"ho\" }]"
    );
    assert_eq!(ctx.module().constants, vec!["12"]);
    assert!(instrs(&ctx, 0, 0).is_empty());
}

#[test]
fn literals_need_no_insert_block() {
    let mut ctx = CodeGenContext::new("m");
    let registry = NativeRegistry::new();
    assert_eq!(codegen_expressions(&mut ctx, &number("1"), &registry), Ok(Value::Float(0)));
    assert_eq!(codegen_expressions(&mut ctx, &text("s"), &registry), Ok(Value::Global(0)));
}

#[test]
fn unary_operators() {
    let mut ctx = in_function();
    let registry = NativeRegistry::new();
    assert_eq!(
        codegen_expressions(&mut ctx, &unary(Operation::Negate, number("1")), &registry),
        Ok(result(0, 0, 0, IrType::F64))
    );
    assert_eq!(
        codegen_expressions(&mut ctx, &unary(Operation::Not, boolean(true)), &registry),
        Ok(result(0, 0, 1, IrType::Bool))
    );
    assert_eq!(
        instrs(&ctx, 0, 0),
        vec![
            "Unary { op: FNeg, operand: Float(0) }",
            "Unary { op: Not, operand: Int { ty: Bool, value: 1 } }",
        ]
    );
    assert_eq!(
        codegen_expressions(&mut ctx, &unary(Operation::Negate, boolean(true)), &registry),
        Err("Negate requires a float operand".to_string())
    );
    assert_eq!(
        codegen_expressions(&mut ctx, &unary(Operation::Not, number("1")), &registry),
        Err("Not requires an integer operand".to_string())
    );
    assert_eq!(
        codegen_expressions(&mut ctx, &unary(Operation::Negate, text("s")), &registry),
        Err("Negate requires a float operand".to_string())
    );
    // Another operator fails before its operand is lowered.
    let constants = ctx.module().constants.len();
    assert_eq!(
        codegen_expressions(&mut ctx, &unary(Operation::Add, number("1")), &registry),
        Err("Unary op not implemented: Add".to_string())
    );
    assert_eq!(ctx.module().constants.len(), constants);
}

#[test]
fn float_arithmetic() {
    let registry = NativeRegistry::new();
    let ops = [
        (Operation::Add, "FAdd"),
        (Operation::Subtract, "FSub"),
        (Operation::Multiply, "FMul"),
        (Operation::Divide, "FDiv"),
    ];
    for (op, name) in ops {
        let mut ctx = in_function();
        assert_eq!(
            codegen_expressions(&mut ctx, &binary(number("1"), op, number("2")), &registry),
            Ok(result(0, 0, 0, IrType::F64))
        );
        assert_eq!(
            instrs(&ctx, 0, 0),
            vec![format!("Binary {{ op: {}, lhs: Float(0), rhs: Float(1) }}", name)]
        );
    }
    for (op, name) in [(Operation::Equal, "Equal"), (Operation::Negate, "Negate"), (Operation::Not, "Not")] {
        let mut ctx = in_function();
        assert_eq!(
            codegen_expressions(&mut ctx, &binary(number("1"), op, number("2")), &registry),
            Err(format!("Unsupported float binary op {}", name))
        );
    }
}

#[test]
fn integer_arithmetic() {
    let registry = NativeRegistry::new();
    let ops = [
        (Operation::Add, "Add"),
        (Operation::Subtract, "Sub"),
        (Operation::Multiply, "Mul"),
        (Operation::Divide, "SDiv"),
        (Operation::Modulo, "SRem"),
    ];
    for (op, name) in ops {
        let mut ctx = in_function();
        assert_eq!(
            codegen_expressions(&mut ctx, &binary(boolean(true), op, boolean(false)), &registry),
            Ok(result(0, 0, 0, IrType::Bool))
        );
        assert_eq!(
            instrs(&ctx, 0, 0),
            vec![format!(
                "Binary {{ op: {}, lhs: Int {{ ty: Bool, value: 1 }}, rhs: Int {{ ty: Bool, value: 0 }} }}",
                name
            )]
        );
    }
    let mut ctx = in_function();
    assert_eq!(
        codegen_expressions(
            &mut ctx,
            &binary(boolean(true), Operation::Equal, boolean(true)),
            &registry
        ),
        Err("Unsupported int binary op Equal".to_string())
    );
}

#[test]
fn strings_are_compared_by_the_host() {
    let mut ctx = in_function();
    let registry = NativeRegistry::new();
    assert_eq!(
        codegen_expressions(&mut ctx, &binary(text("a"), Operation::Equal, text("b")), &registry),
        Ok(result(0, 0, 3, IrType::Bool))
    );
    let module = ctx.module();
    assert_eq!(module.functions[1].name, "strcmp");
    assert_eq!(module.functions[1].params, vec![IrType::Ptr, IrType::Ptr]);
    assert_eq!(module.functions[1].ret, IrType::I32);
    assert_eq!(
        instrs(&ctx, 0, 0),
        vec![
            "Cast { value: Global(0), ty: Ptr }",
            "Cast { value: Global(1), ty: Ptr }",
            "Call { callee: 1, args: [Result { at: BlockRef { func: 0, block: 0 }, index: 0, ty: Ptr }, Result { at: BlockRef { func: 0, block: 0 }, index: 1, ty: Ptr }] }",
            "Binary { op: IntEqual, lhs: Result { at: BlockRef { func: 0, block: 0 }, index: 2, ty: I32 }, rhs: Int { ty: I32, value: 0 } }",
        ]
    );
    assert_eq!(
        codegen_expressions(&mut ctx, &binary(text("a"), Operation::Add, text("b")), &registry),
        Err("Unsupported string binary operation Add".to_string())
    );
    assert_eq!(
        codegen_expressions(
            &mut ctx,
            &binary(Expr::Literal(Literal::Nil), Operation::Equal, text("b")),
            &registry
        ),
        Ok(result(0, 0, 7, IrType::Bool))
    );
    assert_eq!(ctx.module().functions.len(), 2);
}

#[test]
fn operands_of_different_kinds_are_a_type_mismatch() {
    let registry = NativeRegistry::new();
    let pairs = [
        (number("1"), boolean(true)),
        (boolean(true), number("1")),
        (text("s"), number("1")),
        (number("1"), text("s")),
        (boolean(true), text("s")),
        (Expr::Literal(Literal::Nil), boolean(false)),
    ];
    for (l, r) in pairs {
        let mut ctx = in_function();
        assert_eq!(
            codegen_expressions(&mut ctx, &binary(l, Operation::Add, r), &registry),
            Err("Type mismatch in binary operation".to_string())
        );
    }
}

#[test]
fn the_first_error_of_an_operand_is_the_error_of_the_operation() {
    let mut ctx = in_function();
    let registry = NativeRegistry::new();
    let e = binary(read("missing"), Operation::Add, read("gone"));
    assert_eq!(
        codegen_expressions(&mut ctx, &e, &registry),
        Err("Variable not declared: missing".to_string())
    );
    let e = binary(number("1"), Operation::Add, read("gone"));
    assert_eq!(
        codegen_expressions(&mut ctx, &e, &registry),
        Err("Variable not declared: gone".to_string())
    );
    // The left operand had been lowered.
    assert_eq!(ctx.module().constants, vec!["1"]);
}

#[test]
fn variables_have_to_be_declared() {
    let mut ctx = in_function();
    let registry = NativeRegistry::new();
    assert_eq!(
        codegen_expressions(&mut ctx, &read("x"), &registry),
        Err("Variable not declared: x".to_string())
    );
    let assign = Expr::Assign { name: "x".to_string(), value: Box::new(number("1")) };
    assert_eq!(
        codegen_expressions(&mut ctx, &assign, &registry),
        Err("Variable not declared: x".to_string())
    );
    // The value of the assignment was lowered before the name was looked up.
    assert_eq!(ctx.module().constants, vec!["1"]);
    assert!(instrs(&ctx, 0, 0).is_empty());
}

#[test]
fn a_variable_is_loaded_with_the_type_of_its_declaration() {
    let registry = NativeRegistry::new();
    let declared = [
        (Some(Types::F64), IrType::F64),
        (Some(Types::F32), IrType::F64),
        (Some(Types::i32), IrType::I64),
        (Some(Types::Boolean), IrType::I64),
        (Some(Types::String), IrType::Ptr),
        (Some(Types::Object), IrType::Ptr),
        (None, IrType::I64),
    ];
    for (var_type, ty) in declared {
        let mut ctx = in_function();
        codegen_statements(&mut ctx, &declare("v", var_type, None), &registry).unwrap();
        assert_eq!(codegen_expressions(&mut ctx, &read("v"), &registry), Ok(result(0, 0, 1, ty)));
        assert_eq!(
            instrs(&ctx, 0, 0)[1],
            format!("Load {{ ty: {:?}, ptr: Slot {{ func: 0, index: 0 }} }}", ty)
        );
    }
}

#[test]
fn a_read_that_names_a_type_is_loaded_with_that_type() {
    let mut ctx = in_function();
    let registry = NativeRegistry::new();
    codegen_statements(&mut ctx, &declare("v", Some(Types::i32), None), &registry).unwrap();
    let typed = Expr::Variable { var_name: "v".to_string(), var_type: Some(Types::F64) };
    assert_eq!(
        codegen_expressions(&mut ctx, &typed, &registry),
        Ok(result(0, 0, 1, IrType::F64))
    );
    let as_text = Expr::Variable { var_name: "v".to_string(), var_type: Some(Types::String) };
    assert_eq!(
        codegen_expressions(&mut ctx, &as_text, &registry),
        Ok(result(0, 0, 2, IrType::Ptr))
    );
}

#[test]
fn a_place_that_is_no_slot_is_read_as_a_pointer() {
    let mut ctx = in_function();
    let registry = NativeRegistry::new();
    ctx.set_variable("g".to_string(), Value::Global(3));
    ctx.set_variable("far".to_string(), Value::Slot { func: 0, index: 9 });
    ctx.set_variable("nowhere".to_string(), Value::Slot { func: 7, index: 0 });
    for name in ["g", "far", "nowhere"] {
        let r = codegen_expressions(&mut ctx, &read(name), &registry).unwrap();
        assert_eq!(r.ty(), IrType::Ptr);
    }
    assert_eq!(ctx.recorded_type(Value::Null), IrType::Ptr);
    assert_eq!(ctx.build_alloca("x"), Ok(Value::Slot { func: 0, index: 0 }));
    assert_eq!(ctx.recorded_type(Value::Slot { func: 0, index: 0 }), IrType::F64);
    assert_eq!(ctx.recorded_type(Value::Slot { func: 0, index: 1 }), IrType::Ptr);
}

#[test]
fn a_parsed_program_reads_its_variables_with_their_types() {
    let mut ctx = CodeGenContext::new("m");
    let registry = NativeRegistry::new();
    let stmts = parse(
        "program -> main(p: i8) { local f: f64 -> 3; local n: i32; local s: String; f; n; s; p; }",
    );
    assert_eq!(codegen_statements(&mut ctx, &stmts[0], &registry), Ok(()));
    let loads: Vec<String> =
        instrs(&ctx, 0, 0).into_iter().filter(|i| i.starts_with("Load")).collect();
    assert_eq!(
        loads,
        vec![
            "Load { ty: F64, ptr: Slot { func: 0, index: 1 } }",
            "Load { ty: I64, ptr: Slot { func: 0, index: 2 } }",
            "Load { ty: Ptr, ptr: Slot { func: 0, index: 3 } }",
            "Load { ty: F64, ptr: Slot { func: 0, index: 0 } }",
        ]
    );
}

#[test]
fn a_parsed_loop_on_a_float_variable_is_lowered() {
    let mut ctx = CodeGenContext::new("m");
    let registry = NativeRegistry::new();
    let stmts = parse("program -> main { local i: f64 -> 3; while (i) { i; } if (i) { } }");
    assert_eq!(codegen_statements(&mut ctx, &stmts[0], &registry), Ok(()));
    assert_eq!(
        instrs(&ctx, 0, 1),
        vec![
            "Load { ty: F64, ptr: Slot { func: 0, index: 0 } }",
            "Binary { op: FloatNotEqual, lhs: Result { at: BlockRef { func: 0, block: 1 }, index: 0, ty: F64 }, rhs: FloatZero }",
            "CondBr { cond: Result { at: BlockRef { func: 0, block: 1 }, index: 1, ty: Bool }, then_block: BlockRef { func: 0, block: 2 }, else_block: BlockRef { func: 0, block: 3 } }",
        ]
    );
    // A variable that is no float is no condition.
    let stmts = parse("program -> other { local n: i32; while (n) { } }");
    assert_eq!(
        codegen_statements(&mut ctx, &stmts[0], &registry),
        Err("Condition is not a float".to_string())
    );
}

#[test]
fn storage_types_and_zeros() {
    let ints = [
        Types::i8,
        Types::i32,
        Types::i64,
        Types::u8,
        Types::u32,
        Types::u64,
        Types::Boolean,
        Types::Char,
    ];
    for t in ints {
        assert_eq!(storage_type(Some(t)), IrType::I64);
    }
    assert_eq!(storage_type(Some(Types::F32)), IrType::F64);
    assert_eq!(storage_type(Some(Types::F64)), IrType::F64);
    assert_eq!(storage_type(Some(Types::String)), IrType::Ptr);
    assert_eq!(storage_type(Some(Types::Array)), IrType::Ptr);
    assert_eq!(storage_type(Some(Types::Object)), IrType::Ptr);
    assert_eq!(storage_type(None), IrType::I64);
    assert_eq!(zero_value(IrType::I64), Value::Int { ty: IrType::I64, value: 0 });
    assert_eq!(zero_value(IrType::Bool), Value::Int { ty: IrType::Bool, value: 0 });
    assert_eq!(zero_value(IrType::F64), Value::FloatZero);
    assert_eq!(zero_value(IrType::Ptr), Value::Null);
}

#[test]
fn declarations_without_initializer_store_the_zero_of_their_type() {
    let mut ctx = in_function();
    let registry = NativeRegistry::new();
    codegen_statements(&mut ctx, &declare("a", None, None), &registry).unwrap();
    codegen_statements(&mut ctx, &declare("b", Some(Types::F32), None), &registry).unwrap();
    codegen_statements(&mut ctx, &declare("c", Some(Types::Object), None), &registry).unwrap();
    assert_eq!(
        format!("{:?}", ctx.module().functions[0].slots),
        "[Slot { ty: I64, name: \"a\" }, Slot { ty: F64, name: \"b\" }, Slot { ty: Ptr, name: \"c\" }]"
    );
    assert_eq!(
        instrs(&ctx, 0, 0),
        vec![
            "Store { ptr: Slot { func: 0, index: 0 }, value: Int { ty: I64, value: 0 } }",
            "Store { ptr: Slot { func: 0, index: 1 }, value: FloatZero }",
            "Store { ptr: Slot { func: 0, index: 2 }, value: Null }",
        ]
    );
}

#[test]
fn the_last_declaration_of_a_name_wins() {
    let mut ctx = in_function();
    let registry = NativeRegistry::new();
    codegen_statements(&mut ctx, &declare("a", None, None), &registry).unwrap();
    codegen_statements(&mut ctx, &declare("b", None, None), &registry).unwrap();
    assert_eq!(ctx.variable("a"), Some(Value::Slot { func: 0, index: 0 }));
    codegen_statements(&mut ctx, &declare("a", Some(Types::F64), None), &registry).unwrap();
    assert_eq!(ctx.variable("a"), Some(Value::Slot { func: 0, index: 2 }));
    assert_eq!(ctx.variable("b"), Some(Value::Slot { func: 0, index: 1 }));
    assert_eq!(ctx.variable("c"), None);
}

#[test]
fn blocks_open_no_scope() {
    let mut ctx = in_function();
    let registry = NativeRegistry::new();
    let block = Statement::Block(vec![declare("inner", None, None)]);
    codegen_statements(&mut ctx, &block, &registry).unwrap();
    assert_eq!(ctx.variable("inner"), Some(Value::Slot { func: 0, index: 0 }));
}

#[test]
fn emission_needs_an_insert_block() {
    let registry = NativeRegistry::new();
    let stmts = vec![
        declare("x", None, None),
        Statement::Return { value: None },
        Statement::Expression(unary(Operation::Negate, number("1"))),
        Statement::While { condition: number("1"), body: Box::new(Statement::Block(vec![])) },
        Statement::If {
            condition: number("1"),
            then_branch: Box::new(Statement::Block(vec![])),
            else_branch: None,
        },
    ];
    for s in &stmts {
        let mut ctx = CodeGenContext::new("m");
        assert_eq!(codegen_statements(&mut ctx, s, &registry), Err("No insert block".to_string()));
    }
    let mut ctx = CodeGenContext::new("m");
    ctx.position_at_end(at(3, 0));
    assert_eq!(ctx.cursor(), Some(at(3, 0)));
    assert_eq!(ctx.get_insert_block(), None);
    assert_eq!(
        codegen_statements(&mut ctx, &stmts[1], &registry),
        Err("No insert block".to_string())
    );
}

#[test]
fn conditions_have_to_be_floats() {
    let registry = NativeRegistry::new();
    let mut ctx = in_function();
    let stmt = Statement::If {
        condition: boolean(true),
        then_branch: Box::new(Statement::Block(vec![])),
        else_branch: None,
    };
    assert_eq!(
        codegen_statements(&mut ctx, &stmt, &registry),
        Err("Condition is not a float".to_string())
    );
    assert_eq!(labels(&ctx, 0), vec![BlockLabel::Entry]);
    let mut ctx = in_function();
    let stmt = Statement::While { condition: text("s"), body: Box::new(Statement::Block(vec![])) };
    assert_eq!(
        codegen_statements(&mut ctx, &stmt, &registry),
        Err("Condition is not a float".to_string())
    );
    // The blocks of the loop had been made.
    assert_eq!(labels(&ctx, 0).len(), 4);
}

#[test]
fn return_statements() {
    let mut ctx = in_function();
    let registry = NativeRegistry::new();
    codegen_statements(&mut ctx, &Statement::Return { value: None }, &registry).unwrap();
    codegen_statements(&mut ctx, &Statement::Return { value: Some(boolean(true)) }, &registry)
        .unwrap();
    assert_eq!(
        instrs(&ctx, 0, 0),
        vec![
            "Ret { value: Some(FloatZero) }",
            "Ret { value: Some(Int { ty: Bool, value: 1 }) }",
        ]
    );
}

#[test]
fn a_function_binds_its_parameters_and_returns_zero_by_default() {
    let mut ctx = CodeGenContext::new("m");
    let registry = NativeRegistry::new();
    let decl = function("add", &["a", "b"], vec![]);
    assert_eq!(codegen_function(&mut ctx, &decl, &registry), Ok(0));
    let f = &ctx.module().functions[0];
    assert_eq!(f.name, "add");
    assert_eq!(f.params, vec![IrType::F64, IrType::F64]);
    assert_eq!(f.ret, IrType::F64);
    assert!(!f.variadic);
    assert_eq!(
        format!("{:?}", f.slots),
        "[Slot { ty: F64, name: \"a\" }, Slot { ty: F64, name: \"b\" }]"
    );
    assert_eq!(
        instrs(&ctx, 0, 0),
        vec![
            "Store { ptr: Slot { func: 0, index: 0 }, value: Param { func: 0, index: 0 } }",
            "Store { ptr: Slot { func: 0, index: 1 }, value: Param { func: 0, index: 1 } }",
            "Ret { value: Some(FloatZero) }",
        ]
    );
    assert_eq!(ctx.variable("a"), Some(Value::Slot { func: 0, index: 0 }));
    assert_eq!(ctx.variable("b"), Some(Value::Slot { func: 0, index: 1 }));
    assert_eq!(ctx.cursor(), Some(at(0, 0)));
    // A second function gets the next index.
    assert_eq!(codegen_function(&mut ctx, &function("other", &[], vec![]), &registry), Ok(1));
    assert_eq!(ctx.cursor(), Some(at(1, 0)));
}

#[test]
fn a_function_that_returns_gets_no_second_return() {
    let mut ctx = CodeGenContext::new("m");
    let registry = NativeRegistry::new();
    let decl = function("one", &[], vec![Statement::Return { value: Some(number("1")) }]);
    assert_eq!(codegen_function(&mut ctx, &decl, &registry), Ok(0));
    assert_eq!(instrs(&ctx, 0, 0), vec!["Ret { value: Some(Float(0)) }"]);
}

#[test]
fn statements_behind_a_return_fail_the_structural_check() {
    let mut ctx = CodeGenContext::new("m");
    let registry = NativeRegistry::new();
    let decl = function(
        "early",
        &[],
        vec![Statement::Return { value: None }, Statement::Return { value: None }],
    );
    assert_eq!(
        codegen_function(&mut ctx, &decl, &registry),
        Err("Function verification failed".to_string())
    );
}

#[test]
fn a_function_of_the_source_can_be_called_once_it_was_declared() {
    let mut ctx = CodeGenContext::new("m");
    let registry = NativeRegistry::new();
    let stmts = parse("program -> one { return 1; } program -> main { one(); one(); }");
    for s in &stmts {
        assert_eq!(codegen_statements(&mut ctx, s, &registry), Ok(()));
    }
    assert_eq!(ctx.module().functions.len(), 2);
    assert_eq!(
        instrs(&ctx, 1, 0),
        vec![
            "Call { callee: 0, args: [] }",
            "Call { callee: 0, args: [] }",
            "Ret { value: Some(FloatZero) }",
        ]
    );
    assert_eq!(
        format!("{:?}", ctx.get_module("")),
        "Some(ModuleValue { functions: [(\"one\", Lowered(0)), (\"main\", Lowered(1))], variables: [] })"
    );
}

#[test]
fn a_function_can_call_itself() {
    let mut ctx = CodeGenContext::new("m");
    let registry = NativeRegistry::new();
    let stmts = parse("program -> again(n: f64) { again(n); }");
    assert_eq!(codegen_statements(&mut ctx, &stmts[0], &registry), Ok(()));
    assert_eq!(ctx.module().functions.len(), 1);
    assert_eq!(
        instrs(&ctx, 0, 0),
        vec![
            "Store { ptr: Slot { func: 0, index: 0 }, value: Param { func: 0, index: 0 } }",
            "Load { ty: F64, ptr: Slot { func: 0, index: 0 } }",
            "Call { callee: 0, args: [Result { at: BlockRef { func: 0, block: 0 }, index: 1, ty: F64 }] }",
            "Ret { value: Some(FloatZero) }",
        ]
    );
}

#[test]
fn a_function_that_is_declared_later_cannot_be_called_yet() {
    let mut ctx = CodeGenContext::new("m");
    let registry = NativeRegistry::new();
    let stmts = parse("program -> main { later(); } program -> later { }");
    assert_eq!(
        codegen_statements(&mut ctx, &stmts[0], &registry),
        Err("Function 'later' not defined in module ''".to_string())
    );
}

#[test]
fn nested_functions_are_lowered_like_others() {
    let mut ctx = CodeGenContext::new("m");
    let registry = NativeRegistry::new();
    let stmts = parse("program -> outer { program -> inner { return 1; } inner(); }");
    assert_eq!(codegen_statements(&mut ctx, &stmts[0], &registry), Ok(()));
    assert_eq!(ctx.module().functions.len(), 2);
    assert_eq!(ctx.module().functions[1].name, "inner");
    assert_eq!(instrs(&ctx, 1, 0), vec!["Ret { value: Some(Float(0)) }"]);
    // What follows the inner function goes into the outer one.
    assert_eq!(
        instrs(&ctx, 0, 0),
        vec!["Call { callee: 1, args: [] }", "Ret { value: Some(FloatZero) }"]
    );
    assert!(ctx.module().functions[0].verify());
    assert!(ctx.module().functions[1].verify());
    // A declaration at the top level leaves the cursor where it was: nowhere.
    assert_eq!(ctx.cursor(), None);
}

#[test]
fn including_a_module_of_the_runtime_registers_it_once() {
    let registry = load_native_registry(&vec!["io.rs".to_string()]);
    let mut ctx = CodeGenContext::new("m");
    let stmt = Statement::Include("io".to_string());
    assert_eq!(codegen_statements(&mut ctx, &stmt, &registry), Ok(()));
    let once = format!("{:?}", ctx.get_module("io"));
    assert!(once.contains("printf"));
    assert_eq!(codegen_statements(&mut ctx, &stmt, &registry), Ok(()));
    assert_eq!(format!("{:?}", ctx.get_module("io")), once);
}

#[test]
fn including_a_source_module_keeps_its_functions_for_the_first_call() {
    let mut registry = NativeRegistry::new();
    registry.add_source(
        "lib.util".to_string(),
        "program -> twice(a: f64) { return a; } local counter: i32 -> 5; local name: String; twice(1);"
            .to_string(),
    );
    let mut ctx = in_function();
    assert_eq!(
        codegen_statements(&mut ctx, &Statement::Include("lib.util".to_string()), &registry),
        Ok(())
    );
    // Nothing was lowered, nothing was executed; the variables have storage.
    assert_eq!(ctx.module().functions.len(), 1);
    assert!(instrs(&ctx, 0, 0).is_empty());
    assert!(ctx.module().constants.is_empty());
    assert_eq!(
        format!("{:?}", ctx.module().globals),
        "[Variable { name: \"counter\", ty: I64 }, Variable { name: \"name\", ty: Ptr }]"
    );
    let module = ctx.get_module("lib.util").unwrap();
    assert_eq!(module.functions.len(), 1);
    assert_eq!(module.functions[0].0, "twice");
    assert!(matches!(&module.functions[0].1, NativeFunc::AdanFunction(d) if d.name == "twice" && d.params == vec!["a".to_string()]));
    assert_eq!(
        format!("{:?}", module.variables),
        "[(\"counter\", Global(0)), (\"name\", Global(1))]"
    );
    assert!(matches!(module.get_function("twice"), Some(NativeFunc::AdanFunction(_))));
    assert!(module.get_function("thrice").is_none());

    // The first call lowers the function; the call is emitted in the caller.
    let e = call("lib.util.twice", vec![number("4")]);
    assert_eq!(codegen_expressions(&mut ctx, &e, &registry), Ok(result(0, 0, 0, IrType::F64)));
    assert_eq!(ctx.module().functions.len(), 2);
    assert_eq!(ctx.module().functions[1].name, "twice");
    assert_eq!(ctx.cursor(), Some(at(0, 0)));
    assert_eq!(instrs(&ctx, 0, 0), vec!["Call { callee: 1, args: [Float(0)] }"]);
    assert_eq!(
        instrs(&ctx, 1, 0),
        vec![
            "Store { ptr: Slot { func: 1, index: 0 }, value: Param { func: 1, index: 0 } }",
            "Load { ty: F64, ptr: Slot { func: 1, index: 0 } }",
            "Ret { value: Some(Result { at: BlockRef { func: 1, block: 0 }, index: 1, ty: F64 }) }",
        ]
    );
    assert!(matches!(
        ctx.get_module("lib.util").unwrap().get_function("twice"),
        Some(NativeFunc::Lowered(1))
    ));

    // The second call uses what the first one made.
    assert_eq!(codegen_expressions(&mut ctx, &e, &registry), Ok(result(0, 0, 1, IrType::F64)));
    assert_eq!(ctx.module().functions.len(), 2);
    assert_eq!(instrs(&ctx, 0, 0)[1], "Call { callee: 1, args: [Float(1)] }");

    // Including again does nothing.
    assert_eq!(
        codegen_statements(&mut ctx, &Statement::Include("lib.util".to_string()), &registry),
        Ok(())
    );
    assert_eq!(ctx.module().globals.len(), 2);
}

#[test]
fn a_source_module_is_not_registered_by_a_call() {
    let mut registry = NativeRegistry::new();
    registry.add_source("lib".to_string(), "program -> f { }".to_string());
    let mut ctx = in_function();
    assert_eq!(
        codegen_expressions(&mut ctx, &call("lib.f", vec![]), &registry),
        Err("Function 'f' not defined in module 'lib'".to_string())
    );
}

#[test]
fn source_modules_that_include_each_other_end() {
    let mut registry = NativeRegistry::new();
    registry.add_source(
        "a".to_string(),
        "program -> f { include b; b.g(); }".to_string(),
    );
    registry.add_source(
        "b".to_string(),
        "program -> g { include a; a.f(); }".to_string(),
    );
    let mut ctx = in_function();
    codegen_statements(&mut ctx, &Statement::Include("a".to_string()), &registry).unwrap();
    assert_eq!(
        codegen_expressions(&mut ctx, &call("a.f", vec![]), &registry),
        Ok(result(0, 0, 0, IrType::F64))
    );
    // f is function 1 and calls g, which is function 2 and calls f.
    assert_eq!(ctx.module().functions.len(), 3);
    assert_eq!(ctx.module().functions[1].name, "f");
    assert_eq!(ctx.module().functions[2].name, "g");
    assert_eq!(
        instrs(&ctx, 2, 0),
        vec!["Call { callee: 1, args: [] }", "Ret { value: Some(FloatZero) }"]
    );
    assert_eq!(
        instrs(&ctx, 1, 0),
        vec!["Call { callee: 2, args: [] }", "Ret { value: Some(FloatZero) }"]
    );
    assert_eq!(instrs(&ctx, 0, 0), vec!["Call { callee: 1, args: [] }"]);
}

#[test]
fn a_missing_include_is_an_error() {
    let registry = load_native_registry(&vec!["io.rs".to_string()]);
    let mut ctx = CodeGenContext::new("m");
    assert_eq!(
        codegen_statements(&mut ctx, &Statement::Include("nowhere.at.all".to_string()), &registry),
        Err("Module 'nowhere.at.all' not found".to_string())
    );
    assert!(!ctx.has_module("nowhere.at.all"));
}

#[test]
fn an_included_text_that_does_not_parse_is_an_error() {
    let mut registry = NativeRegistry::new();
    registry.add_source("bad".to_string(), "program -> { }".to_string());
    registry.add_source("worse".to_string(), "x + y;".to_string());
    let mut ctx = CodeGenContext::new("m");
    assert_eq!(
        codegen_statements(&mut ctx, &Statement::Include("bad".to_string()), &registry),
        Err("Expected identifier, got LCurlyBracket".to_string())
    );
    assert_eq!(
        codegen_statements(&mut ctx, &Statement::Include("worse".to_string()), &registry),
        Err("Expected symbol SemiColon".to_string())
    );
    assert!(!ctx.has_module("bad"));
}

#[test]
fn the_registry_knows_the_modules_of_the_runtime_by_their_files() {
    let files = vec![
        "http.rs".to_string(),
        "io.rs".to_string(),
        "io.txt".to_string(),
        "io".to_string(),
        "mod.rs".to_string(),
    ];
    let registry = load_native_registry(&files);
    assert_eq!(registry.native("io"), Some(NativeModule::Io));
    assert_eq!(registry.native("http"), None);
    assert_eq!(registry.native("io.rs"), None);
    assert_eq!(registry.native("mod"), None);
    assert_eq!(load_native_registry(&vec![]).native("io"), None);
    assert_eq!(native_module_for("io.rs"), Some(("io", NativeModule::Io)));
    assert_eq!(native_module_for("Io.rs"), None);
}

#[test]
fn the_registry_keeps_what_it_is_given() {
    let mut registry = NativeRegistry::new();
    assert_eq!(registry.native("out"), None);
    assert!(registry.source("a").is_none());
    registry.register("out".to_string(), NativeModule::Io);
    registry.add_source("a".to_string(), "one".to_string());
    registry.add_source("b".to_string(), "two".to_string());
    registry.add_source("a".to_string(), "three".to_string());
    assert_eq!(registry.native("out"), Some(NativeModule::Io));
    assert_eq!(registry.source("a"), Some(&"three".to_string()));
    assert_eq!(registry.source("b"), Some(&"two".to_string()));
    assert!(registry.source("c").is_none());
}

#[test]
fn native_modules_can_be_loaded_up_front() {
    let mut ctx = CodeGenContext::new("m");
    ctx.load_native_modules(&vec!["readme.md".to_string()]);
    assert!(!ctx.has_module("io"));
    ctx.load_native_modules(&vec!["io.rs".to_string(), "io.rs".to_string()]);
    assert_eq!(
        format!("{:?}", ctx.get_module("io")),
        "Some(ModuleValue { functions: [(\"printf\", NativeFn(Printf)), (\"out\", NativeFn(Printf))], variables: [] })"
    );
    let mut other = CodeGenContext::new("m");
    register_native(&mut other);
    assert_eq!(format!("{:?}", other.get_module("io")), format!("{:?}", ctx.get_module("io")));
    let mut third = CodeGenContext::new("m");
    register_module(&mut third, NativeModule::Io);
    assert_eq!(format!("{:?}", third.get_module("io")), format!("{:?}", ctx.get_module("io")));
}

#[test]
fn native_functions_are_registered_by_module_and_name() {
    let mut ctx = in_function();
    let registry = NativeRegistry::new();
    ctx.register_native_fn("term", "say", NativeId::Printf);
    ctx.register_native_fn("term", "tell", NativeId::Printf);
    ctx.register_native_fn("", "print", NativeId::Printf);
    assert!(ctx.has_module("term"));
    assert!(ctx.has_module(""));
    assert!(matches!(resolve_function(&ctx, "term", "say"), Resolved::Native(NativeId::Printf)));
    assert!(matches!(resolve_function(&ctx, "term", "shout"), Resolved::Missing));
    assert!(matches!(resolve_function(&ctx, "nope", "say"), Resolved::Missing));
    assert_eq!(
        codegen_expressions(&mut ctx, &call("print", vec![text("hi")]), &registry),
        Ok(Value::Global(0))
    );
    assert_eq!(
        format!("{:?}", ctx.module().globals),
        "[Text { name: \"str\", text: \"hi\" }, Text { name: \"fmt_str\", text: \"%s\\n\\0\" }]"
    );
    assert_eq!(instrs(&ctx, 0, 0), vec!["Call { callee: 1, args: [Global(1), Global(0)] }"]);
    // Registering under a name that is taken replaces what was there.
    ctx.set_function("term", "say", NativeFunc::Lowered(0));
    assert!(matches!(resolve_function(&ctx, "term", "say"), Resolved::Lowered(0)));
    assert!(matches!(resolve_function(&ctx, "term", "tell"), Resolved::Native(_)));
}

#[test]
fn printing_takes_a_number_or_a_text() {
    let mut ctx = in_function();
    assert_eq!(printf(&mut ctx, vec![]), Err("Unsupported argument type for out()".to_string()));
    // The host routine was declared before the arguments were looked at.
    assert_eq!(ctx.module().functions.len(), 2);
    assert_eq!(
        printf(&mut ctx, vec![Value::Int { ty: IrType::I64, value: 1 }]),
        Err("Unsupported argument type for out()".to_string())
    );
    assert!(ctx.module().globals.is_empty());
    assert_eq!(printf(&mut ctx, vec![Value::Null, Value::FloatZero]), Ok(Value::Null));
    assert_eq!(call_native(&mut ctx, NativeId::Printf, vec![Value::FloatZero]), Ok(Value::FloatZero));
    assert_eq!(
        instrs(&ctx, 0, 0),
        vec![
            "Call { callee: 1, args: [Global(0), Null] }",
            "Call { callee: 1, args: [Global(1), FloatZero] }",
        ]
    );
    let mut nowhere = CodeGenContext::new("m");
    assert_eq!(printf(&mut nowhere, vec![Value::FloatZero]), Err("No insert block".to_string()));
}

#[test]
fn a_module_is_resolved_before_its_function() {
    let registry = load_native_registry(&vec!["io.rs".to_string()]);
    let mut ctx = CodeGenContext::new("m");
    resolve_module(&mut ctx, &registry, "other");
    assert!(!ctx.has_module("other"));
    assert!(!ctx.has_module("io"));
    resolve_module(&mut ctx, &registry, "io");
    assert!(ctx.has_module("io"));
}

#[test]
fn resolving_registers_a_module_of_the_runtime_once() {
    let registry = load_native_registry(&vec!["io.rs".to_string()]);
    let mut ctx = CodeGenContext::new("m");
    let first = resolve(&mut ctx, &registry, "io.out");
    assert_eq!(first.module_name, "io");
    assert_eq!(first.name, "out");
    assert!(matches!(first.function, Resolved::Native(NativeId::Printf)));
    let once = format!("{:?}", ctx.get_module("io"));
    let second = resolve(&mut ctx, &registry, "io.out");
    assert!(matches!(second.function, Resolved::Native(NativeId::Printf)));
    assert_eq!(format!("{:?}", ctx.get_module("io")), once);
    let missing = resolve(&mut ctx, &registry, "foo.bar");
    assert_eq!(missing.module_name, "foo");
    assert_eq!(missing.name, "bar");
    assert!(matches!(missing.function, Resolved::Missing));
    assert!(!ctx.has_module("foo"));
    let root = resolve(&mut ctx, &registry, "main");
    assert_eq!(root.module_name, "");
    assert!(matches!(root.function, Resolved::Missing));
}

#[test]
fn callees_are_split_at_their_last_dot() {
    assert_eq!(split_callee("a.b.c"), ("a.b".to_string(), "c".to_string()));
    assert_eq!(split_callee("io.out"), ("io".to_string(), "out".to_string()));
    assert_eq!(split_callee("main"), ("".to_string(), "main".to_string()));
    assert_eq!(split_callee("a..b"), ("a.".to_string(), "b".to_string()));
    assert_eq!(split_callee(".f"), ("".to_string(), "f".to_string()));
    assert_eq!(split_callee("m."), ("m".to_string(), "".to_string()));
    assert_eq!(split_callee(""), ("".to_string(), "".to_string()));
}

#[test]
fn arguments_are_lowered_in_order() {
    let mut ctx = in_function();
    let registry = NativeRegistry::new();
    ctx.set_function("", "f", NativeFunc::Lowered(0));
    let e = call("f", vec![number("1"), text("two"), boolean(true), number("4")]);
    assert_eq!(codegen_expressions(&mut ctx, &e, &registry), Ok(result(0, 0, 0, IrType::F64)));
    assert_eq!(
        instrs(&ctx, 0, 0),
        vec!["Call { callee: 0, args: [Float(0), Global(0), Int { ty: Bool, value: 1 }, Float(1)] }"]
    );
    let bad = call("f", vec![number("5"), read("none"), number("6")]);
    assert_eq!(
        codegen_expressions(&mut ctx, &bad, &registry),
        Err("Variable not declared: none".to_string())
    );
    assert_eq!(ctx.module().constants, vec!["1", "4", "5"]);
}

#[test]
fn slots_and_returns_can_be_built_directly() {
    let mut ctx = CodeGenContext::new("m");
    assert_eq!(ctx.build_alloca("x"), Err("No insert block".to_string()));
    assert_eq!(ctx.build_return(None), Err("No insert block".to_string()));
    let mut ctx = in_function();
    assert_eq!(ctx.build_alloca("x"), Ok(Value::Slot { func: 0, index: 0 }));
    assert_eq!(ctx.build_alloca("y"), Ok(Value::Slot { func: 0, index: 1 }));
    assert_eq!(
        format!("{:?}", ctx.module().functions[0].slots),
        "[Slot { ty: F64, name: \"x\" }, Slot { ty: F64, name: \"y\" }]"
    );
    assert_eq!(ctx.build_return(None), Ok(()));
    assert_eq!(ctx.build_return(Some(Value::Null)), Ok(()));
    assert_eq!(
        instrs(&ctx, 0, 0),
        vec!["Ret { value: None }", "Ret { value: Some(Null) }"]
    );
}

#[test]
fn a_new_context_is_empty() {
    let ctx = CodeGenContext::new("adan_module");
    assert_eq!(ctx.module().name, "adan_module");
    assert!(ctx.module().functions.is_empty());
    assert!(ctx.module().globals.is_empty());
    assert!(ctx.module().constants.is_empty());
    assert_eq!(ctx.cursor(), None);
    assert_eq!(ctx.get_insert_block(), None);
    assert_eq!(ctx.function_count(), 0);
    assert_eq!(ctx.variable("x"), None);
    assert!(!ctx.has_module(""));
    assert!(ctx.get_module("").is_none());
}

#[test]
fn the_context_builds_the_module_piece_by_piece() {
    let mut ctx = CodeGenContext::new("m");
    assert_eq!(ctx.add_function("f".to_string(), vec![IrType::I64], IrType::Bool, true), 0);
    assert_eq!(ctx.declare("f", vec![], IrType::F64, false), 0);
    assert_eq!(ctx.declare("g", vec![], IrType::F64, false), 1);
    assert_eq!(ctx.function_ret(0), IrType::Bool);
    assert_eq!(ctx.function_ret(1), IrType::F64);
    assert_eq!(ctx.append_basic_block(BlockLabel::Then), Err("No insert block".to_string()));
    assert_eq!(ctx.append_block_to(0, BlockLabel::Entry), at(0, 0));
    ctx.set_cursor(Some(at(0, 0)));
    assert_eq!(ctx.append_basic_block(BlockLabel::Then), Ok(at(0, 1)));
    assert_eq!(ctx.emit(Instr::Br { target: at(0, 1) }), Ok(0));
    assert_eq!(
        ctx.emit_value(Instr::Load { ty: IrType::I64, ptr: Value::Null }, IrType::I64),
        Ok(result(0, 0, 1, IrType::I64))
    );
    assert_eq!(ctx.add_slot(IrType::Ptr, "p".to_string()), Ok(Value::Slot { func: 0, index: 0 }));
    assert_eq!(ctx.add_constant("1.5".to_string()), 0);
    ctx.set_variable("v".to_string(), Value::Global(7));
    assert_eq!(ctx.variable("v"), Some(Value::Global(7)));
    ctx.set_module("mine".to_string(), ModuleValue::new());
    assert!(ctx.has_module("mine"));
    ctx.set_cursor(None);
    assert_eq!(ctx.emit(Instr::Ret { value: None }), Err("No insert block".to_string()));
}

#[test]
fn blocks_and_functions_are_checked_for_their_terminators() {
    let ret = || Instr::Ret { value: None };
    let load = || Instr::Load { ty: IrType::F64, ptr: Value::Null };
    let block = |instrs: Vec<Instr>| Block { label: BlockLabel::Entry, instrs };
    assert!(!block(vec![]).is_terminated());
    assert!(!block(vec![]).is_well_formed());
    assert!(block(vec![ret()]).is_well_formed());
    assert!(block(vec![load(), load(), ret()]).is_well_formed());
    assert!(!block(vec![load()]).is_terminated());
    assert!(!block(vec![ret(), load()]).is_terminated());
    assert!(block(vec![ret(), ret()]).is_terminated());
    assert!(!block(vec![ret(), ret()]).is_well_formed());
    assert!(!block(vec![load(), Instr::Br { target: at(0, 0) }, load(), ret()]).is_well_formed());
    assert!(Instr::Br { target: at(0, 0) }.is_terminator());
    assert!(Instr::CondBr { cond: Value::Null, then_block: at(0, 0), else_block: at(0, 0) }
        .is_terminator());
    assert!(!Instr::Store { ptr: Value::Null, value: Value::Null }.is_terminator());
    assert!(!Instr::Call { callee: 0, args: vec![] }.is_terminator());
    let function = |blocks: Vec<Block>| Function {
        name: "f".to_string(),
        params: vec![],
        ret: IrType::F64,
        variadic: false,
        slots: vec![],
        blocks,
    };
    assert!(function(vec![]).verify());
    assert!(function(vec![block(vec![ret()]), block(vec![load(), ret()])]).verify());
    assert!(!function(vec![block(vec![ret()]), block(vec![])]).verify());
}

#[test]
fn values_have_types_and_kinds() {
    assert_eq!(Value::FloatZero.ty(), IrType::F64);
    assert_eq!(Value::Float(3).kind(), ValueKind::Float);
    assert_eq!(Value::Int { ty: IrType::I32, value: 9 }.ty(), IrType::I32);
    assert_eq!(Value::Int { ty: IrType::Bool, value: 1 }.kind(), ValueKind::Int);
    assert_eq!(Value::Null.kind(), ValueKind::Pointer);
    assert_eq!(Value::Global(0).ty(), IrType::Ptr);
    assert_eq!(Value::Slot { func: 0, index: 0 }.kind(), ValueKind::Pointer);
    assert_eq!(Value::Param { func: 0, index: 0 }.ty(), IrType::F64);
    assert_eq!(result(0, 0, 0, IrType::I64).kind(), ValueKind::Int);
    assert_eq!(IrType::I32.kind(), ValueKind::Int);
    assert_eq!(BinaryOp::FloatNotEqual.result_type(IrType::F64), IrType::Bool);
    assert_eq!(BinaryOp::IntEqual.result_type(IrType::I32), IrType::Bool);
    assert_eq!(BinaryOp::FAdd.result_type(IrType::F64), IrType::F64);
    assert_eq!(BinaryOp::SRem.result_type(IrType::I64), IrType::I64);
}

#[test]
fn a_module_finds_its_functions_by_name() {
    let mut module = Module::new("m");
    assert_eq!(module.find_function("f"), None);
    assert_eq!(module.add_function("f".to_string(), vec![], IrType::F64, false), 0);
    assert_eq!(module.add_function("g".to_string(), vec![], IrType::F64, false), 1);
    assert_eq!(module.add_function("f".to_string(), vec![], IrType::I32, false), 2);
    assert_eq!(module.find_function("f"), Some(0));
    assert_eq!(module.find_function("g"), Some(1));
    assert_eq!(module.find_function("h"), None);
    assert_eq!(module.add_block(1, BlockLabel::Entry), 0);
    assert_eq!(module.add_block(1, BlockLabel::Then), 1);
    assert!(module.has_block(at(1, 1)));
    assert!(!module.has_block(at(1, 2)));
    assert!(!module.has_block(at(0, 0)));
    assert!(!module.has_block(at(3, 0)));
    assert_eq!(module.emit(at(1, 1), Instr::Ret { value: None }), 0);
    assert_eq!(module.emit(at(1, 1), Instr::Ret { value: None }), 1);
    assert_eq!(module.functions[1].blocks[1].instrs.len(), 2);
    assert!(module.functions[1].blocks[0].instrs.is_empty());
}

#[test]
fn includes_are_collected_wherever_they_stand() {
    let stmts = parse(
        "include a; program -> f { include b.c; if (x) { include d; } else { while (y) { include e; } } } { include f; } g();",
    );
    let mut found = vec!["first".to_string()];
    collect_includes(&stmts, &mut found);
    assert_eq!(found, vec!["first", "a", "b.c", "d", "e", "f"]);
}

#[test]
fn include_paths_name_source_files() {
    assert_eq!(source_file_path("adan.std.math"), "adan/std/math.adn");
    assert_eq!(source_file_path("util"), "util.adn");
    assert_eq!(source_file_path(""), ".adn");
}

#[test]
fn a_whole_program_is_lowered_statement_by_statement() {
    let registry = load_native_registry(&vec!["io.rs".to_string()]);
    let mut ctx = CodeGenContext::new("adan_module");
    let stmts = parse("include io; program -> main { local x: f64 -> 3; io.printf(x); return x; }");
    for s in &stmts {
        assert_eq!(codegen_statements(&mut ctx, s, &registry), Ok(()));
    }
    assert_eq!(ctx.module().functions.len(), 2);
    assert_eq!(
        instrs(&ctx, 0, 0),
        vec![
            "Store { ptr: Slot { func: 0, index: 0 }, value: Float(0) }",
            "Load { ty: F64, ptr: Slot { func: 0, index: 0 } }",
            "Call { callee: 1, args: [Global(0), Result { at: BlockRef { func: 0, block: 0 }, index: 1, ty: F64 }] }",
            "Load { ty: F64, ptr: Slot { func: 0, index: 0 } }",
            "Ret { value: Some(Result { at: BlockRef { func: 0, block: 0 }, index: 3, ty: F64 }) }",
        ]
    );
    assert_eq!(
        format!("{:?}", ctx.module().globals),
        "[Text { name: \"fmt_float\", text: \"%f\\n\\0\" }]"
    );
    assert!(ctx.module().functions[0].verify());
}

#[test]
fn the_next_source_is_the_last_pending_path_that_needs_one() {
    let mut registry = load_native_registry(&vec!["io.rs".to_string()]);
    registry.add_source("have".to_string(), "".to_string());
    let mut pending: Vec<String> =
        ["a", "io", "b", "have", "io"].iter().map(|p| p.to_string()).collect();
    assert_eq!(next_source(&mut pending, &registry), Some("b".to_string()));
    assert_eq!(pending, vec!["a", "io"]);
    assert_eq!(next_source(&mut pending, &registry), Some("a".to_string()));
    assert!(pending.is_empty());
    assert_eq!(next_source(&mut pending, &registry), None);
    let mut none: Vec<String> = vec!["io".to_string(), "have".to_string()];
    assert_eq!(next_source(&mut none, &registry), None);
    assert!(none.is_empty());
}

#[test]
fn a_loaded_source_brings_its_includes_and_is_not_asked_for_again() {
    let mut registry = NativeRegistry::new();
    let mut pending = vec!["x".to_string()];
    add_loaded_source(
        &mut pending,
        &mut registry,
        "a".to_string(),
        "include b; program -> f { include a; include c.d; }".to_string(),
    );
    assert_eq!(pending, vec!["x", "b", "a", "c.d"]);
    assert_eq!(
        registry.source("a"),
        Some(&"include b; program -> f { include a; include c.d; }".to_string())
    );
    // The path that was loaded is passed over, though it is pending again.
    assert_eq!(next_source(&mut pending, &registry), Some("c.d".to_string()));
    assert_eq!(next_source(&mut pending, &registry), Some("b".to_string()));
    assert_eq!(pending, vec!["x"]);
    // A text without a parse is kept, and adds no path.
    add_loaded_source(&mut pending, &mut registry, "bad".to_string(), "include".to_string());
    assert_eq!(pending, vec!["x"]);
    assert_eq!(registry.source("bad"), Some(&"include".to_string()));
}

#[test]
fn sources_that_include_each_other_are_each_loaded_once() {
    let texts = [("a", "include b;"), ("b", "include a; include b; include io;")];
    let mut registry = load_native_registry(&vec!["io.rs".to_string()]);
    let mut pending = vec!["a".to_string()];
    let mut loaded = Vec::new();
    while let Some(path) = next_source(&mut pending, &registry) {
        let text = texts.iter().find(|(p, _)| *p == path).unwrap().1;
        loaded.push(path.clone());
        add_loaded_source(&mut pending, &mut registry, path, text.to_string());
    }
    assert_eq!(loaded, vec!["a", "b"]);
}

#[test]
fn a_function_of_the_host_can_be_registered_and_called() {
    let mut ctx = in_function();
    let registry = NativeRegistry::new();
    let puts = ctx.register_host_fn("term", "say", "puts", vec![IrType::Ptr], IrType::I32, false);
    assert_eq!(puts, 1);
    assert_eq!(ctx.module().functions[1].name, "puts");
    assert_eq!(ctx.module().functions[1].params, vec![IrType::Ptr]);
    assert!(matches!(
        resolve_function(&ctx, "term", "say"),
        Resolved::Native(NativeId::Host(1))
    ));
    assert_eq!(
        codegen_expressions(&mut ctx, &call("term.say", vec![text("hi")]), &registry),
        Ok(result(0, 0, 0, IrType::I32))
    );
    // Neither the number nor the kinds of the arguments are checked.
    assert_eq!(
        codegen_expressions(&mut ctx, &call("term.say", vec![number("1"), number("2")]), &registry),
        Ok(result(0, 0, 1, IrType::I32))
    );
    assert_eq!(
        instrs(&ctx, 0, 0),
        vec![
            "Call { callee: 1, args: [Global(0)] }",
            "Call { callee: 1, args: [Float(0), Float(1)] }",
        ]
    );
    // A second binding of the symbol uses the declaration that is there.
    assert_eq!(ctx.register_host_fn("term", "tell", "puts", vec![], IrType::F64, true), 1);
    assert_eq!(ctx.module().functions.len(), 2);
    assert_eq!(ctx.module().functions[1].ret, IrType::I32);
}

#[test]
fn a_function_of_the_host_has_to_be_declared() {
    let mut ctx = in_function();
    let registry = NativeRegistry::new();
    ctx.register_native_fn("term", "gone", NativeId::Host(5));
    assert_eq!(
        codegen_expressions(&mut ctx, &call("term.gone", vec![]), &registry),
        Err("Host function is not declared".to_string())
    );
    assert_eq!(
        call_native(&mut ctx, NativeId::Host(0), vec![Value::Null]),
        Ok(result(0, 0, 0, IrType::F64))
    );
    let mut nowhere = CodeGenContext::new("m");
    nowhere.register_host_fn("m", "f", "f", vec![], IrType::F64, false);
    assert_eq!(
        codegen_expressions(&mut nowhere, &call("m.f", vec![]), &registry),
        Err("No insert block".to_string())
    );
}

#[test]
fn a_call_of_the_runtime_with_literals_can_be_repeated() {
    let registry = load_native_registry(&vec!["io.rs".to_string()]);
    let mut ctx = in_function();
    let e = call("io.out", vec![text("again"), number("1")]);
    assert!(codegen_expressions(&mut ctx, &e, &registry).is_ok());
    let after_first = format!("{:?}", ctx.get_module("io"));
    let cursor = ctx.cursor();
    for _ in 0..3 {
        assert!(codegen_expressions(&mut ctx, &e, &registry).is_ok());
        assert_eq!(format!("{:?}", ctx.get_module("io")), after_first);
        assert_eq!(ctx.cursor(), cursor);
        assert!(!ctx.has_module(""));
    }
    assert_eq!(instrs(&ctx, 0, 0).len(), 4);
}

#[test]
fn a_call_of_the_runtime_with_variables_can_be_repeated() {
    let registry = load_native_registry(&vec!["io.rs".to_string()]);
    let mut ctx = in_function();
    codegen_statements(&mut ctx, &declare("x", Some(Types::F64), Some(number("7"))), &registry).unwrap();
    codegen_statements(&mut ctx, &declare("s", Some(Types::String), Some(text("t"))), &registry).unwrap();
    let float_first = call("io.out", vec![read("x"), read("s"), number("1")]);
    let text_first = call("io.out", vec![read("s"), read("x")]);
    for e in [&float_first, &text_first] {
        assert!(codegen_expressions(&mut ctx, e, &registry).is_ok());
        let after_first = format!("{:?}", ctx.get_module("io"));
        let cursor = ctx.cursor();
        let functions = ctx.module().functions.len();
        for _ in 0..2 {
            assert!(codegen_expressions(&mut ctx, e, &registry).is_ok());
            assert_eq!(format!("{:?}", ctx.get_module("io")), after_first);
            assert_eq!(ctx.cursor(), cursor);
            assert_eq!(ctx.module().functions.len(), functions);
        }
    }
}

#[test]
fn a_call_whose_arguments_hold_no_call_can_be_repeated() {
    let registry = load_native_registry(&vec!["io.rs".to_string()]);
    let mut ctx = in_function();
    codegen_statements(&mut ctx, &declare("x", Some(Types::F64), Some(number("7"))), &registry).unwrap();
    codegen_statements(&mut ctx, &declare("s", Some(Types::String), Some(text("t"))), &registry).unwrap();
    let remainder = binary(read("x"), Operation::Modulo, number("2"));
    let assigned = Expr::Assign {
        name: "x".to_string(),
        value: Box::new(unary(Operation::Negate, binary(read("x"), Operation::Add, number("1")))),
    };
    let same_text = binary(read("s"), Operation::Equal, text("t"));
    let calls = [
        call("io.out", vec![remainder, same_text.clone()]),
        call("io.out", vec![assigned]),
        call("io.out", vec![read("s"), same_text]),
    ];
    for e in &calls {
        assert!(codegen_expressions(&mut ctx, e, &registry).is_ok());
        let after_first = format!("{:?}", ctx.get_module("io"));
        let cursor = ctx.cursor();
        let functions = ctx.module().functions.len();
        for _ in 0..2 {
            assert!(codegen_expressions(&mut ctx, e, &registry).is_ok());
            assert_eq!(format!("{:?}", ctx.get_module("io")), after_first);
            assert_eq!(ctx.cursor(), cursor);
            assert_eq!(ctx.module().functions.len(), functions);
        }
    }
    // The host's functions were declared once each: remainder, printing, comparing.
    assert_eq!(ctx.module().functions.len(), 4);
    // An argument that cannot be lowered fails the second time as the first.
    let mismatch = call("io.out", vec![binary(read("x"), Operation::Add, read("s"))]);
    for _ in 0..2 {
        assert_eq!(
            codegen_expressions(&mut ctx, &mismatch, &registry),
            Err("Type mismatch in binary operation".to_string())
        );
    }
}

#[test]
fn a_call_with_a_variable_fails_each_time_where_the_variable_is_unknown_or_an_integer() {
    let registry = load_native_registry(&vec!["io.rs".to_string()]);
    let mut ctx = in_function();
    codegen_statements(&mut ctx, &declare("n", Some(Types::i32), None), &registry).unwrap();
    for _ in 0..2 {
        assert_eq!(
            codegen_expressions(&mut ctx, &call("io.out", vec![read("n")]), &registry),
            Err("Unsupported argument type for out()".to_string())
        );
        assert_eq!(
            codegen_expressions(&mut ctx, &call("io.out", vec![number("1"), read("gone")]), &registry),
            Err("Variable not declared: gone".to_string())
        );
    }
}

#[test]
fn a_second_call_can_fail_where_a_name_got_another_place() {
    // The table of variables is flat: the function that the call lowers
    // declares `x` anew, as an integer, and the read of `x` in the second
    // call is that integer, which the printing function does not take.
    let mut registry = load_native_registry(&vec!["io.rs".to_string()]);
    registry.add_source("lib".to_string(), "program -> g { local x: i32; }".to_string());
    let mut ctx = in_function();
    codegen_statements(&mut ctx, &Statement::Include("lib".to_string()), &registry).unwrap();
    codegen_statements(&mut ctx, &declare("x", Some(Types::F64), None), &registry).unwrap();
    let e = call("io.out", vec![read("x"), call("lib.g", vec![])]);
    assert!(codegen_expressions(&mut ctx, &e, &registry).is_ok());
    assert_eq!(
        codegen_expressions(&mut ctx, &e, &registry),
        Err("Unsupported argument type for out()".to_string())
    );
}

#[test]
fn a_branch_ends_with_a_jump_unless_it_has_a_terminator() {
    let mut ctx = CodeGenContext::new("m");
    assert!(!is_cursor_terminated(&ctx));
    assert_eq!(build_branch_end(&mut ctx, at(0, 1), at(0, 1)), Err("No insert block".to_string()));
    let mut ctx = in_function();
    let then_block = ctx.append_basic_block(BlockLabel::Then).unwrap();
    let merge = ctx.append_basic_block(BlockLabel::IfCont).unwrap();
    assert!(!is_cursor_terminated(&ctx));
    assert_eq!(build_branch_end(&mut ctx, merge, then_block), Ok(()));
    assert_eq!(instrs(&ctx, 0, 0), vec!["Br { target: BlockRef { func: 0, block: 2 } }"]);
    assert_eq!(ctx.cursor(), Some(then_block));
    ctx.build_return(None).unwrap();
    assert!(is_cursor_terminated(&ctx));
    assert_eq!(build_branch_end(&mut ctx, merge, merge), Ok(()));
    assert_eq!(instrs(&ctx, 0, 1), vec!["Ret { value: None }"]);
    assert_eq!(ctx.cursor(), Some(merge));
    // An instruction behind a terminator makes the block open again.
    ctx.position_at_end(then_block);
    ctx.emit(Instr::Load { ty: IrType::F64, ptr: Value::Null }).unwrap();
    assert!(!is_cursor_terminated(&ctx));
}

use adan::code_gen::builder::CodeGenContext;
use adan::code_gen::ir::{BinaryOp, BlockLabel, Instr, IrType, Module, UnaryOp, Value};
use adan::code_gen::registry::NativeRegistry;
use adan::code_gen::statements::{codegen_function, codegen_statements};
use adan::lexer::token::Types;
use adan::parser::ast::{Expr, FunctionDecl, Literal, Operation, Statement};

/// What a slot or a value holds while emitted code is run.
#[derive(Clone, Copy, Debug, PartialEq)]
enum Cell {
    Float(f64),
    Int(u64),
}

/// A run of one function of a module: its slots, what its instructions
/// gave, and how often each block was entered.
struct Run<'a> {
    module: &'a Module,
    func: usize,
    args: Vec<f64>,
    slots: Vec<Cell>,
    results: Vec<Vec<Option<Cell>>>,
    entered: Vec<usize>,
}

impl<'a> Run<'a> {
    fn new(module: &'a Module, func: usize, args: Vec<f64>) -> Run<'a> {
        let f = &module.functions[func];
        Run {
            module,
            func,
            args,
            slots: vec![Cell::Int(0); f.slots.len()],
            results: f.blocks.iter().map(|b| vec![None; b.instrs.len()]).collect(),
            entered: vec![0; f.blocks.len()],
        }
    }

    fn value(&self, v: Value) -> Cell {
        match v {
            Value::FloatZero => Cell::Float(0.0),
            Value::Float(i) => Cell::Float(self.module.constants[i].parse::<f64>().unwrap_or(0.0)),
            Value::Int { ty: _, value } => Cell::Int(value),
            Value::Param { func, index } if func == self.func => Cell::Float(self.args[index]),
            Value::Result { at, index, ty: _ } if at.func == self.func => {
                self.results[at.block][index].unwrap()
            }
            other => panic!("{:?} cannot be run here", other),
        }
    }

    fn float(&self, v: Value) -> f64 {
        match self.value(v) {
            Cell::Float(f) => f,
            other => panic!("{:?} is no float", other),
        }
    }

    fn slot(&self, v: Value) -> usize {
        match v {
            Value::Slot { func, index } if func == self.func => index,
            other => panic!("{:?} is no slot of this function", other),
        }
    }

    /// Runs the function from its entry block to the first return.
    fn run(&mut self) -> Cell {
        let module = self.module;
        let mut block = 0;
        loop {
            self.entered[block] += 1;
            let mut next = None;
            for (i, instr) in module.functions[self.func].blocks[block].instrs.iter().enumerate() {
                match instr {
                    Instr::Store { ptr, value } => {
                        let at = self.slot(*ptr);
                        self.slots[at] = self.value(*value);
                    }
                    Instr::Load { ty: _, ptr } => {
                        self.results[block][i] = Some(self.slots[self.slot(*ptr)]);
                    }
                    Instr::Unary { op: UnaryOp::FNeg, operand } => {
                        self.results[block][i] = Some(Cell::Float(-self.float(*operand)));
                    }
                    Instr::Binary { op, lhs, rhs } => {
                        let (l, r) = (self.float(*lhs), self.float(*rhs));
                        self.results[block][i] = Some(match op {
                            BinaryOp::FAdd => Cell::Float(l + r),
                            BinaryOp::FSub => Cell::Float(l - r),
                            BinaryOp::FMul => Cell::Float(l * r),
                            BinaryOp::FDiv => Cell::Float(l / r),
                            BinaryOp::FloatNotEqual => Cell::Int((l < r || l > r) as u64),
                            other => panic!("{:?} cannot be run here", other),
                        });
                    }
                    Instr::Call { callee, args } => {
                        let values: Vec<f64> = args.iter().map(|a| self.float(*a)).collect();
                        let f = &module.functions[*callee];
                        let out = if f.blocks.is_empty() && f.name == "fmod" {
                            Cell::Float(values[0] % values[1])
                        } else {
                            Run::new(module, *callee, values).run()
                        };
                        self.results[block][i] = Some(out);
                    }
                    Instr::Br { target } => {
                        next = Some(target.block);
                        break;
                    }
                    Instr::CondBr { cond, then_block, else_block } => {
                        next = Some(match self.value(*cond) {
                            Cell::Int(0) => else_block.block,
                            _ => then_block.block,
                        });
                        break;
                    }
                    Instr::Ret { value } => {
                        return value.map(|v| self.value(v)).unwrap_or(Cell::Int(0));
                    }
                    other => panic!("{:?} cannot be run here", other),
                }
            }
            block = next.expect("a block ended without a terminator");
        }
    }
}

fn number(text: &str) -> Expr {
    Expr::Literal(Literal::Number(text.to_string()))
}

/// A read of a variable, as the parser makes it: the node names no type.
fn read(name: &str) -> Expr {
    Expr::Variable { var_name: name.to_string(), var_type: None }
}

fn assign(name: &str, value: Expr) -> Expr {
    Expr::Assign { name: name.to_string(), value: Box::new(value) }
}

fn binary(left: Expr, op: Operation, right: Expr) -> Expr {
    Expr::Binary { left: Box::new(left), op, right: Box::new(right) }
}

fn declare_float(name: &str, init: &str) -> Statement {
    Statement::VarDecl {
        name: name.to_string(),
        var_type: Some(Types::F64),
        initializer: Some(number(init)),
    }
}

fn give(value: Expr) -> Statement {
    Statement::Return { value: Some(value) }
}

fn function(name: &str, params: &[&str], body: Vec<Statement>) -> FunctionDecl {
    FunctionDecl {
        name: name.to_string(),
        params: params.iter().map(|p| p.to_string()).collect(),
        body,
    }
}

/// Lowers a function without parameters and runs it.
fn run_main(body: Vec<Statement>) -> Cell {
    let mut ctx = CodeGenContext::new("m");
    let registry = NativeRegistry::new();
    let main = codegen_function(&mut ctx, &function("main", &[], body), &registry).unwrap();
    Run::new(ctx.module(), main, vec![]).run()
}

#[test]
fn reading_a_declared_variable_yields_its_value() {
    assert_eq!(run_main(vec![declare_float("x", "7.5"), give(read("x"))]), Cell::Float(7.5));
}

#[test]
fn reading_after_an_assignment_yields_the_new_value() {
    let body = vec![
        declare_float("x", "7.5"),
        Statement::Expression(assign("x", number("2.0"))),
        give(read("x")),
    ];
    assert_eq!(run_main(body), Cell::Float(2.0));
}

#[test]
fn an_assignment_yields_what_it_stores() {
    let body = vec![declare_float("x", "7.5"), give(assign("x", number("2.0")))];
    assert_eq!(run_main(body), Cell::Float(2.0));
    let body = vec![
        declare_float("x", "7.5"),
        declare_float("y", "0"),
        Statement::Expression(assign("y", assign("x", number("4")))),
        give(binary(read("x"), Operation::Add, read("y"))),
    ];
    assert_eq!(run_main(body), Cell::Float(8.0));
}

#[test]
fn the_remainder_of_floats() {
    assert_eq!(
        run_main(vec![give(binary(number("7.5"), Operation::Modulo, number("2.0")))]),
        Cell::Float(1.5)
    );
}

#[test]
fn float_arithmetic_computes() {
    let e = binary(
        binary(number("1.5"), Operation::Add, number("2.5")),
        Operation::Multiply,
        binary(number("9"), Operation::Divide, binary(number("5"), Operation::Subtract, number("2"))),
    );
    assert_eq!(run_main(vec![give(e)]), Cell::Float(12.0));
    let negated = Expr::Unary { op: Operation::Negate, right: Box::new(number("3")) };
    assert_eq!(run_main(vec![give(negated)]), Cell::Float(-3.0));
}

/// The function whose body is `if (condition) { return 1.0; } else { return 0.0; }`,
/// lowered as a function and run.
fn run_choice(condition: &str) -> Cell {
    let mut ctx = CodeGenContext::new("m");
    let registry = NativeRegistry::new();
    let decl = function(
        "f",
        &[],
        vec![Statement::If {
            condition: number(condition),
            then_branch: Box::new(Statement::Block(vec![give(number("1.0"))])),
            else_branch: Some(Box::new(Statement::Block(vec![give(number("0.0"))]))),
        }],
    );
    let f = codegen_function(&mut ctx, &decl, &registry).unwrap();
    assert!(ctx.module().functions[f].verify());
    let mut run = Run::new(ctx.module(), f, vec![]);
    let value = run.run();
    // One of the branches was taken, and the block where they would meet was not.
    assert_eq!(run.entered[0], 1);
    assert_eq!(run.entered[1] + run.entered[2], 1);
    assert_eq!(run.entered[3], 0);
    if value == Cell::Float(1.0) {
        assert_eq!(run.entered[1], 1);
    }
    value
}

#[test]
fn a_condition_that_differs_from_zero_takes_the_then_path() {
    assert_eq!(run_choice("1.0"), Cell::Float(1.0));
    assert_eq!(run_choice("0.0"), Cell::Float(0.0));
    assert_eq!(run_choice("0"), Cell::Float(0.0));
    assert_eq!(run_choice("25"), Cell::Float(1.0));
}

#[test]
fn a_conditional_sets_what_follows_it() {
    let choose = |condition: &str| {
        run_main(vec![
            declare_float("r", "5"),
            Statement::If {
                condition: number(condition),
                then_branch: Box::new(Statement::Block(vec![Statement::Expression(assign(
                    "r",
                    number("1"),
                ))])),
                else_branch: None,
            },
            give(read("r")),
        ])
    };
    assert_eq!(choose("1"), Cell::Float(1.0));
    assert_eq!(choose("0"), Cell::Float(5.0));
}

#[test]
fn a_loop_that_counts_down_from_three_runs_its_body_three_times() {
    let mut ctx = CodeGenContext::new("m");
    let registry = NativeRegistry::new();
    let body = vec![
        declare_float("i", "3"),
        declare_float("rounds", "0"),
        Statement::While {
            condition: read("i"),
            body: Box::new(Statement::Block(vec![
                Statement::Expression(assign(
                    "i",
                    binary(read("i"), Operation::Subtract, number("1")),
                )),
                Statement::Expression(assign(
                    "rounds",
                    binary(read("rounds"), Operation::Add, number("1")),
                )),
            ])),
        },
        give(read("rounds")),
    ];
    let main = codegen_function(&mut ctx, &function("main", &[], body), &registry).unwrap();
    let labels: Vec<BlockLabel> =
        ctx.module().functions[main].blocks.iter().map(|b| b.label).collect();
    assert_eq!(
        labels,
        vec![
            BlockLabel::Entry,
            BlockLabel::WhileCond,
            BlockLabel::WhileBody,
            BlockLabel::WhileCont
        ]
    );
    let mut run = Run::new(ctx.module(), main, vec![]);
    assert_eq!(run.run(), Cell::Float(3.0));
    // The condition is tested four times, the body runs three times, and
    // the merge edge is taken once.
    assert_eq!(run.entered, vec![1, 4, 3, 1]);
    assert_eq!(run.slots[0], Cell::Float(0.0));
}

#[test]
fn a_loop_whose_condition_is_zero_never_runs_its_body() {
    let mut ctx = CodeGenContext::new("m");
    let registry = NativeRegistry::new();
    let body = vec![Statement::While {
        condition: number("0"),
        body: Box::new(Statement::Block(vec![give(number("9"))])),
    }];
    let main = codegen_function(&mut ctx, &function("main", &[], body), &registry);
    assert_eq!(main, Ok(0));
    let mut run = Run::new(ctx.module(), 0, vec![]);
    assert_eq!(run.run(), Cell::Float(0.0));
    assert_eq!(run.entered, vec![1, 1, 0, 1]);
}

#[test]
fn a_called_function_gets_its_arguments() {
    let mut ctx = CodeGenContext::new("m");
    let registry = NativeRegistry::new();
    let inc = Statement::Function(function(
        "inc",
        &["a"],
        vec![give(binary(read("a"), Operation::Add, number("1")))],
    ));
    let main = Statement::Function(function(
        "main",
        &[],
        vec![give(Expr::FCall {
            callee: "inc".to_string(),
            args: vec![Expr::FCall { callee: "inc".to_string(), args: vec![number("40")] }],
        })],
    ));
    codegen_statements(&mut ctx, &inc, &registry).unwrap();
    codegen_statements(&mut ctx, &main, &registry).unwrap();
    assert_eq!(Run::new(ctx.module(), 1, vec![]).run(), Cell::Float(42.0));
    assert_eq!(Run::new(ctx.module(), 0, vec![1.5]).run(), Cell::Float(2.5));
}

/// Lexes, parses and lowers a program, and runs its function `main`.
fn run_source(source: &str) -> Cell {
    let tokens = adan::lexer::lexer::Lexer::new(source).tokenize().unwrap();
    let stmts = adan::parser::parser::Parser::new(tokens).parse().unwrap();
    let mut ctx = CodeGenContext::new("m");
    let registry = NativeRegistry::new();
    for s in &stmts {
        codegen_statements(&mut ctx, s, &registry).unwrap();
    }
    let main = ctx.module().find_function("main").unwrap();
    Run::new(ctx.module(), main, vec![]).run()
}

#[test]
fn a_parsed_program_reads_back_what_it_declared() {
    assert_eq!(run_source("program -> main { local x: f64 -> 7; return x; }"), Cell::Float(7.0));
    assert_eq!(
        run_source("program -> main { local x: f64 -> 7; local y: f64 -> x; return y; }"),
        Cell::Float(7.0)
    );
    assert_eq!(
        run_source("program -> id(a: f64) { return a; } program -> main { return id(id(12)); }"),
        Cell::Float(12.0)
    );
}

#[test]
fn a_parsed_loop_on_a_variable_ends_when_the_variable_is_zero() {
    assert_eq!(
        run_source("program -> main { local c: f64 -> 0; while (c) { c; } return c; }"),
        Cell::Float(0.0)
    );
    assert_eq!(
        run_source("program -> main { local c: f64; local r: f64 -> 4; if (c) { r; } return r; }"),
        Cell::Float(4.0)
    );
}

#[test]
fn a_parsed_function_whose_branches_return_is_lowered_and_run() {
    let choose = |condition: &str| {
        run_source(&format!(
            "program -> main {{ if ({}) {{ return 1; }} else {{ return 0; }} }}",
            condition
        ))
    };
    assert_eq!(choose("1"), Cell::Float(1.0));
    assert_eq!(choose("0"), Cell::Float(0.0));
    assert_eq!(
        run_source(
            "program -> pick(c: f64) { if (c) { return 10; } return 20; } program -> main { return pick(0); }"
        ),
        Cell::Float(20.0)
    );
    assert_eq!(
        run_source(
            "program -> pick(c: f64) { while (c) { return c; } return 20; } program -> main { return pick(7); }"
        ),
        Cell::Float(7.0)
    );
}

#[test]
fn a_function_without_a_return_gives_zero() {
    assert_eq!(run_main(vec![declare_float("x", "7.5")]), Cell::Float(0.0));
    assert_eq!(run_main(vec![]), Cell::Float(0.0));
}

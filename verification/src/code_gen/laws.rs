//! What holds of lowering whatever is lowered. It ends, because it never
//! adds to the work that is left. It only adds to the module and to the
//! registry, and lowers no declaration twice. A variable is read with the
//! type of its declaration. A call of the runtime with literals and
//! variables is lowered exactly where they can be read and the function takes
//! them. Loops and conditionals get their blocks, a branch that returns gets
//! no jump, and a function that was lowered without error is well formed.
use vstd::prelude::*;
use crate::code_gen::builder::{
    CtxView, ModuleValueView, NativeFuncView, NativeId, NativeModule, Outcome, lemma_building_keeps,
};
use crate::code_gen::ir::{
    BinaryOp, BlockLabel, BlockRef, BlockView, GlobalView, InstrView, IrType, Value, ValueKind,
};
use crate::code_gen::lowering::{
    auto_register, branch_while, call_lowered, call_native_spec, close_function, cursor_terminated,
    end_branch, finish_assign, finish_return, finish_var_decl, function_part, include_spec,
    lemma_auto_register_workload, lemma_branch_while_frame, lemma_call_native_frame,
    lemma_close_function_frame, lemma_end_branch_frame, lemma_finish_expr_frame, lemma_keeps,
    lemma_open_function_frame, lemma_open_if_frame, lemma_open_while_frame,
    lemma_register_module_workload, lemma_set_function_lookup, lemma_simple_frames,
    lemma_test_condition_frame, lower_args_spec, lower_branches_spec, lower_call_spec,
    lower_expr_spec, lower_function_spec, lower_if_spec, lower_statement_spec,
    lower_statements_spec, lower_variable, lower_while_spec, module_part, open_function, open_if,
    open_while, populate, read_type, register_module_spec, storage_type_spec, test_condition,
    zero_of,
};
use crate::code_gen::measure::{
    count_functions, lemma_pending_in_put, lemma_set_function_workload, lemma_set_module_workload,
    pending_in, settled, source_functions, workload,
};
use crate::code_gen::registry::RegistryView;
use crate::code_gen::table::{has_key, lemma_put, lookup};
use crate::lexer::lexer::tokens_from;
use crate::lexer::token::Types;
use crate::parser::ast::{ExprView, FunctionDeclView, LiteralView, Operation, StatementView};
use crate::parser::grammar::parse_program_spec;

verus! {

/// A module that was made from the top level of statements has no more
/// declarations to lower than the statements hold.
pub proof fn lemma_populate_pending(
    ctx: CtxView,
    stmts: Seq<StatementView>,
    from: int,
    so_far: ModuleValueView,
)
    requires
        0 <= from,
    ensures
        pending_in(populate(ctx, stmts, from, so_far).1.functions) <= pending_in(so_far.functions)
            + count_functions(stmts, from),
        populate(ctx, stmts, from, so_far).0.modules == ctx.modules,
    decreases stmts.len() - from,
{
    if from < stmts.len() {
        match stmts[from] {
            StatementView::Function(decl) => {
                lemma_pending_in_put(
                    so_far.functions,
                    decl.name,
                    NativeFuncView::AdanFunction(decl),
                );
                lemma_populate_pending(
                    ctx,
                    stmts,
                    from + 1,
                    so_far.with_function(decl.name, NativeFuncView::AdanFunction(decl)),
                );
            },
            StatementView::VarDecl { name, var_type, initializer } => {
                lemma_populate_pending(
                    ctx.add_global(
                        GlobalView::Variable {
                            name,
                            ty: storage_type_spec(var_type),
                        },
                    ),
                    stmts,
                    from + 1,
                    so_far.with_variable(name, Value::Global(ctx.module.globals.len() as usize)),
                );
            },
            _ => {
                lemma_populate_pending(ctx, stmts, from + 1, so_far);
            },
        }
    }
}

/// An include adds no work.
pub proof fn lemma_include_workload(
    ctx: CtxView,
    registry: RegistryView,
    path: Seq<char>,
)
    ensures
        workload(include_spec(ctx, registry, path).ctx, registry) <= workload(ctx, registry),
{
    if !has_key(ctx.modules, path) {
        match lookup(registry.natives, path) {
            Some(module) => {
                lemma_register_module_workload(ctx, registry, module);
            },
            None => match lookup(registry.sources, path) {
                None => {},
                Some(text) => match parse_program_spec(
                    tokens_from(text, 0),
                    0,
                ) {
                    Err(e) => {},
                    Ok(stmts) => {
                        let (populated, module) = populate(ctx, stmts, 0, ModuleValueView::empty());
                        lemma_populate_pending(ctx, stmts, 0, ModuleValueView::empty());
                        lemma_set_module_workload(populated, registry, path, module);
                        assert(pending_in(ModuleValueView::empty().functions) == 0);
                        assert(source_functions(text) == count_functions(stmts, 0));
                    },
                },
            },
        }
    }
}

/// Every module of the registry of `before` is a module of the registry of `after`.
pub open spec fn keeps_modules(before: CtxView, after: CtxView) -> bool {
    forall|name: Seq<char>| #[trigger] has_key(before.modules, name) ==> has_key(after.modules, name)
}

/// Putting a function into the registry takes no module away.
pub proof fn lemma_set_function_keeps(
    ctx: CtxView,
    module_name: Seq<char>,
    name: Seq<char>,
    func: NativeFuncView,
)
    ensures
        keeps_modules(ctx, ctx.set_function(module_name, name, func)),
        has_key(ctx.set_function(module_name, name, func).modules, module_name),
{
    assert forall|other: Seq<char>| #[trigger] has_key(ctx.modules, other) implies has_key(
        ctx.set_function(module_name, name, func).modules,
        other,
    ) by {
        lemma_set_function_lookup(ctx, module_name, name, func, other, name);
    }
    lemma_set_function_lookup(ctx, module_name, name, func, module_name, name);
}

/// Registering a module of the runtime takes no module away.
pub proof fn lemma_register_module_keeps(ctx: CtxView, module: NativeModule)
    ensures
        keeps_modules(ctx, register_module_spec(ctx, module)),
{
    let f = NativeFuncView::NativeFn(NativeId::Printf);
    lemma_set_function_keeps(ctx, "io"@, "printf"@, f);
    lemma_set_function_keeps(ctx.set_function("io"@, "printf"@, f), "io"@, "out"@, f);
}

/// Resolving the module of a call takes no module away.
pub proof fn lemma_auto_register_keeps_modules(
    ctx: CtxView,
    registry: RegistryView,
    module_name: Seq<char>,
)
    ensures
        keeps_modules(ctx, auto_register(ctx, registry, module_name)),
{
    if !has_key(ctx.modules, module_name) {
        match lookup(registry.natives, module_name) {
            Some(module) => {
                lemma_register_module_keeps(ctx, module);
            },
            None => {},
        }
    }
}

/// An include takes no module away.
pub proof fn lemma_include_keeps(ctx: CtxView, registry: RegistryView, path: Seq<char>)
    ensures
        keeps_modules(ctx, include_spec(ctx, registry, path).ctx),
{
    if !has_key(ctx.modules, path) {
        match lookup(registry.natives, path) {
            Some(module) => {
                lemma_register_module_keeps(ctx, module);
            },
            None => match lookup(registry.sources, path) {
                None => {},
                Some(text) => match parse_program_spec(tokens_from(text, 0), 0) {
                    Err(e) => {},
                    Ok(stmts) => {
                        let (populated, module) = populate(ctx, stmts, 0, ModuleValueView::empty());
                        lemma_populate_pending(ctx, stmts, 0, ModuleValueView::empty());
                        assert forall|other: Seq<char>| #[trigger]
                            has_key(ctx.modules, other) implies has_key(
                            populated.set_module(path, module).modules,
                            other,
                        ) by {
                            lemma_put(populated.modules, path, module, other);
                        }
                    },
                },
            },
        }
    }
}

/// Making a module from the top level of statements keeps what was emitted.
pub proof fn lemma_populate_keeps(
    ctx: CtxView,
    stmts: Seq<StatementView>,
    from: int,
    so_far: ModuleValueView,
)
    requires
        0 <= from,
    ensures
        populate(ctx, stmts, from, so_far).0.keeps_emitted(ctx),
    decreases stmts.len() - from,
{
    lemma_keeps(ctx, InstrView::Ret { value: None }, IrType::F64, Seq::empty());
    if from < stmts.len() {
        match stmts[from] {
            StatementView::Function(decl) => {
                lemma_populate_keeps(
                    ctx,
                    stmts,
                    from + 1,
                    so_far.with_function(decl.name, NativeFuncView::AdanFunction(decl)),
                );
            },
            StatementView::VarDecl { name, var_type, initializer } => {
                let global = GlobalView::Variable { name, ty: storage_type_spec(var_type) };
                lemma_building_keeps(
                    ctx,
                    InstrView::Ret { value: None },
                    IrType::F64,
                    BlockLabel::Entry,
                    name,
                    global,
                    Seq::empty(),
                    false,
                );
                lemma_populate_keeps(
                    ctx.add_global(global),
                    stmts,
                    from + 1,
                    so_far.with_variable(name, Value::Global(ctx.module.globals.len() as usize)),
                );
            },
            _ => {
                lemma_populate_keeps(ctx, stmts, from + 1, so_far);
            },
        }
    }
}

/// An include keeps what was emitted.
pub proof fn lemma_include_keeps_emitted(ctx: CtxView, registry: RegistryView, path: Seq<char>)
    ensures
        include_spec(ctx, registry, path).ctx.keeps_emitted(ctx),
{
    lemma_keeps(ctx, InstrView::Ret { value: None }, IrType::F64, Seq::empty());
    if !has_key(ctx.modules, path) {
        match lookup(registry.natives, path) {
            Some(module) => {},
            None => match lookup(registry.sources, path) {
                None => {},
                Some(text) => match parse_program_spec(tokens_from(text, 0), 0) {
                    Err(e) => {},
                    Ok(stmts) => {
                        lemma_populate_keeps(ctx, stmts, 0, ModuleValueView::empty());
                    },
                },
            },
        }
    }
}

/// Whether a registry holds a function under `name` in the module `module_name`.
#[verifier::opaque]
pub open spec fn registered(
    modules: Seq<(Seq<char>, ModuleValueView)>,
    module_name: Seq<char>,
    name: Seq<char>,
) -> bool {
    match lookup(modules, module_name) {
        Some(m) => lookup(m.functions, name) is Some,
        None => false,
    }
}

/// Every function of the registry of `before` is a function of the
/// registry of `after`: no name leaves a module.
pub open spec fn keeps_functions(before: CtxView, after: CtxView) -> bool {
    forall|module_name: Seq<char>, name: Seq<char>| #[trigger]
        registered(before.modules, module_name, name) ==> registered(
            after.modules,
            module_name,
            name,
        )
}

/// A function is registered where the registry has it.
pub proof fn lemma_registered(ctx: CtxView, module_name: Seq<char>, name: Seq<char>)
    ensures
        registered(ctx.modules, module_name, name) == (ctx.function(module_name, name) is Some),
        registered(ctx.modules, module_name, name) ==> has_key(ctx.modules, module_name),
{
    reveal(registered);
}

/// Putting a function into the registry takes no function away.
pub proof fn lemma_set_function_keeps_functions(
    ctx: CtxView,
    module_name: Seq<char>,
    name: Seq<char>,
    func: NativeFuncView,
)
    ensures
        keeps_functions(ctx, ctx.set_function(module_name, name, func)),
{
    assert forall|m: Seq<char>, n: Seq<char>| #[trigger]
        registered(ctx.modules, m, n) implies registered(
        ctx.set_function(module_name, name, func).modules,
        m,
        n,
    ) by {
        lemma_registered(ctx, m, n);
        lemma_registered(ctx.set_function(module_name, name, func), m, n);
        lemma_set_function_lookup(ctx, module_name, name, func, m, n);
    }
}

/// Registering a module of the runtime takes no function away.
pub proof fn lemma_register_module_keeps_functions(ctx: CtxView, module: NativeModule)
    ensures
        keeps_functions(ctx, register_module_spec(ctx, module)),
{
    let f = NativeFuncView::NativeFn(NativeId::Printf);
    lemma_set_function_keeps_functions(ctx, "io"@, "printf"@, f);
    lemma_set_function_keeps_functions(ctx.set_function("io"@, "printf"@, f), "io"@, "out"@, f);
}

/// Resolving the module of a call takes no function away.
pub proof fn lemma_auto_register_keeps_functions(
    ctx: CtxView,
    registry: RegistryView,
    module_name: Seq<char>,
)
    ensures
        keeps_functions(ctx, auto_register(ctx, registry, module_name)),
{
    if !has_key(ctx.modules, module_name) {
        match lookup(registry.natives, module_name) {
            Some(module) => {
                lemma_register_module_keeps_functions(ctx, module);
            },
            None => {},
        }
    }
}

/// An include takes no function away.
pub proof fn lemma_include_keeps_functions(ctx: CtxView, registry: RegistryView, path: Seq<char>)
    ensures
        keeps_functions(ctx, include_spec(ctx, registry, path).ctx),
{
    if !has_key(ctx.modules, path) {
        match lookup(registry.natives, path) {
            Some(module) => {
                lemma_register_module_keeps_functions(ctx, module);
            },
            None => match lookup(registry.sources, path) {
                None => {},
                Some(text) => match parse_program_spec(tokens_from(text, 0), 0) {
                    Err(e) => {},
                    Ok(stmts) => {
                        let (populated, module) = populate(ctx, stmts, 0, ModuleValueView::empty());
                        lemma_populate_pending(ctx, stmts, 0, ModuleValueView::empty());
                        assert forall|m: Seq<char>, n: Seq<char>| #[trigger]
                            registered(ctx.modules, m, n) implies registered(
                            populated.set_module(path, module).modules,
                            m,
                            n,
                        ) by {
                            lemma_registered(ctx, m, n);
                            lemma_registered(populated.set_module(path, module), m, n);
                            lemma_put(populated.modules, path, module, m);
                        }
                    },
                },
            },
        }
    }
}

/// Whether a registry holds, under `name` in the module `module_name`, a
/// function that needs no lowering: one of the runtime, or a declaration
/// that has been lowered.
#[verifier::opaque]
pub open spec fn ready(
    modules: Seq<(Seq<char>, ModuleValueView)>,
    module_name: Seq<char>,
    name: Seq<char>,
) -> bool {
    match lookup(modules, module_name) {
        Some(m) => lookup(m.functions, name) matches Some(f) && !(f is AdanFunction),
        None => false,
    }
}

/// A function that needs no lowering in `before` needs none in `after`: no
/// declaration is lowered twice.
pub open spec fn keeps_ready(before: CtxView, after: CtxView) -> bool {
    forall|module_name: Seq<char>, name: Seq<char>| #[trigger]
        ready(before.modules, module_name, name) ==> ready(after.modules, module_name, name)
}

/// A function needs no lowering where the registry has it so.
pub proof fn lemma_ready(ctx: CtxView, module_name: Seq<char>, name: Seq<char>)
    ensures
        ready(ctx.modules, module_name, name) == (ctx.function(module_name, name) matches Some(f)
            && !(f is AdanFunction)),
{
    reveal(ready);
}

/// Putting a function that needs no lowering into the registry leaves
/// every function ready that was.
pub proof fn lemma_set_function_keeps_ready(
    ctx: CtxView,
    module_name: Seq<char>,
    name: Seq<char>,
    func: NativeFuncView,
)
    requires
        !(func is AdanFunction),
    ensures
        keeps_ready(ctx, ctx.set_function(module_name, name, func)),
        ready(ctx.set_function(module_name, name, func).modules, module_name, name),
{
    assert forall|m: Seq<char>, n: Seq<char>| #[trigger] ready(ctx.modules, m, n) implies ready(
        ctx.set_function(module_name, name, func).modules,
        m,
        n,
    ) by {
        lemma_ready(ctx, m, n);
        lemma_ready(ctx.set_function(module_name, name, func), m, n);
        lemma_set_function_lookup(ctx, module_name, name, func, m, n);
    }
    lemma_ready(ctx.set_function(module_name, name, func), module_name, name);
    lemma_set_function_lookup(ctx, module_name, name, func, module_name, name);
}

/// Registering a module of the runtime leaves every function ready that was.
pub proof fn lemma_register_module_keeps_ready(ctx: CtxView, module: NativeModule)
    ensures
        keeps_ready(ctx, register_module_spec(ctx, module)),
{
    let f = NativeFuncView::NativeFn(NativeId::Printf);
    lemma_set_function_keeps_ready(ctx, "io"@, "printf"@, f);
    lemma_set_function_keeps_ready(ctx.set_function("io"@, "printf"@, f), "io"@, "out"@, f);
}

/// Resolving the module of a call leaves every function ready that was.
pub proof fn lemma_auto_register_keeps_ready(
    ctx: CtxView,
    registry: RegistryView,
    module_name: Seq<char>,
)
    ensures
        keeps_ready(ctx, auto_register(ctx, registry, module_name)),
{
    if !has_key(ctx.modules, module_name) {
        match lookup(registry.natives, module_name) {
            Some(module) => {
                lemma_register_module_keeps_ready(ctx, module);
            },
            None => {},
        }
    }
}

/// An include leaves every function ready that was.
pub proof fn lemma_include_keeps_ready(ctx: CtxView, registry: RegistryView, path: Seq<char>)
    ensures
        keeps_ready(ctx, include_spec(ctx, registry, path).ctx),
{
    if !has_key(ctx.modules, path) {
        match lookup(registry.natives, path) {
            Some(module) => {
                lemma_register_module_keeps_ready(ctx, module);
            },
            None => match lookup(registry.sources, path) {
                None => {},
                Some(text) => match parse_program_spec(tokens_from(text, 0), 0) {
                    Err(e) => {},
                    Ok(stmts) => {
                        let (populated, module) = populate(ctx, stmts, 0, ModuleValueView::empty());
                        lemma_populate_pending(ctx, stmts, 0, ModuleValueView::empty());
                        assert forall|m: Seq<char>, n: Seq<char>| #[trigger]
                            ready(ctx.modules, m, n) implies ready(
                            populated.set_module(path, module).modules,
                            m,
                            n,
                        ) by {
                            lemma_ready(ctx, m, n);
                            lemma_ready(populated.set_module(path, module), m, n);
                            lemma_put(populated.modules, path, module, m);
                        }
                    },
                },
            },
        }
    }
}

/// An expression adds no work, takes no module and no function away, lowers
/// nothing twice, and keeps what was emitted.
pub proof fn lemma_expr_adds_no_work(ctx: CtxView, registry: RegistryView, e: ExprView)
    ensures
        workload(lower_expr_spec(ctx, registry, e).ctx, registry) <= workload(ctx, registry),
        keeps_modules(ctx, lower_expr_spec(ctx, registry, e).ctx),
        lower_expr_spec(ctx, registry, e).ctx.keeps_emitted(ctx),
        keeps_functions(ctx, lower_expr_spec(ctx, registry, e).ctx),
        keeps_ready(ctx, lower_expr_spec(ctx, registry, e).ctx),
    decreases workload(ctx, registry), 0int, e, 0int,
{
    match e {
        ExprView::Literal(lit) => {
            lemma_simple_frames(ctx, lit, Seq::empty(), None, Value::Null);
        },
        ExprView::Unary { op, right } => {
            if op == Operation::Negate || op == Operation::Not {
                lemma_expr_adds_no_work(ctx, registry, *right);
                let operand = lower_expr_spec(ctx, registry, *right);
                match operand.result {
                    Ok(v) => {
                        lemma_finish_expr_frame(operand.ctx, op, v, v, Seq::empty());
                    },
                    Err(e) => {},
                }
            }
        },
        ExprView::Assign { name, value } => {
            lemma_expr_adds_no_work(ctx, registry, *value);
            let lowered = lower_expr_spec(ctx, registry, *value);
            match lowered.result {
                Ok(v) => {
                    lemma_finish_expr_frame(lowered.ctx, Operation::Add, v, v, name);
                },
                Err(e) => {},
            }
        },
        ExprView::FCall { callee, args } => {
            lemma_call_adds_no_work(ctx, registry, callee, args);
        },
        ExprView::Variable { var_name, var_type } => {
            lemma_simple_frames(ctx, LiteralView::Nil, var_name, var_type, Value::Null);
        },
        ExprView::Binary { left, op, right } => {
            lemma_expr_adds_no_work(ctx, registry, *left);
            let lhs = settled(ctx, registry, lower_expr_spec(ctx, registry, *left));
            match lhs.result {
                Err(e) => {},
                Ok(l) => {
                    lemma_expr_adds_no_work(lhs.ctx, registry, *right);
                    let rhs = lower_expr_spec(lhs.ctx, registry, *right);
                    match rhs.result {
                        Err(e) => {},
                        Ok(r) => {
                            lemma_finish_expr_frame(rhs.ctx, op, l, r, Seq::empty());
                        },
                    }
                },
            }
        },
    }
}

/// A call adds no work, takes no module away, and keeps what was emitted.
pub proof fn lemma_call_adds_no_work(
    ctx: CtxView,
    registry: RegistryView,
    callee: Seq<char>,
    args: Seq<ExprView>,
)
    ensures
        workload(lower_call_spec(ctx, registry, callee, args).ctx, registry) <= workload(
            ctx,
            registry,
        ),
        keeps_modules(ctx, lower_call_spec(ctx, registry, callee, args).ctx),
        lower_call_spec(ctx, registry, callee, args).ctx.keeps_emitted(ctx),
        keeps_functions(ctx, lower_call_spec(ctx, registry, callee, args).ctx),
        keeps_ready(ctx, lower_call_spec(ctx, registry, callee, args).ctx),
    decreases workload(ctx, registry), 0int, args, args.len() + 2,
{
    let module_name = module_part(callee);
    let name = function_part(callee);
    let resolved = auto_register(ctx, registry, module_name);
    lemma_auto_register_workload(ctx, registry, module_name);
    lemma_auto_register_keeps_modules(ctx, registry, module_name);
    lemma_auto_register_keeps_functions(ctx, registry, module_name);
    lemma_auto_register_keeps_ready(ctx, registry, module_name);
    match resolved.function(module_name, name) {
        None => {},
        Some(NativeFuncView::NativeFn(id)) => {
            lemma_args_add_no_work(resolved, registry, args, 0, Seq::empty());
            let lowered = lower_args_spec(resolved, registry, args, 0, Seq::empty());
            match lowered.result {
                Err(e) => {},
                Ok(values) => {
                    lemma_call_native_frame(lowered.ctx, id, values);
                },
            }
        },
        Some(NativeFuncView::Lowered(func)) => {
            lemma_call_lowered_adds_no_work(resolved, registry, func, args);
        },
        Some(NativeFuncView::AdanFunction(decl)) => {
            let func = resolved.module.functions.len() as usize;
            let marked = resolved.set_function(module_name, name, NativeFuncView::Lowered(func));
            lemma_set_function_workload(
                resolved,
                registry,
                module_name,
                name,
                NativeFuncView::Lowered(func),
            );
            lemma_set_function_keeps(resolved, module_name, name, NativeFuncView::Lowered(func));
            lemma_set_function_keeps_functions(
                resolved,
                module_name,
                name,
                NativeFuncView::Lowered(func),
            );
            lemma_set_function_keeps_ready(
                resolved,
                module_name,
                name,
                NativeFuncView::Lowered(func),
            );
            lemma_function_adds_no_work(marked, registry, decl);
            let made = settled(marked, registry, lower_function_spec(marked, registry, decl));
            match made.result {
                Err(e) => {},
                Ok(f) => {
                    lemma_call_lowered_adds_no_work(
                        made.ctx.with_cursor(resolved.cursor),
                        registry,
                        func,
                        args,
                    );
                },
            }
        },
    }
}

/// A call of a function of the emitted module adds no work, takes no
/// module away, and keeps what was emitted.
pub proof fn lemma_call_lowered_adds_no_work(
    ctx: CtxView,
    registry: RegistryView,
    func: usize,
    args: Seq<ExprView>,
)
    ensures
        workload(call_lowered(ctx, registry, func, args).ctx, registry) <= workload(ctx, registry),
        keeps_modules(ctx, call_lowered(ctx, registry, func, args).ctx),
        call_lowered(ctx, registry, func, args).ctx.keeps_emitted(ctx),
        keeps_functions(ctx, call_lowered(ctx, registry, func, args).ctx),
        keeps_ready(ctx, call_lowered(ctx, registry, func, args).ctx),
    decreases workload(ctx, registry), 0int, args, args.len() + 1,
{
    lemma_args_add_no_work(ctx, registry, args, 0, Seq::empty());
    let lowered = lower_args_spec(ctx, registry, args, 0, Seq::empty());
    match lowered.result {
        Err(e) => {},
        Ok(values) => {
            lemma_keeps(
                lowered.ctx,
                InstrView::Call { callee: func, args: values },
                IrType::F64,
                Seq::empty(),
            );
        },
    }
}

/// The arguments of a call add no work, take no module away, and keep what
/// was emitted.
pub proof fn lemma_args_add_no_work(
    ctx: CtxView,
    registry: RegistryView,
    args: Seq<ExprView>,
    from: int,
    values: Seq<Value>,
)
    ensures
        workload(lower_args_spec(ctx, registry, args, from, values).ctx, registry) <= workload(
            ctx,
            registry,
        ),
        keeps_modules(ctx, lower_args_spec(ctx, registry, args, from, values).ctx),
        lower_args_spec(ctx, registry, args, from, values).ctx.keeps_emitted(ctx),
        keeps_functions(ctx, lower_args_spec(ctx, registry, args, from, values).ctx),
        keeps_ready(ctx, lower_args_spec(ctx, registry, args, from, values).ctx),
    decreases workload(ctx, registry), 0int, args, args.len() - from,
{
    if 0 <= from < args.len() {
        lemma_expr_adds_no_work(ctx, registry, args[from]);
        let first = settled(ctx, registry, lower_expr_spec(ctx, registry, args[from]));
        match first.result {
            Err(e) => {},
            Ok(v) => {
                lemma_args_add_no_work(first.ctx, registry, args, from + 1, values.push(v));
            },
        }
    }
}

/// A statement adds no work, takes no module away, and keeps what was
/// emitted.
pub proof fn lemma_statement_adds_no_work(ctx: CtxView, registry: RegistryView, s: StatementView)
    ensures
        workload(lower_statement_spec(ctx, registry, s).ctx, registry) <= workload(ctx, registry),
        keeps_modules(ctx, lower_statement_spec(ctx, registry, s).ctx),
        lower_statement_spec(ctx, registry, s).ctx.keeps_emitted(ctx),
        keeps_functions(ctx, lower_statement_spec(ctx, registry, s).ctx),
        keeps_ready(ctx, lower_statement_spec(ctx, registry, s).ctx),
    decreases workload(ctx, registry), 1int, s, 3int,
{
    match s {
        StatementView::Expression(e) => {
            lemma_expr_adds_no_work(ctx, registry, e);
        },
        StatementView::VarDecl { name, var_type, initializer } => {
            match initializer {
                Some(e) => {
                    lemma_expr_adds_no_work(ctx, registry, e);
                    let value = lower_expr_spec(ctx, registry, e);
                    match value.result {
                        Ok(v) => {
                            lemma_simple_frames(value.ctx, LiteralView::Nil, name, var_type, v);
                        },
                        Err(e) => {},
                    }
                },
                None => {
                    lemma_simple_frames(
                        ctx,
                        LiteralView::Nil,
                        name,
                        var_type,
                        zero_of(storage_type_spec(var_type)),
                    );
                },
            }
        },
        StatementView::Block(stmts) => {
            lemma_statements_add_no_work(ctx, registry, stmts, 0);
        },
        StatementView::If { condition, then_branch, else_branch } => {
            lemma_if_adds_no_work(ctx, registry, s);
        },
        StatementView::While { condition, body } => {
            lemma_while_adds_no_work(ctx, registry, s);
        },
        StatementView::Function(decl) => {
            let func = ctx.module.functions.len() as usize;
            let known = ctx.set_function(Seq::empty(), decl.name, NativeFuncView::Lowered(func));
            lemma_set_function_workload(
                ctx,
                registry,
                Seq::empty(),
                decl.name,
                NativeFuncView::Lowered(func),
            );
            lemma_set_function_keeps(ctx, Seq::empty(), decl.name, NativeFuncView::Lowered(func));
            lemma_set_function_keeps_functions(
                ctx,
                Seq::empty(),
                decl.name,
                NativeFuncView::Lowered(func),
            );
            lemma_set_function_keeps_ready(
                ctx,
                Seq::empty(),
                decl.name,
                NativeFuncView::Lowered(func),
            );
            lemma_function_adds_no_work(known, registry, decl);
        },
        StatementView::Return { value } => {
            match value {
                Some(e) => {
                    lemma_expr_adds_no_work(ctx, registry, e);
                    let lowered = lower_expr_spec(ctx, registry, e);
                    match lowered.result {
                        Ok(v) => {
                            lemma_simple_frames(lowered.ctx, LiteralView::Nil, Seq::empty(), None, v);
                        },
                        Err(e) => {},
                    }
                },
                None => {
                    lemma_simple_frames(ctx, LiteralView::Nil, Seq::empty(), None, Value::FloatZero);
                },
            }
        },
        StatementView::Include(path) => {
            lemma_include_workload(ctx, registry, path);
            lemma_include_keeps(ctx, registry, path);
            lemma_include_keeps_emitted(ctx, registry, path);
            lemma_include_keeps_functions(ctx, registry, path);
            lemma_include_keeps_ready(ctx, registry, path);
        },
    }
}

/// A conditional adds no work, takes no module away, and keeps what was
/// emitted.
pub proof fn lemma_if_adds_no_work(ctx: CtxView, registry: RegistryView, s: StatementView)
    ensures
        workload(lower_if_spec(ctx, registry, s).ctx, registry) <= workload(ctx, registry),
        keeps_modules(ctx, lower_if_spec(ctx, registry, s).ctx),
        lower_if_spec(ctx, registry, s).ctx.keeps_emitted(ctx),
        keeps_functions(ctx, lower_if_spec(ctx, registry, s).ctx),
        keeps_ready(ctx, lower_if_spec(ctx, registry, s).ctx),
    decreases workload(ctx, registry), 1int, s, 2int,
{
    match s {
        StatementView::If { condition, then_branch, else_branch } => {
            lemma_expr_adds_no_work(ctx, registry, condition);
            let cond = settled(ctx, registry, lower_expr_spec(ctx, registry, condition));
            match cond.result {
                Err(e) => {},
                Ok(c) => {
                    let test = test_condition(cond.ctx, c);
                    lemma_test_condition_frame(cond.ctx, c);
                    match test.result {
                        Err(e) => {},
                        Ok(t) => {
                            let opened = open_if(test.ctx, t, else_branch is Some);
                            lemma_open_if_frame(test.ctx, t, else_branch is Some);
                            match opened.result {
                                Err(e) => {},
                                Ok(blocks) => {
                                    lemma_branches_add_no_work(
                                        opened.ctx,
                                        registry,
                                        s,
                                        blocks.1,
                                        blocks.2,
                                    );
                                },
                            }
                        },
                    }
                },
            }
        },
        _ => {},
    }
}

/// The branches of a conditional add no work, take no module away, and
/// keep what was emitted.
pub proof fn lemma_branches_add_no_work(
    ctx: CtxView,
    registry: RegistryView,
    s: StatementView,
    else_block: Option<BlockRef>,
    merge: BlockRef,
)
    ensures
        workload(lower_branches_spec(ctx, registry, s, else_block, merge).ctx, registry)
            <= workload(ctx, registry),
        keeps_modules(ctx, lower_branches_spec(ctx, registry, s, else_block, merge).ctx),
        lower_branches_spec(ctx, registry, s, else_block, merge).ctx.keeps_emitted(ctx),
        keeps_functions(ctx, lower_branches_spec(ctx, registry, s, else_block, merge).ctx),
        keeps_ready(ctx, lower_branches_spec(ctx, registry, s, else_block, merge).ctx),
    decreases workload(ctx, registry), 1int, s, 1int,
{
    match s {
        StatementView::If { condition, then_branch, else_branch } => {
            lemma_statement_adds_no_work(ctx, registry, *then_branch);
            let then_done = settled(ctx, registry, lower_statement_spec(ctx, registry, *then_branch));
            match then_done.result {
                Err(e) => {},
                Ok(u) => match (else_branch, else_block) {
                    (Some(branch), Some(block)) => {
                        let moved = end_branch(then_done.ctx, merge, block);
                        lemma_end_branch_frame(then_done.ctx, merge, block);
                        match moved.result {
                            Err(e) => {},
                            Ok(u) => {
                                lemma_statement_adds_no_work(moved.ctx, registry, *branch);
                                let else_done = lower_statement_spec(moved.ctx, registry, *branch);
                                match else_done.result {
                                    Err(e) => {},
                                    Ok(u) => {
                                        lemma_end_branch_frame(else_done.ctx, merge, merge);
                                    },
                                }
                            },
                        }
                    },
                    _ => {
                        lemma_end_branch_frame(then_done.ctx, merge, merge);
                    },
                },
            }
        },
        _ => {},
    }
}

/// A loop adds no work, takes no module away, and keeps what was emitted.
pub proof fn lemma_while_adds_no_work(ctx: CtxView, registry: RegistryView, s: StatementView)
    ensures
        workload(lower_while_spec(ctx, registry, s).ctx, registry) <= workload(ctx, registry),
        keeps_modules(ctx, lower_while_spec(ctx, registry, s).ctx),
        lower_while_spec(ctx, registry, s).ctx.keeps_emitted(ctx),
        keeps_functions(ctx, lower_while_spec(ctx, registry, s).ctx),
        keeps_ready(ctx, lower_while_spec(ctx, registry, s).ctx),
    decreases workload(ctx, registry), 1int, s, 2int,
{
    match s {
        StatementView::While { condition, body } => {
            let opened = open_while(ctx);
            lemma_open_while_frame(ctx);
            match opened.result {
                Err(e) => {},
                Ok(blocks) => {
                    lemma_expr_adds_no_work(opened.ctx, registry, condition);
                    let cond = settled(
                        opened.ctx,
                        registry,
                        lower_expr_spec(opened.ctx, registry, condition),
                    );
                    match cond.result {
                        Err(e) => {},
                        Ok(c) => {
                            let test = test_condition(cond.ctx, c);
                            lemma_test_condition_frame(cond.ctx, c);
                            match test.result {
                                Err(e) => {},
                                Ok(t) => {
                                    let branched = branch_while(test.ctx, t, blocks.1, blocks.2);
                                    lemma_branch_while_frame(test.ctx, t, blocks.1, blocks.2);
                                    match branched.result {
                                        Err(e) => {},
                                        Ok(u) => {
                                            lemma_statement_adds_no_work(
                                                branched.ctx,
                                                registry,
                                                *body,
                                            );
                                            let body_done = lower_statement_spec(
                                                branched.ctx,
                                                registry,
                                                *body,
                                            );
                                            match body_done.result {
                                                Err(e) => {},
                                                Ok(u) => {
                                                    lemma_end_branch_frame(
                                                        body_done.ctx,
                                                        blocks.0,
                                                        blocks.2,
                                                    );
                                                },
                                            }
                                        },
                                    }
                                },
                            }
                        },
                    }
                },
            }
        },
        _ => {},
    }
}

/// Statements in a row add no work, take no module away, and keep what was
/// emitted.
pub proof fn lemma_statements_add_no_work(
    ctx: CtxView,
    registry: RegistryView,
    stmts: Seq<StatementView>,
    from: int,
)
    ensures
        workload(lower_statements_spec(ctx, registry, stmts, from).ctx, registry) <= workload(
            ctx,
            registry,
        ),
        keeps_modules(ctx, lower_statements_spec(ctx, registry, stmts, from).ctx),
        lower_statements_spec(ctx, registry, stmts, from).ctx.keeps_emitted(ctx),
        keeps_functions(ctx, lower_statements_spec(ctx, registry, stmts, from).ctx),
        keeps_ready(ctx, lower_statements_spec(ctx, registry, stmts, from).ctx),
    decreases workload(ctx, registry), 1int, stmts, stmts.len() - from,
{
    if 0 <= from < stmts.len() {
        lemma_statement_adds_no_work(ctx, registry, stmts[from]);
        let first = settled(ctx, registry, lower_statement_spec(ctx, registry, stmts[from]));
        match first.result {
            Err(e) => {},
            Ok(u) => {
                lemma_statements_add_no_work(first.ctx, registry, stmts, from + 1);
            },
        }
    }
}

/// A function adds no work, takes no module away, and keeps what was
/// emitted.
pub proof fn lemma_function_adds_no_work(ctx: CtxView, registry: RegistryView, decl: FunctionDeclView)
    ensures
        workload(lower_function_spec(ctx, registry, decl).ctx, registry) <= workload(ctx, registry),
        keeps_modules(ctx, lower_function_spec(ctx, registry, decl).ctx),
        lower_function_spec(ctx, registry, decl).ctx.keeps_emitted(ctx),
        keeps_functions(ctx, lower_function_spec(ctx, registry, decl).ctx),
        keeps_ready(ctx, lower_function_spec(ctx, registry, decl).ctx),
    decreases workload(ctx, registry), 1int, decl, 0int,
{
    let opened = open_function(ctx, decl);
    lemma_open_function_frame(ctx, decl);
    match opened.result {
        Err(e) => {},
        Ok(func) => {
            lemma_statements_add_no_work(opened.ctx, registry, decl.body, 0);
            let body = lower_statements_spec(opened.ctx, registry, decl.body, 0);
            match body.result {
                Err(e) => {},
                Ok(u) => {
                    lemma_close_function_frame(body.ctx, func);
                },
            }
        },
    }
}

/// Lowering never adds to the work that is left, so `settled` changes none
/// of the outcomes that the definition of lowering passes through it.
pub proof fn lemma_lowering_settles(
    ctx: CtxView,
    registry: RegistryView,
    e: ExprView,
    s: StatementView,
    decl: FunctionDeclView,
)
    ensures
        settled(ctx, registry, lower_expr_spec(ctx, registry, e)) == lower_expr_spec(
            ctx,
            registry,
            e,
        ),
        settled(ctx, registry, lower_statement_spec(ctx, registry, s)) == lower_statement_spec(
            ctx,
            registry,
            s,
        ),
        settled(ctx, registry, lower_function_spec(ctx, registry, decl)) == lower_function_spec(
            ctx,
            registry,
            decl,
        ),
{
    lemma_expr_adds_no_work(ctx, registry, e);
    lemma_statement_adds_no_work(ctx, registry, s);
    lemma_function_adds_no_work(ctx, registry, decl);
}

/// A function that was lowered without error passes the structural check:
/// each of its blocks ends in a terminator and holds no other.
pub proof fn lemma_lowered_function_is_well_formed(
    ctx: CtxView,
    registry: RegistryView,
    decl: FunctionDeclView,
)
    ensures
        lower_function_spec(ctx, registry, decl).result matches Ok(func) ==> {
            let after = lower_function_spec(ctx, registry, decl).ctx;
            &&& func < after.module.functions.len()
            &&& after.module.functions[func as int].is_well_formed()
        },
{
}

/// The type that was recorded for a slot stays: in a state that keeps what
/// an earlier state had emitted, the slot is read with the same type.
pub proof fn lemma_recorded_type_stays(earlier: CtxView, later: CtxView, func: usize, index: usize)
    requires
        later.keeps_emitted(earlier),
        earlier.module.slot_at(func as int, index as int) is Some,
    ensures
        later.recorded_type(Value::Slot { func, index }) == earlier.recorded_type(
            Value::Slot { func, index },
        ),
{
}

/// A variable that was declared is read back with the type of its
/// declaration, from the slot that its value was stored in. The declaration
/// stores the value in a new slot of the function under the cursor; a read
/// that follows, through a node that names no type, is a load from that
/// slot with the storage type of the declaration, and gives a value of that
/// type. (The function is one whose slots a machine can count.)
pub proof fn lemma_declared_variable_is_read_back(
    ctx: CtxView,
    name: Seq<char>,
    var_type: Option<Types>,
    value: Value,
)
    requires
        finish_var_decl(ctx, name, var_type, value).result is Ok,
        ctx.module.functions[ctx.insert_block()->0.func as int].slots.len() <= usize::MAX,
    ensures
        ({
            let at = ctx.insert_block()->0;
            let slot = Value::Slot {
                func: at.func,
                index: ctx.module.functions[at.func as int].slots.len() as usize,
            };
            let declared = finish_var_decl(ctx, name, var_type, value).ctx;
            let ty = storage_type_spec(var_type);
            let read = lower_variable(declared, name, None);
            &&& ctx.insert_block() is Some
            &&& lookup(declared.variables, name) == Some(slot)
            &&& declared.module.functions[at.func as int].blocks[at.block as int].instrs.last()
                == (InstrView::Store { ptr: slot, value })
            &&& declared.recorded_type(slot) == ty
            &&& read == declared.emit_value(InstrView::Load { ty, ptr: slot }, ty)
            &&& read.result matches Ok(v) && v.ty_spec() == ty
            &&& read.ctx.variables == declared.variables
        }),
{
    let slotted = ctx.add_slot(storage_type_spec(var_type), name);
    let slot = slotted.result->Ok_0;
    let stored = slotted.ctx.emit(InstrView::Store { ptr: slot, value });
    lemma_put(stored.ctx.variables, name, slot, name);
}

/// A read names the type of its variable's declaration whatever was
/// lowered between the declaration and the read, as long as the name still
/// has the place that the declaration gave it: the read through a node
/// without a type is a load of the recorded type.
pub proof fn lemma_read_has_the_recorded_type(ctx: CtxView, name: Seq<char>, func: usize, index: usize)
    requires
        lookup(ctx.variables, name) == Some(Value::Slot { func, index }),
        ctx.module.slot_at(func as int, index as int) is Some,
    ensures
        ({
            let ty = ctx.module.functions[func as int].slots[index as int].ty;
            let place = Value::Slot { func, index };
            &&& lower_variable(ctx, name, None) == ctx.emit_value(
                InstrView::Load { ty, ptr: place },
                ty,
            )
            &&& lower_variable(ctx, name, None).result matches Ok(v) ==> v.ty_spec() == ty
        }),
{
}

/// A variable whose declaration gave it the storage of a float is a
/// condition: a read of it through a node without a type gives a float, which
/// the test of a loop or of a conditional accepts.
pub proof fn lemma_float_variable_is_a_condition(
    ctx: CtxView,
    name: Seq<char>,
    func: usize,
    index: usize,
)
    requires
        lookup(ctx.variables, name) == Some(Value::Slot { func, index }),
        ctx.module.slot_at(func as int, index as int) matches Some(slot) && slot.ty == IrType::F64,
        ctx.insert_block() is Some,
    ensures
        ({
            let read = lower_variable(ctx, name, None);
            &&& read.result matches Ok(v) && v.kind_spec() == ValueKind::Float
            &&& test_condition(read.ctx, read.result->Ok_0).result is Ok
        }),
{
    let read = lower_variable(ctx, name, None);
    let at = ctx.insert_block()->0;
    lemma_keeps(
        ctx,
        InstrView::Load { ty: IrType::F64, ptr: Value::Slot { func, index } },
        IrType::F64,
        Seq::empty(),
    );
    assert(ctx.module.label_at(at) is Some);
    assert(read.ctx.module.label_at(at) is Some);
}

/// An assignment stores its value in the slot of the variable and has that
/// value; a read that follows is a load from the same slot.
pub proof fn lemma_assignment_is_a_value(ctx: CtxView, name: Seq<char>, value: Value)
    requires
        finish_assign(ctx, name, value).result is Ok,
    ensures
        finish_assign(ctx, name, value).result == Ok::<Value, Seq<char>>(value),
        lookup(ctx.variables, name) is Some,
        finish_assign(ctx, name, value).ctx == ctx.emit(
            InstrView::Store { ptr: lookup(ctx.variables, name)->0, value },
        ).ctx,
        finish_assign(ctx, name, value).ctx.variables == ctx.variables,
        forall|place: Value| finish_assign(ctx, name, value).ctx.recorded_type(place)
            == ctx.recorded_type(place),
        forall|var_type: Option<Types>|
            lower_variable(finish_assign(ctx, name, value).ctx, name, var_type)
                == finish_assign(ctx, name, value).ctx.emit_value(
                InstrView::Load {
                    ty: read_type(ctx, lookup(ctx.variables, name)->0, var_type),
                    ptr: lookup(ctx.variables, name)->0,
                },
                read_type(ctx, lookup(ctx.variables, name)->0, var_type),
            ),
{
}

/// A module that the first call of a callee found or registered is still
/// in the registry when the call has been lowered, whatever its arguments
/// did: a second call of the callee registers nothing.
pub proof fn lemma_second_call_registers_nothing(
    ctx: CtxView,
    registry: RegistryView,
    callee: Seq<char>,
    args: Seq<ExprView>,
)
    requires
        has_key(auto_register(ctx, registry, module_part(callee)).modules, module_part(callee)),
    ensures
        ({
            let after = lower_call_spec(ctx, registry, callee, args).ctx;
            &&& has_key(after.modules, module_part(callee))
            &&& auto_register(after, registry, module_part(callee)) == after
        }),
{
    let module_name = module_part(callee);
    let name = function_part(callee);
    let resolved = auto_register(ctx, registry, module_name);
    match resolved.function(module_name, name) {
        None => {},
        Some(NativeFuncView::NativeFn(id)) => {
            lemma_args_add_no_work(resolved, registry, args, 0, Seq::empty());
            let lowered = lower_args_spec(resolved, registry, args, 0, Seq::empty());
            match lowered.result {
                Err(e) => {},
                Ok(values) => {
                    lemma_call_native_frame(lowered.ctx, id, values);
                },
            }
        },
        Some(NativeFuncView::Lowered(func)) => {
            lemma_call_lowered_adds_no_work(resolved, registry, func, args);
        },
        Some(NativeFuncView::AdanFunction(decl)) => {
            let func = resolved.module.functions.len() as usize;
            let marked = resolved.set_function(module_name, name, NativeFuncView::Lowered(func));
            lemma_set_function_workload(
                resolved,
                registry,
                module_name,
                name,
                NativeFuncView::Lowered(func),
            );
            lemma_set_function_keeps(resolved, module_name, name, NativeFuncView::Lowered(func));
            lemma_set_function_keeps_functions(
                resolved,
                module_name,
                name,
                NativeFuncView::Lowered(func),
            );
            lemma_set_function_keeps_ready(
                resolved,
                module_name,
                name,
                NativeFuncView::Lowered(func),
            );
            lemma_function_adds_no_work(marked, registry, decl);
            let made = settled(marked, registry, lower_function_spec(marked, registry, decl));
            match made.result {
                Err(e) => {},
                Ok(f) => {
                    lemma_call_lowered_adds_no_work(
                        made.ctx.with_cursor(resolved.cursor),
                        registry,
                        func,
                        args,
                    );
                },
            }
        },
    }
}

/// Lowering only adds. What an expression, a statement or a function is
/// lowered to goes behind what the module held, and after an error what was
/// emitted stays: every function, slot, block, instruction, global and
/// constant that the module held is still where it was. So a value that
/// lowering gave names the same thing ever after.
pub proof fn lemma_lowering_only_adds(
    ctx: CtxView,
    registry: RegistryView,
    e: ExprView,
    s: StatementView,
    decl: FunctionDeclView,
)
    ensures
        lower_expr_spec(ctx, registry, e).ctx.keeps_emitted(ctx),
        lower_statement_spec(ctx, registry, s).ctx.keeps_emitted(ctx),
        lower_function_spec(ctx, registry, decl).ctx.keeps_emitted(ctx),
        keeps_modules(ctx, lower_expr_spec(ctx, registry, e).ctx),
        keeps_modules(ctx, lower_statement_spec(ctx, registry, s).ctx),
        keeps_modules(ctx, lower_function_spec(ctx, registry, decl).ctx),
        keeps_functions(ctx, lower_expr_spec(ctx, registry, e).ctx),
        keeps_functions(ctx, lower_statement_spec(ctx, registry, s).ctx),
        keeps_functions(ctx, lower_function_spec(ctx, registry, decl).ctx),
        keeps_ready(ctx, lower_expr_spec(ctx, registry, e).ctx),
        keeps_ready(ctx, lower_statement_spec(ctx, registry, s).ctx),
        keeps_ready(ctx, lower_function_spec(ctx, registry, decl).ctx),
{
    lemma_expr_adds_no_work(ctx, registry, e);
    lemma_statement_adds_no_work(ctx, registry, s);
    lemma_function_adds_no_work(ctx, registry, decl);
}

/// Whether every argument is a literal or a variable that is read.
pub open spec fn all_plain(args: Seq<ExprView>) -> bool {
    forall|i: int| 0 <= i < args.len() ==> (#[trigger] args[i]) is Literal || args[i] is Variable
}

/// Whether the value of a literal is a float, an integer or a pointer.
pub open spec fn literal_kind(e: ExprView) -> ValueKind {
    match e {
        ExprView::Literal(LiteralView::Number(text)) => ValueKind::Float,
        ExprView::Literal(LiteralView::Bool(b)) => ValueKind::Int,
        _ => ValueKind::Pointer,
    }
}

/// Whether the value of a literal or of a variable that is read is a
/// float, an integer or a pointer: for a variable this goes by the type with
/// which it is read from its place.
pub open spec fn plain_kind(ctx: CtxView, e: ExprView) -> ValueKind {
    match e {
        ExprView::Variable { var_name, var_type } => match lookup(ctx.variables, var_name) {
            Some(place) => read_type(ctx, place, var_type).kind_spec(),
            None => ValueKind::Pointer,
        },
        _ => literal_kind(e),
    }
}

/// Whether a literal or a variable can be lowered: a literal always, a
/// variable where it is declared and a block is under the cursor.
pub open spec fn plain_is_read(ctx: CtxView, e: ExprView) -> bool {
    match e {
        ExprView::Variable { var_name, var_type } => lookup(ctx.variables, var_name) is Some
            && ctx.insert_block() is Some,
        _ => true,
    }
}

/// Whether two states read variables alike: they hold the same variables,
/// and each place has the same recorded type in both.
pub open spec fn reads_alike(a: CtxView, b: CtxView) -> bool {
    &&& a.variables == b.variables
    &&& forall|place: Value| #[trigger] a.recorded_type(place) == b.recorded_type(place)
}

/// An argument that is a literal or a variable: it is lowered without error
/// exactly where it can be read, its value is of its kind, and the state
/// afterwards has the same registry, variables, cursor and number of
/// functions, and reads variables as before.
pub proof fn lemma_plain_argument(ctx: CtxView, registry: RegistryView, e: ExprView)
    requires
        e is Literal || e is Variable,
    ensures
        ({
            let out = lower_expr_spec(ctx, registry, e);
            &&& out.result is Ok <==> plain_is_read(ctx, e)
            &&& out.result matches Ok(v) ==> v.kind_spec() == plain_kind(ctx, e)
            &&& settled(ctx, registry, out) == out
            &&& out.ctx.modules == ctx.modules
            &&& out.ctx.cursor == ctx.cursor
            &&& out.ctx.insert_block() == ctx.insert_block()
            &&& out.ctx.module.functions.len() == ctx.module.functions.len()
            &&& reads_alike(ctx, out.ctx)
        }),
{
    let out = lower_expr_spec(ctx, registry, e);
    lemma_expr_adds_no_work(ctx, registry, e);
    assert forall|place: Value| #[trigger] ctx.recorded_type(place) == out.ctx.recorded_type(place) by {
        match place {
            Value::Slot { func, index } => {
                assert(ctx.module.slot_at(func as int, index as int) == out.ctx.module.slot_at(
                    func as int,
                    index as int,
                ));
            },
            _ => {},
        }
    }
}

/// Arguments that are literals and variables: they are lowered without
/// error exactly where each can be read, each value is of the kind of its
/// argument, and the state afterwards has the same registry, variables,
/// cursor and number of functions, and reads variables as before.
pub proof fn lemma_plain_args(
    ctx: CtxView,
    registry: RegistryView,
    args: Seq<ExprView>,
    from: int,
    values: Seq<Value>,
)
    requires
        all_plain(args),
        0 <= from <= args.len(),
    ensures
        ({
            let out = lower_args_spec(ctx, registry, args, from, values);
            &&& out.result is Ok <==> forall|j: int|
                from <= j < args.len() ==> plain_is_read(ctx, #[trigger] args[j])
            &&& out.result matches Ok(all) ==> {
                &&& all.len() == values.len() + args.len() - from
                &&& forall|i: int| 0 <= i < values.len() ==> all[i] == values[i]
                &&& forall|j: int|
                    from <= j < args.len() ==> (#[trigger] all[values.len() + j - from]).kind_spec()
                        == plain_kind(ctx, args[j])
                &&& from == 0 && values.len() == 0 && args.len() > 0 ==> all[0].kind_spec()
                    == plain_kind(ctx, args[0])
            }
            &&& out.ctx.modules == ctx.modules
            &&& out.ctx.cursor == ctx.cursor
            &&& out.ctx.insert_block() == ctx.insert_block()
            &&& out.ctx.module.functions.len() == ctx.module.functions.len()
            &&& reads_alike(ctx, out.ctx)
        }),
    decreases args.len() - from,
{
    if from < args.len() {
        assert(args[from] is Literal || args[from] is Variable);
        lemma_plain_argument(ctx, registry, args[from]);
        let first = lower_expr_spec(ctx, registry, args[from]);
        let out = lower_args_spec(ctx, registry, args, from, values);
        if first.result is Ok {
            let v = first.result->Ok_0;
            lemma_plain_args(first.ctx, registry, args, from + 1, values.push(v));
            assert forall|j: int| from <= j < args.len() implies plain_is_read(ctx, args[j])
                == plain_is_read(first.ctx, #[trigger] args[j]) by {}
            assert forall|j: int| from <= j < args.len() implies plain_kind(ctx, args[j]) == plain_kind(
                first.ctx,
                #[trigger] args[j],
            ) by {
                lemma_reads_alike_kinds(ctx, first.ctx, args[j]);
            }
            assert forall|place: Value| #[trigger]
                ctx.recorded_type(place) == out.ctx.recorded_type(place) by {
                assert(first.ctx.recorded_type(place) == out.ctx.recorded_type(place));
            }
            if out.result is Ok {
                let all = out.result->Ok_0;
                assert forall|j: int| from <= j < args.len() implies (#[trigger] all[values.len() + j
                    - from]).kind_spec() == plain_kind(ctx, args[j]) by {
                    if j == from {
                        assert(all[values.len() as int] == values.push(v)[values.len() as int]);
                    } else {
                        assert(all[values.push(v).len() + j - (from + 1)] == all[values.len() + j - from]);
                    }
                }
                assert forall|i: int| 0 <= i < values.len() implies all[i] == values[i] by {
                    assert(values.push(v)[i] == values[i]);
                }
                if from == 0 && values.len() == 0 {
                    assert(all[0] == values.push(v)[0]);
                }
            }
        }
    }
}

/// States that read variables alike give a literal or a variable the same kind.
pub proof fn lemma_reads_alike_kinds(a: CtxView, b: CtxView, e: ExprView)
    requires
        reads_alike(a, b),
    ensures
        plain_kind(a, e) == plain_kind(b, e),
{
    match e {
        ExprView::Variable { var_name, var_type } => {
            match lookup(a.variables, var_name) {
                Some(place) => {
                    assert(a.recorded_type(place) == b.recorded_type(place));
                },
                None => {},
            }
        },
        _ => {},
    }
}

/// What a function of the runtime needs for its call to be lowered without
/// error, apart from a block under the cursor: the printing function a
/// first argument that is a float or a pointer, a function of the host that
/// it is declared in the module.
pub open spec fn native_accepts(ctx: CtxView, id: NativeId, args: Seq<Value>) -> bool {
    match id {
        NativeId::Printf => args.len() > 0 && args[0].kind_spec() != ValueKind::Int,
        NativeId::Host(func) => ctx.module.has_function(func),
    }
}

/// A function of the runtime is called without error exactly where it
/// accepts its arguments and a block is under the cursor. The call leaves
/// the cursor where it was and the block in the module.
pub proof fn lemma_native_call_succeeds(ctx: CtxView, id: NativeId, args: Seq<Value>)
    ensures
        call_native_spec(ctx, id, args).result is Ok <==> native_accepts(ctx, id, args)
            && ctx.insert_block() is Some,
        call_native_spec(ctx, id, args).ctx.cursor == ctx.cursor,
        ctx.insert_block() is Some ==> call_native_spec(ctx, id, args).ctx.insert_block()
            == ctx.insert_block(),
        forall|func: usize|
            ctx.module.has_function(func) ==> call_native_spec(
                ctx,
                id,
                args,
            ).ctx.module.has_function(func),
{
    lemma_call_native_frame(ctx, id, args);
    match ctx.insert_block() {
        Some(at) => {
            assert(ctx.module.label_at(at) is Some);
            assert(call_native_spec(ctx, id, args).ctx.module.label_at(at) is Some);
        },
        None => {},
    }
    assert forall|func: usize| ctx.module.has_function(func) implies call_native_spec(
        ctx,
        id,
        args,
    ).ctx.module.has_function(func) by {
        assert(ctx.module.signature_at(func as int) is Some);
        assert(call_native_spec(ctx, id, args).ctx.module.signature_at(func as int) is Some);
    }
}

/// What a function of the runtime needs of arguments that are literals
/// and variables.
pub open spec fn native_accepts_plain(ctx: CtxView, id: NativeId, args: Seq<ExprView>) -> bool {
    match id {
        NativeId::Printf => args.len() > 0 && plain_kind(ctx, args[0]) != ValueKind::Int,
        NativeId::Host(func) => ctx.module.has_function(func),
    }
}

/// Whether each of the arguments, literals and variables, can be read.
pub open spec fn all_read(ctx: CtxView, args: Seq<ExprView>) -> bool {
    forall|j: int| 0 <= j < args.len() ==> plain_is_read(ctx, #[trigger] args[j])
}

/// A call of a function of the runtime leaves the variables as they are
/// and reads them as before.
pub proof fn lemma_native_call_reads_alike(ctx: CtxView, id: NativeId, args: Seq<Value>)
    ensures
        reads_alike(ctx, call_native_spec(ctx, id, args).ctx),
{
    let out = call_native_spec(ctx, id, args).ctx;
    assert forall|place: Value| #[trigger] ctx.recorded_type(place) == out.recorded_type(place) by {
        match place {
            Value::Slot { func, index } => {
                assert(ctx.module.slot_at(func as int, index as int) == out.module.slot_at(
                    func as int,
                    index as int,
                ));
            },
            _ => {},
        }
    }
}

/// A call of a function of the runtime that the registry holds, with
/// arguments that are literals and variables: it is lowered without error
/// exactly where a block is under the cursor, each argument can be read and
/// the function accepts the arguments; it registers nothing, leaves the
/// cursor, that block and the functions of the module in place, and the
/// variables are read as before.
pub proof fn lemma_native_call_of_plain(
    ctx: CtxView,
    registry: RegistryView,
    callee: Seq<char>,
    args: Seq<ExprView>,
    id: NativeId,
)
    requires
        all_plain(args),
        ctx.function(module_part(callee), function_part(callee)) == Some(
            NativeFuncView::NativeFn(id),
        ),
    ensures
        ({
            let out = lower_call_spec(ctx, registry, callee, args);
            &&& out.result is Ok <==> ctx.insert_block() is Some && all_read(ctx, args)
                && native_accepts_plain(ctx, id, args)
            &&& out.ctx.modules == ctx.modules
            &&& out.ctx.cursor == ctx.cursor
            &&& ctx.insert_block() is Some ==> out.ctx.insert_block() == ctx.insert_block()
            &&& reads_alike(ctx, out.ctx)
            &&& forall|func: usize| ctx.module.has_function(func) ==> out.ctx.module.has_function(func)
        }),
{
    let module_name = module_part(callee);
    let name = function_part(callee);
    lemma_registered(ctx, module_name, name);
    assert(auto_register(ctx, registry, module_name) == ctx);
    lemma_plain_args(ctx, registry, args, 0, Seq::empty());
    let lowered = lower_args_spec(ctx, registry, args, 0, Seq::empty());
    let out = lower_call_spec(ctx, registry, callee, args);
    if lowered.result is Ok {
        let values = lowered.result->Ok_0;
        assert(native_accepts(lowered.ctx, id, values) == native_accepts_plain(ctx, id, args));
        lemma_native_call_succeeds(lowered.ctx, id, values);
        lemma_call_native_frame(lowered.ctx, id, values);
        lemma_native_call_reads_alike(lowered.ctx, id, values);
        assert(out == call_native_spec(lowered.ctx, id, values));
        assert forall|place: Value| #[trigger] ctx.recorded_type(place) == out.ctx.recorded_type(place) by {
            assert(lowered.ctx.recorded_type(place) == out.ctx.recorded_type(place));
        }
    } else {
        assert(out.ctx == lowered.ctx);
    }
}

/// A declaration from source is lowered by the first call of it and by no
/// later one. While the first call is lowered the registry holds the
/// function of the module in the place of the declaration, from before the
/// body is lowered, so that a call in the body finds it. Whatever is
/// lowered afterwards, a call of the callee finds a function that needs no
/// lowering.
pub proof fn lemma_declaration_is_lowered_once(
    ctx: CtxView,
    registry: RegistryView,
    callee: Seq<char>,
    args: Seq<ExprView>,
)
    requires
        auto_register(ctx, registry, module_part(callee)).function(
            module_part(callee),
            function_part(callee),
        ) matches Some(NativeFuncView::AdanFunction(decl)),
    ensures
        ({
            let first = lower_call_spec(ctx, registry, callee, args);
            let found = first.ctx.function(module_part(callee), function_part(callee));
            &&& found matches Some(f) && !(f is AdanFunction)
            &&& auto_register(first.ctx, registry, module_part(callee)) == first.ctx
            &&& workload(first.ctx, registry) < workload(ctx, registry)
        }),
{
    let module_name = module_part(callee);
    let name = function_part(callee);
    let resolved = auto_register(ctx, registry, module_name);
    let decl = resolved.function(module_name, name)->0->AdanFunction_0;
    let func = resolved.module.functions.len() as usize;
    let lowered = NativeFuncView::Lowered(func);
    let marked = resolved.set_function(module_name, name, lowered);
    lemma_auto_register_workload(ctx, registry, module_name);
    lemma_set_function_workload(resolved, registry, module_name, name, lowered);
    lemma_set_function_keeps_ready(resolved, module_name, name, lowered);
    lemma_set_function_keeps(resolved, module_name, name, lowered);
    lemma_function_adds_no_work(marked, registry, decl);
    let made = settled(marked, registry, lower_function_spec(marked, registry, decl));
    match made.result {
        Err(e) => {},
        Ok(f) => {
            lemma_call_lowered_adds_no_work(
                made.ctx.with_cursor(resolved.cursor),
                registry,
                func,
                args,
            );
        },
    }
    let first = lower_call_spec(ctx, registry, callee, args);
    assert(ready(first.ctx.modules, module_name, name));
    lemma_ready(first.ctx, module_name, name);
    assert(has_key(first.ctx.modules, module_name));
}

/// The blocks of a loop. Where they are made without error, the function
/// under the cursor gets three blocks at its end, for the condition, the
/// body and what follows the loop, in this order; the block that was under
/// the cursor gets a jump to the condition as its next instruction; and the
/// cursor is at the condition. (The function is one whose blocks a
/// machine can count.)
pub proof fn lemma_while_blocks(ctx: CtxView)
    requires
        open_while(ctx).result is Ok,
        ctx.module.functions[ctx.insert_block()->0.func as int].blocks.len() + 3 <= usize::MAX,
    ensures
        ({
            let at = ctx.insert_block()->0;
            let n = ctx.module.functions[at.func as int].blocks.len();
            let next = ctx.module.functions[at.func as int].blocks[at.block as int].instrs.len();
            let cond = BlockRef { func: at.func, block: n as usize };
            let body = BlockRef { func: at.func, block: (n + 1) as usize };
            let merge = BlockRef { func: at.func, block: (n + 2) as usize };
            let opened = open_while(ctx);
            &&& ctx.insert_block() is Some
            &&& opened.result == Ok::<(BlockRef, BlockRef, BlockRef), Seq<char>>((cond, body, merge))
            &&& opened.ctx.module.functions[at.func as int].blocks.len() == n + 3
            &&& opened.ctx.module.label_at(cond) == Some(BlockLabel::WhileCond)
            &&& opened.ctx.module.label_at(body) == Some(BlockLabel::WhileBody)
            &&& opened.ctx.module.label_at(merge) == Some(BlockLabel::WhileCont)
            &&& opened.ctx.module.instr_at(at, next as int) == Some(InstrView::Br { target: cond })
            &&& opened.ctx.cursor == Some(cond)
            &&& opened.ctx.module.instr_at(cond, 0) is None
        }),
{
}

/// The branch of a loop. Where it is made without error, the block under
/// the cursor gets, as its next instruction, a branch on the test to the
/// body and to what follows the loop; and the cursor is at the body.
pub proof fn lemma_while_branch(ctx: CtxView, test: Value, body: BlockRef, merge: BlockRef)
    requires
        branch_while(ctx, test, body, merge).result is Ok,
    ensures
        ({
            let at = ctx.insert_block()->0;
            let next = ctx.module.functions[at.func as int].blocks[at.block as int].instrs.len();
            let branched = branch_while(ctx, test, body, merge).ctx;
            &&& ctx.insert_block() is Some
            &&& branched.module.instr_at(at, next as int) == Some(
                InstrView::CondBr { cond: test, then_block: body, else_block: merge },
            )
            &&& branched.cursor == Some(body)
        }),
{
}

/// A loop that was lowered without error leaves the cursor at the block
/// that follows the loop, and the three blocks of the loop are in the module
/// as they were made, whatever the body added.
pub proof fn lemma_while_leaves_cursor_behind_the_loop(
    ctx: CtxView,
    registry: RegistryView,
    s: StatementView,
)
    requires
        s is While,
        lower_while_spec(ctx, registry, s).result is Ok,
    ensures
        ({
            let blocks = open_while(ctx).result->Ok_0;
            let done = lower_while_spec(ctx, registry, s).ctx;
            &&& open_while(ctx).result is Ok
            &&& done.cursor == Some(blocks.2)
            &&& done.keeps_emitted(open_while(ctx).ctx)
            &&& open_while(ctx).ctx.module.label_at(blocks.2) is Some ==> done.module.label_at(
                blocks.2,
            ) == open_while(ctx).ctx.module.label_at(blocks.2)
        }),
{
    match s {
        StatementView::While { condition, body } => {
            let opened = open_while(ctx);
            let blocks = opened.result->Ok_0;
            lemma_expr_adds_no_work(opened.ctx, registry, condition);
            let cond = settled(opened.ctx, registry, lower_expr_spec(opened.ctx, registry, condition));
            let c = cond.result->Ok_0;
            let test = test_condition(cond.ctx, c);
            lemma_test_condition_frame(cond.ctx, c);
            let t = test.result->Ok_0;
            let branched = branch_while(test.ctx, t, blocks.1, blocks.2);
            lemma_branch_while_frame(test.ctx, t, blocks.1, blocks.2);
            lemma_statement_adds_no_work(branched.ctx, registry, *body);
            let body_done = lower_statement_spec(branched.ctx, registry, *body);
            lemma_end_branch_frame(body_done.ctx, blocks.0, blocks.2);
        },
        _ => {},
    }
}

/// The blocks of a conditional. Where they are made without error, the
/// function under the cursor gets at its end a block for the then branch, a
/// block for the else branch where there is one, and the block where both
/// meet, in this order; the block that was under the cursor gets, as its
/// next instruction, a branch on the test to the then block and to the else
/// block, or to the block where both meet where there is no else branch; and
/// the cursor is at the then block. (The function is one whose blocks a
/// machine can count.)
pub proof fn lemma_if_blocks(ctx: CtxView, test: Value, has_else: bool)
    requires
        open_if(ctx, test, has_else).result is Ok,
        ctx.module.functions[ctx.insert_block()->0.func as int].blocks.len() + 3 <= usize::MAX,
    ensures
        ({
            let at = ctx.insert_block()->0;
            let n = ctx.module.functions[at.func as int].blocks.len();
            let next = ctx.module.functions[at.func as int].blocks[at.block as int].instrs.len();
            let then_block = BlockRef { func: at.func, block: n as usize };
            let second = BlockRef { func: at.func, block: (n + 1) as usize };
            let third = BlockRef { func: at.func, block: (n + 2) as usize };
            let merge = if has_else {
                third
            } else {
                second
            };
            let opened = open_if(ctx, test, has_else);
            &&& ctx.insert_block() is Some
            &&& opened.result == Ok::<(BlockRef, Option<BlockRef>, BlockRef), Seq<char>>(
                (
                    then_block,
                    if has_else {
                        Some(second)
                    } else {
                        None
                    },
                    merge,
                ),
            )
            &&& opened.ctx.module.label_at(then_block) == Some(BlockLabel::Then)
            &&& has_else ==> opened.ctx.module.label_at(second) == Some(BlockLabel::Else)
            &&& opened.ctx.module.label_at(merge) == Some(BlockLabel::IfCont)
            &&& opened.ctx.module.instr_at(at, next as int) == Some(
                InstrView::CondBr { cond: test, then_block, else_block: second },
            )
            &&& opened.ctx.cursor == Some(then_block)
        }),
{
}

/// A conditional that was lowered without error leaves the cursor at the
/// block where its branches meet, and the blocks of the conditional are in
/// the module as they were made, whatever the branches added.
pub proof fn lemma_if_leaves_cursor_where_the_branches_meet(
    ctx: CtxView,
    registry: RegistryView,
    s: StatementView,
    else_block: Option<BlockRef>,
    merge: BlockRef,
)
    requires
        s is If,
        lower_branches_spec(ctx, registry, s, else_block, merge).result is Ok,
    ensures
        ({
            let done = lower_branches_spec(ctx, registry, s, else_block, merge).ctx;
            &&& done.cursor == Some(merge)
            &&& done.keeps_emitted(ctx)
        }),
{
    lemma_branches_add_no_work(ctx, registry, s, else_block, merge);
}

/// The end of a branch leaves the block that was under the cursor with one
/// terminator, at its end: where the block held no terminator before its
/// last instruction, it is well formed when the branch has ended.
pub proof fn lemma_branch_ends_with_one_terminator(ctx: CtxView, target: BlockRef, next: BlockRef)
    requires
        end_branch(ctx, target, next).result is Ok,
        ({
            let at = ctx.insert_block()->0;
            let block = ctx.module.functions[at.func as int].blocks[at.block as int];
            forall|i: int| 0 <= i < block.instrs.len() - 1 ==> !(#[trigger] block.instrs[i]).is_terminator()
        }),
    ensures
        ({
            let at = ctx.insert_block()->0;
            let ended = end_branch(ctx, target, next).ctx;
            &&& ctx.insert_block() is Some
            &&& ended.module.functions[at.func as int].blocks[at.block as int].is_well_formed()
            &&& ended.cursor == Some(next)
            &&& cursor_terminated(ctx) ==> ended.module == ctx.module
        }),
{
    let at = ctx.insert_block()->0;
    let block = ctx.module.functions[at.func as int].blocks[at.block as int];
    if !cursor_terminated(ctx) {
        let ended = end_branch(ctx, target, next).ctx;
        let after = ended.module.functions[at.func as int].blocks[at.block as int];
        assert(after.instrs == block.instrs.push(InstrView::Br { target }));
        assert forall|i: int| 0 <= i < after.instrs.len() - 1 implies !(#[trigger] after.instrs[i]).is_terminator() by {
            assert(after.instrs[i] == block.instrs[i]);
            if i == block.instrs.len() - 1 {
                assert(block.instrs.last() == block.instrs[i]);
            }
        }
    }
}

/// A block that holds one statement is lowered as the statement is.
pub proof fn lemma_block_of_one_statement(ctx: CtxView, registry: RegistryView, s: StatementView)
    ensures
        lower_statement_spec(ctx, registry, StatementView::Block(seq![s])) == lower_statement_spec(
            ctx,
            registry,
            s,
        ),
{
    let stmts = seq![s];
    lemma_statement_adds_no_work(ctx, registry, s);
    let first = lower_statement_spec(ctx, registry, s);
    assert(stmts[0] == s);
    assert(settled(ctx, registry, first) == first);
    assert(lower_statements_spec(ctx, registry, stmts, 0) == (match first.result {
        Err(e) => first,
        Ok(u) => lower_statements_spec(first.ctx, registry, stmts, 1),
    }));
    assert(lower_statements_spec(first.ctx, registry, stmts, 1) == first.ctx.ok(()));
    assert(lower_statement_spec(ctx, registry, StatementView::Block(stmts)) == lower_statements_spec(
        ctx,
        registry,
        stmts,
        0,
    ));
    if first.result is Ok {
        let u: () = first.result->Ok_0;
        assert(u == ());
        assert(first.result == Ok::<(), Seq<char>>(u));
        assert(first.ctx.ok(()) == first);
    }
}

/// A return of a number: the number becomes a constant of the module, and
/// the block under the cursor gets the return of it.
pub proof fn lemma_return_of_a_number(ctx: CtxView, registry: RegistryView, text: Seq<char>)
    ensures
        lower_statement_spec(
            ctx,
            registry,
            StatementView::Return { value: Some(ExprView::Literal(LiteralView::Number(text))) },
        ) == finish_return(
            ctx.add_constant(text),
            Value::Float(ctx.module.constants.len() as usize),
        ),
{
}

/// The function `name` whose body is one conditional on a number, with a
/// branch that returns a number and an else branch that returns another.
pub open spec fn choice_function(
    name: Seq<char>,
    condition: Seq<char>,
    then_text: Seq<char>,
    else_text: Seq<char>,
) -> FunctionDeclView {
    FunctionDeclView {
        name,
        params: Seq::empty(),
        body: seq![
            StatementView::If {
                condition: ExprView::Literal(LiteralView::Number(condition)),
                then_branch: Box::new(
                    StatementView::Block(
                        seq![
                            StatementView::Return {
                                value: Some(ExprView::Literal(LiteralView::Number(then_text))),
                            },
                        ],
                    ),
                ),
                else_branch: Some(
                    Box::new(
                        StatementView::Block(
                            seq![
                                StatementView::Return {
                                    value: Some(ExprView::Literal(LiteralView::Number(else_text))),
                                },
                            ],
                        ),
                    ),
                ),
            },
        ],
    }
}

/// The blocks of a function that was lowered from `choice_function`, where
/// the constants of the module were `k` before.
pub open spec fn choice_blocks(func: usize, k: usize) -> Seq<BlockView> {
    let entry = BlockRef { func, block: 0 };
    let then_block = BlockRef { func, block: 1 };
    let else_block = BlockRef { func, block: 2 };
    seq![
        BlockView {
            label: BlockLabel::Entry,
            instrs: seq![
                InstrView::Binary {
                    op: BinaryOp::FloatNotEqual,
                    lhs: Value::Float(k),
                    rhs: Value::FloatZero,
                },
                InstrView::CondBr {
                    cond: Value::Result { at: entry, index: 0, ty: IrType::Bool },
                    then_block,
                    else_block,
                },
            ],
        },
        BlockView {
            label: BlockLabel::Then,
            instrs: seq![InstrView::Ret { value: Some(Value::Float((k + 1) as usize)) }],
        },
        BlockView {
            label: BlockLabel::Else,
            instrs: seq![InstrView::Ret { value: Some(Value::Float((k + 2) as usize)) }],
        },
        BlockView {
            label: BlockLabel::IfCont,
            instrs: seq![InstrView::Ret { value: Some(Value::FloatZero) }],
        },
    ]
}

/// Whether the function `func` is the last of the module and holds the
/// blocks `blocks`, the cursor is at its block `at`, and the module holds
/// `constants` constants.
pub open spec fn stands_at(ctx: CtxView, func: usize, at: usize, blocks: Seq<BlockView>, constants: int) -> bool {
    &&& ctx.cursor == Some(BlockRef { func, block: at })
    &&& ctx.module.functions.len() == func + 1
    &&& ctx.module.functions[func as int].blocks =~= blocks
    &&& at < blocks.len()
    &&& ctx.module.constants.len() == constants
}

/// A branch that is a block with one return of a number, lowered in an
/// empty block: the block gets the return and nothing else, and the end of
/// the branch moves the cursor and adds no jump.
proof fn lemma_branch_that_returns(
    ctx: CtxView,
    registry: RegistryView,
    func: usize,
    at: usize,
    blocks: Seq<BlockView>,
    text: Seq<char>,
    target: BlockRef,
    next: usize,
)
    requires
        stands_at(ctx, func, at, blocks, ctx.module.constants.len() as int),
        blocks[at as int].instrs.len() == 0,
        ctx.module.constants.len() < usize::MAX,
        next < blocks.len(),
    ensures
        ({
            let branch = StatementView::Block(
                seq![StatementView::Return { value: Some(ExprView::Literal(LiteralView::Number(text))) }],
            );
            let done = lower_statement_spec(ctx, registry, branch);
            let ended = end_branch(done.ctx, target, BlockRef { func, block: next });
            &&& done.result is Ok
            &&& settled(ctx, registry, done) == done
            &&& ended.result is Ok
            &&& stands_at(
                ended.ctx,
                func,
                next,
                blocks.update(
                    at as int,
                    BlockView {
                        label: blocks[at as int].label,
                        instrs: seq![
                            InstrView::Ret { value: Some(Value::Float(ctx.module.constants.len() as usize)) },
                        ],
                    },
                ),
                ctx.module.constants.len() as int + 1,
            )
        }),
{
    let ret = StatementView::Return { value: Some(ExprView::Literal(LiteralView::Number(text))) };
    let branch = StatementView::Block(seq![ret]);
    lemma_block_of_one_statement(ctx, registry, ret);
    lemma_return_of_a_number(ctx, registry, text);
    lemma_statement_adds_no_work(ctx, registry, branch);
    let done = lower_statement_spec(ctx, registry, branch);
    let here = BlockRef { func, block: at };
    let with_constant = ctx.add_constant(text);
    assert(with_constant.insert_block() == Some(here));
    let instr = InstrView::Ret { value: Some(Value::Float(ctx.module.constants.len() as usize)) };
    assert(done.ctx == with_constant.with_module(with_constant.module.emit(here, instr)));
    let after = done.ctx.module.functions[func as int].blocks[at as int];
    assert(after.instrs =~= seq![instr]);
    assert(after.instrs.last() == instr);
    assert(cursor_terminated(done.ctx));
}

/// The state in which the branches of `choice_function` are lowered: the
/// condition was lowered and tested, and the blocks of the conditional were
/// made and entered.
pub open spec fn choice_entered(opened: CtxView, condition: Seq<char>) -> CtxView {
    let tested = test_condition(
        opened.add_constant(condition),
        Value::Float(opened.module.constants.len() as usize),
    );
    open_if(tested.ctx, tested.result->Ok_0, true).ctx
}

/// The start of a conditional on a number with an else branch, at the
/// start of a function: up to the branches.
proof fn lemma_conditional_is_entered(
    ctx: CtxView,
    registry: RegistryView,
    func: usize,
    condition: Seq<char>,
    then_branch: StatementView,
    else_branch: StatementView,
)
    requires
        stands_at(
            ctx,
            func,
            0,
            seq![BlockView { label: BlockLabel::Entry, instrs: Seq::empty() }],
            ctx.module.constants.len() as int,
        ),
        ctx.module.constants.len() < usize::MAX,
    ensures
        ({
            let s = StatementView::If {
                condition: ExprView::Literal(LiteralView::Number(condition)),
                then_branch: Box::new(then_branch),
                else_branch: Some(Box::new(else_branch)),
            };
            let k = ctx.module.constants.len() as usize;
            let entered = choice_entered(ctx, condition);
            &&& lower_if_spec(ctx, registry, s) == lower_branches_spec(
                entered,
                registry,
                s,
                Some(BlockRef { func, block: 2 }),
                BlockRef { func, block: 3 },
            )
            &&& stands_at(
                entered,
                func,
                1,
                seq![
                    choice_blocks(func, k)[0],
                    BlockView { label: BlockLabel::Then, instrs: Seq::empty() },
                    BlockView { label: BlockLabel::Else, instrs: Seq::empty() },
                    BlockView { label: BlockLabel::IfCont, instrs: Seq::empty() },
                ],
                k + 1,
            )
        }),
{
    let k = ctx.module.constants.len() as usize;
    lemma_condition_is_tested(ctx, registry, func, condition);
    let tested = test_condition(ctx.add_constant(condition), Value::Float(k));
    let t = tested.result->Ok_0;
    lemma_blocks_of_a_conditional(tested.ctx, func, t);
    let number = ExprView::Literal(LiteralView::Number(condition));
    lemma_expr_adds_no_work(ctx, registry, number);
    assert(settled(ctx, registry, lower_expr_spec(ctx, registry, number)) == lower_expr_spec(
        ctx,
        registry,
        number,
    ));
    let entry = choice_tested(k);
    assert(tested.ctx.module.functions[func as int].blocks[0] == entry);
    assert(entry.instrs.push(
        InstrView::CondBr {
            cond: t,
            then_block: BlockRef { func, block: 1 },
            else_block: BlockRef { func, block: 2 },
        },
    ) =~= choice_blocks(func, k)[0].instrs);
}

/// The start of a function that has no parameters: it is the last
/// function of the module, with an empty entry block under the cursor.
proof fn lemma_function_without_parameters_is_opened(ctx: CtxView, decl: FunctionDeclView)
    requires
        ctx.module.functions.len() < usize::MAX,
        decl.params.len() == 0,
    ensures
        open_function(ctx, decl).result == Ok::<usize, Seq<char>>(ctx.module.functions.len() as usize),
        stands_at(
            open_function(ctx, decl).ctx,
            ctx.module.functions.len() as usize,
            0,
            seq![BlockView { label: BlockLabel::Entry, instrs: Seq::empty() }],
            ctx.module.constants.len() as int,
        ),
{
}

/// A number as a condition, at the start of a function: the number
/// becomes a constant, and the entry block gets the test against 0.
proof fn lemma_condition_is_tested(ctx: CtxView, registry: RegistryView, func: usize, condition: Seq<char>)
    requires
        stands_at(
            ctx,
            func,
            0,
            seq![BlockView { label: BlockLabel::Entry, instrs: Seq::empty() }],
            ctx.module.constants.len() as int,
        ),
        ctx.module.constants.len() < usize::MAX,
    ensures
        ({
            let k = ctx.module.constants.len() as usize;
            let entry = BlockRef { func, block: 0 };
            let tested = test_condition(ctx.add_constant(condition), Value::Float(k));
            &&& lower_expr_spec(ctx, registry, ExprView::Literal(LiteralView::Number(condition)))
                == ctx.add_constant(condition).ok(Value::Float(k))
            &&& tested.result == Ok::<Value, Seq<char>>(
                Value::Result { at: entry, index: 0, ty: IrType::Bool },
            )
            &&& stands_at(tested.ctx, func, 0, seq![choice_tested(k)], k + 1)
        }),
{
    let k = ctx.module.constants.len() as usize;
    let entry = BlockRef { func, block: 0 };
    let with_constant = ctx.add_constant(condition);
    assert(with_constant.insert_block() == Some(entry));
}

/// The entry block in which the constant `k` was tested against 0.
pub open spec fn choice_tested(k: usize) -> BlockView {
    BlockView {
        label: BlockLabel::Entry,
        instrs: seq![
            InstrView::Binary { op: BinaryOp::FloatNotEqual, lhs: Value::Float(k), rhs: Value::FloatZero },
        ],
    }
}

/// The blocks that `open_if` makes in a function that has one block, for
/// a conditional with an else branch.
proof fn lemma_blocks_of_a_conditional(ctx: CtxView, func: usize, test: Value)
    requires
        ctx.cursor == Some(BlockRef { func, block: 0 }),
        ctx.module.functions.len() == func + 1,
        ctx.module.functions[func as int].blocks.len() == 1,
    ensures
        ({
            let entry = ctx.module.functions[func as int].blocks[0];
            let made = open_if(ctx, test, true);
            &&& made.result == Ok::<(BlockRef, Option<BlockRef>, BlockRef), Seq<char>>(
                (BlockRef { func, block: 1 }, Some(BlockRef { func, block: 2 }), BlockRef { func, block: 3 }),
            )
            &&& stands_at(
                made.ctx,
                func,
                1,
                seq![
                    BlockView {
                        label: entry.label,
                        instrs: entry.instrs.push(
                            InstrView::CondBr {
                                cond: test,
                                then_block: BlockRef { func, block: 1 },
                                else_block: BlockRef { func, block: 2 },
                            },
                        ),
                    },
                    BlockView { label: BlockLabel::Then, instrs: Seq::empty() },
                    BlockView { label: BlockLabel::Else, instrs: Seq::empty() },
                    BlockView { label: BlockLabel::IfCont, instrs: Seq::empty() },
                ],
                ctx.module.constants.len() as int,
            )
        }),
{
    let then_made = ctx.add_block(BlockLabel::Then);
    assert(then_made.ctx.insert_block() == Some(BlockRef { func, block: 0 }));
    let else_made = then_made.ctx.add_block(BlockLabel::Else);
    assert(else_made.ctx.insert_block() == Some(BlockRef { func, block: 0 }));
    let merge_made = else_made.ctx.add_block(BlockLabel::IfCont);
    assert(merge_made.ctx.insert_block() == Some(BlockRef { func, block: 0 }));
}

/// The end of `choice_function`, behind the branches.
proof fn lemma_choice_is_closed(
    opened: CtxView,
    registry: RegistryView,
    decl: FunctionDeclView,
    body: Outcome<()>,
    func: usize,
    blocks: Seq<BlockView>,
)
    requires
        decl.body.len() == 1,
        lower_statement_spec(opened, registry, decl.body[0]) == body,
        body.result is Ok,
        stands_at(body.ctx, func, 3, blocks, body.ctx.module.constants.len() as int),
        blocks.len() == 4,
        blocks[3].instrs.len() == 0,
        forall|b: int| 0 <= b < 3 ==> (#[trigger] blocks[b]).is_well_formed(),
    ensures
        ({
            let lowered = lower_statements_spec(opened, registry, decl.body, 0);
            let closed = close_function(lowered.ctx, func);
            &&& lowered.result is Ok
            &&& closed.result == Ok::<usize, Seq<char>>(func)
            &&& closed.ctx.module.functions.len() == func + 1
            &&& closed.ctx.module.functions[func as int].blocks =~= blocks.update(
                3,
                BlockView {
                    label: blocks[3].label,
                    instrs: seq![InstrView::Ret { value: Some(Value::FloatZero) }],
                },
            )
            &&& closed.ctx.module.functions[func as int].is_well_formed()
        }),
{
    lemma_statement_adds_no_work(opened, registry, decl.body[0]);
    assert(settled(opened, registry, body) == body);
    assert(lower_statements_spec(body.ctx, registry, decl.body, 1) == body.ctx.ok(()));
    let lowered = lower_statements_spec(opened, registry, decl.body, 0);
    assert(lowered.ctx == body.ctx && lowered.result is Ok);
    let here = BlockRef { func, block: 3 };
    assert(body.ctx.insert_block() == Some(here));
    assert(!cursor_terminated(body.ctx));
    let instr = InstrView::Ret { value: Some(Value::FloatZero) };
    let returned = finish_return(body.ctx, Value::FloatZero);
    assert(returned.ctx == body.ctx.with_module(body.ctx.module.emit(here, instr)));
    let after = returned.ctx.module.functions[func as int].blocks;
    let last = BlockView { label: blocks[3].label, instrs: seq![instr] };
    assert(after[3].instrs =~= seq![instr]);
    assert(after =~= blocks.update(3, last));
    assert(last.instrs.last() == instr);
    assert forall|b: int| 0 <= b < after.len() implies (#[trigger] after[b]).is_well_formed() by {
        if b < 3 {
            assert(after[b] == blocks[b]);
        }
    }
}

/// A function whose branches both return is lowered: the branches get no
/// jump behind their returns, so each of its four blocks has one terminator,
/// and the function passes the structural check. The block where the
/// branches would meet gets the default return. This holds in any state that
/// has room for one more function and three more constants.
pub proof fn lemma_returning_branches_are_lowered(
    ctx: CtxView,
    registry: RegistryView,
    name: Seq<char>,
    condition: Seq<char>,
    then_text: Seq<char>,
    else_text: Seq<char>,
)
    requires
        ctx.module.functions.len() < usize::MAX,
        ctx.module.constants.len() + 2 < usize::MAX,
    ensures
        ({
            let out = lower_function_spec(
                ctx,
                registry,
                choice_function(name, condition, then_text, else_text),
            );
            let func = ctx.module.functions.len() as usize;
            &&& out.result == Ok::<usize, Seq<char>>(func)
            &&& out.ctx.module.functions.len() == func + 1
            &&& out.ctx.module.functions[func as int].blocks == choice_blocks(
                func,
                ctx.module.constants.len() as usize,
            )
            &&& out.ctx.module.functions[func as int].is_well_formed()
        }),
{
    let decl = choice_function(name, condition, then_text, else_text);
    let func = ctx.module.functions.len() as usize;
    let k = ctx.module.constants.len() as usize;
    let merge = BlockRef { func, block: 3 };
    let stmt = decl.body[0];
    let c0 = open_function(ctx, decl).ctx;
    lemma_function_without_parameters_is_opened(ctx, decl);
    let c1 = choice_entered(c0, condition);
    let started = seq![
        choice_blocks(func, k)[0],
        BlockView { label: BlockLabel::Then, instrs: Seq::empty() },
        BlockView { label: BlockLabel::Else, instrs: Seq::empty() },
        BlockView { label: BlockLabel::IfCont, instrs: Seq::empty() },
    ];
    let then_branch = StatementView::Block(
        seq![StatementView::Return { value: Some(ExprView::Literal(LiteralView::Number(then_text))) }],
    );
    let else_branch = StatementView::Block(
        seq![StatementView::Return { value: Some(ExprView::Literal(LiteralView::Number(else_text))) }],
    );
    lemma_conditional_is_entered(c0, registry, func, condition, then_branch, else_branch);
    lemma_branch_that_returns(c1, registry, func, 1, started, then_text, merge, 2);
    let c2 = lower_statement_spec(c1, registry, then_branch);
    let c3 = end_branch(c2.ctx, merge, BlockRef { func, block: 2 });
    let then_done = started.update(1, choice_blocks(func, k)[1]);
    assert(stands_at(c3.ctx, func, 2, then_done, k + 2));
    lemma_branch_that_returns(c3.ctx, registry, func, 2, then_done, else_text, merge, 3);
    let c4 = lower_statement_spec(c3.ctx, registry, else_branch);
    let c5 = end_branch(c4.ctx, merge, merge);
    let else_done = then_done.update(2, choice_blocks(func, k)[2]);
    assert(stands_at(c5.ctx, func, 3, else_done, k + 3));
    assert(lower_branches_spec(c1, registry, stmt, Some(BlockRef { func, block: 2 }), merge) == c5) by {
        assert(c3.result == Ok::<(), Seq<char>>(c3.result->Ok_0));
        assert(c2.result == Ok::<(), Seq<char>>(c2.result->Ok_0));
        assert(c4.result == Ok::<(), Seq<char>>(c4.result->Ok_0));
    }
    lemma_statement_adds_no_work(c0, registry, stmt);
    assert(lower_statement_spec(c0, registry, stmt) == c5);
    lemma_choice_is_closed(c0, registry, decl, c5, func, else_done);
    assert(else_done.update(3, choice_blocks(func, k)[3]) =~= choice_blocks(func, k));
}

} // verus!

//! What lowering does, as functions on the state of a compilation: the
//! instructions, blocks, slots and globals that each piece of syntax adds,
//! the value or the error that it gives, and the state that is left.
use vstd::prelude::*;
use crate::code_gen::builder::{
    CtxView, ModuleValueView, NativeFuncView, NativeId, NativeModule, Outcome, lemma_building_keeps,
};
use crate::code_gen::ir::{
    BinaryOp, BlockLabel, BlockRef, GlobalView, InstrView, IrType, SlotView, UnaryOp, Value,
    ValueKind, lemma_adding_keeps,
};
use crate::code_gen::measure::{lemma_set_function_workload, settled, workload};
use crate::code_gen::registry::{RegistryView, native_module_of};
use crate::code_gen::table::{find, has_key, lemma_find, lemma_put, lookup, put};
use crate::lexer::lexer::tokens_from;
use crate::lexer::token::Types;
use crate::parser::ast::{
    ExprView, FunctionDeclView, LiteralView, Operation, StatementView, operation_name,
};
use crate::parser::grammar::parse_program_spec;

verus! {

pub open spec fn variable_not_declared_message(name: Seq<char>) -> Seq<char> {
    "Variable not declared: "@ + name
}

pub open spec fn function_not_defined_message(name: Seq<char>, module_name: Seq<char>) -> Seq<char> {
    "Function '"@ + name + "' not defined in module '"@ + module_name + "'"@
}

pub open spec fn module_not_found_message(path: Seq<char>) -> Seq<char> {
    "Module '"@ + path + "' not found"@
}

pub open spec fn type_mismatch_message() -> Seq<char> {
    "Type mismatch in binary operation"@
}

pub open spec fn unsupported_float_message(op: Operation) -> Seq<char> {
    "Unsupported float binary op "@ + operation_name(op)
}

pub open spec fn unsupported_int_message(op: Operation) -> Seq<char> {
    "Unsupported int binary op "@ + operation_name(op)
}

pub open spec fn unsupported_string_message(op: Operation) -> Seq<char> {
    "Unsupported string binary operation "@ + operation_name(op)
}

pub open spec fn unary_not_implemented_message(op: Operation) -> Seq<char> {
    "Unary op not implemented: "@ + operation_name(op)
}

pub open spec fn negate_operand_message() -> Seq<char> {
    "Negate requires a float operand"@
}

pub open spec fn not_operand_message() -> Seq<char> {
    "Not requires an integer operand"@
}

pub open spec fn condition_message() -> Seq<char> {
    "Condition is not a float"@
}

pub open spec fn verification_failed_message() -> Seq<char> {
    "Function verification failed"@
}

pub open spec fn fmod_result_message() -> Seq<char> {
    "Expected FloatValue from fmod"@
}

pub open spec fn compare_result_message() -> Seq<char> {
    "Expected IntValue from strcmp"@
}

pub open spec fn out_argument_message() -> Seq<char> {
    "Unsupported argument type for out()"@
}

/// The type of the storage of a variable that was declared with
/// `var_type`: integers, booleans and characters are kept in 64 bits,
/// floats in 64 bits, everything else behind a pointer. A variable without
/// a declared type is kept as an integer.
pub open spec fn storage_type_spec(var_type: Option<Types>) -> IrType {
    match var_type {
        Some(Types::F32) => IrType::F64,
        Some(Types::F64) => IrType::F64,
        Some(Types::String) => IrType::Ptr,
        Some(Types::Array) => IrType::Ptr,
        Some(Types::Object) => IrType::Ptr,
        _ => IrType::I64,
    }
}

/// The zero of a type.
pub open spec fn zero_of(ty: IrType) -> Value {
    match ty {
        IrType::F64 => Value::FloatZero,
        IrType::Ptr => Value::Null,
        _ => Value::Int { ty, value: 0 },
    }
}

/// The last dot of `s` before position `upto`.
pub open spec fn last_dot(s: Seq<char>, upto: int) -> Option<int>
    decreases upto,
{
    if upto <= 0 || upto > s.len() {
        None
    } else if s[upto - 1] == '.' {
        Some(upto - 1)
    } else {
        last_dot(s, upto - 1)
    }
}

/// The module of a callee: what stands before its last dot, and the root
/// module, whose name is empty, where it has no dot.
pub open spec fn module_part(callee: Seq<char>) -> Seq<char> {
    match last_dot(callee, callee.len() as int) {
        Some(i) => callee.subrange(0, i),
        None => Seq::empty(),
    }
}

/// The function of a callee: what stands behind its last dot.
pub open spec fn function_part(callee: Seq<char>) -> Seq<char> {
    match last_dot(callee, callee.len() as int) {
        Some(i) => callee.subrange(i + 1, callee.len() as int),
        None => callee,
    }
}

/// What the registration routine of a module of the runtime does.
pub open spec fn register_module_spec(ctx: CtxView, module: NativeModule) -> CtxView {
    match module {
        NativeModule::Io => ctx.set_function(
            "io"@,
            "printf"@,
            NativeFuncView::NativeFn(NativeId::Printf),
        ).set_function("io"@, "out"@, NativeFuncView::NativeFn(NativeId::Printf)),
    }
}

/// The state after the modules of the runtime whose files are among
/// `file_names`, from index `from` on, were registered.
pub open spec fn native_modules_loaded(
    ctx: CtxView,
    file_names: Seq<Seq<char>>,
    from: int,
) -> CtxView
    decreases file_names.len() - from,
{
    if from < 0 || from >= file_names.len() {
        ctx
    } else {
        match native_module_of(file_names[from]) {
            Some((name, module)) => native_modules_loaded(
                register_module_spec(ctx, module),
                file_names,
                from + 1,
            ),
            None => native_modules_loaded(ctx, file_names, from + 1),
        }
    }
}

/// The state in which a call into `module_name` is resolved: where the
/// registry lacks the module and the runtime has one under that name, the
/// runtime's module has been registered. A module that is there is left as
/// it is.
pub open spec fn auto_register(ctx: CtxView, registry: RegistryView, module_name: Seq<char>) -> CtxView {
    if has_key(ctx.modules, module_name) {
        ctx
    } else {
        match lookup(registry.natives, module_name) {
            Some(module) => register_module_spec(ctx, module),
            None => ctx,
        }
    }
}

/// Registering a module of the runtime adds no work.
pub proof fn lemma_register_module_workload(ctx: CtxView, registry: RegistryView, module: NativeModule)
    ensures
        workload(register_module_spec(ctx, module), registry) <= workload(ctx, registry),
{
    let f = NativeFuncView::NativeFn(NativeId::Printf);
    lemma_set_function_workload(ctx, registry, "io"@, "printf"@, f);
    lemma_set_function_workload(ctx.set_function("io"@, "printf"@, f), registry, "io"@, "out"@, f);
}

/// Resolving the module of a call adds no work.
pub proof fn lemma_auto_register_workload(ctx: CtxView, registry: RegistryView, module_name: Seq<char>)
    ensures
        workload(auto_register(ctx, registry, module_name), registry) <= workload(ctx, registry),
{
    if !has_key(ctx.modules, module_name) {
        match lookup(registry.natives, module_name) {
            Some(module) => {
                lemma_register_module_workload(ctx, registry, module);
            },
            None => {},
        }
    }
}

/// What the registry holds under a name after a function was put into it:
/// the function under its own name, and what was there under any other.
pub proof fn lemma_set_function_lookup(
    ctx: CtxView,
    module_name: Seq<char>,
    name: Seq<char>,
    func: NativeFuncView,
    other_module: Seq<char>,
    other_name: Seq<char>,
)
    ensures
        ctx.set_function(module_name, name, func).function(module_name, name) == Some(func),
        other_module != module_name || other_name != name ==> ctx.set_function(
            module_name,
            name,
            func,
        ).function(other_module, other_name) == ctx.function(other_module, other_name),
        has_key(ctx.set_function(module_name, name, func).modules, other_module) == (other_module
            == module_name || has_key(ctx.modules, other_module)),
{
    let was = ctx.module_or_empty(module_name);
    let now = was.with_function(name, func);
    lemma_put(ctx.modules, module_name, now, other_module);
    lemma_put(ctx.modules, module_name, now, module_name);
    lemma_put(was.functions, name, func, other_name);
    lemma_put(was.functions, name, func, name);
    if other_module == module_name && other_name != name {
        if lookup(ctx.modules, module_name) is None {
            assert(was.functions =~= Seq::empty());
            lemma_find(was.functions, other_name);
        }
    }
}

/// Putting a function into the registry where it already is changes nothing.
pub proof fn lemma_set_function_again(
    ctx: CtxView,
    module_name: Seq<char>,
    name: Seq<char>,
    func: NativeFuncView,
)
    requires
        ctx.function(module_name, name) == Some(func),
    ensures
        ctx.set_function(module_name, name, func) == ctx,
{
    lemma_find(ctx.modules, module_name);
    let i = find(ctx.modules, module_name)->0;
    let was = ctx.modules[i].1;
    lemma_find(was.functions, name);
    let j = find(was.functions, name)->0;
    assert(was.functions.update(j, (name, func)) =~= was.functions);
    assert(ctx.modules.update(i, (module_name, was)) =~= ctx.modules);
}

/// Running the registration routine of a module of the runtime a second
/// time changes nothing.
pub proof fn lemma_register_module_again(ctx: CtxView, module: NativeModule)
    ensures
        register_module_spec(register_module_spec(ctx, module), module) == register_module_spec(
            ctx,
            module,
        ),
{
    reveal_strlit("printf");
    reveal_strlit("out");
    assert("printf"@ != "out"@) by {
        assert("printf"@.len() == 6);
        assert("out"@.len() == 3);
    }
    let f = NativeFuncView::NativeFn(NativeId::Printf);
    let first = ctx.set_function("io"@, "printf"@, f);
    let both = first.set_function("io"@, "out"@, f);
    lemma_set_function_lookup(ctx, "io"@, "printf"@, f, "io"@, "out"@);
    lemma_set_function_lookup(first, "io"@, "out"@, f, "io"@, "printf"@);
    lemma_set_function_again(both, "io"@, "printf"@, f);
    lemma_set_function_again(both, "io"@, "out"@, f);
}

/// Resolving the module of a call twice is resolving it once: a module of
/// the runtime is registered by the first call that names it, and a later
/// call finds the registry as the first one left it.
pub proof fn lemma_auto_register_once(ctx: CtxView, registry: RegistryView, module_name: Seq<char>)
    ensures
        auto_register(auto_register(ctx, registry, module_name), registry, module_name)
            == auto_register(ctx, registry, module_name),
{
    if !has_key(ctx.modules, module_name) {
        match lookup(registry.natives, module_name) {
            Some(module) => {
                lemma_register_module_again(ctx, module);
            },
            None => {},
        }
    }
}

/// A module that is in the registry is never registered again by a call.
pub proof fn lemma_auto_register_keeps(ctx: CtxView, registry: RegistryView, module_name: Seq<char>)
    requires
        has_key(ctx.modules, module_name),
    ensures
        auto_register(ctx, registry, module_name) == ctx,
{
}

/// A literal: a number is a float constant, a boolean one bit, nil the
/// null pointer, a string the address of a new global that holds it.
pub open spec fn lower_literal(ctx: CtxView, lit: LiteralView) -> Outcome<Value> {
    match lit {
        LiteralView::Number(text) => ctx.add_constant(text).ok(
            Value::Float(ctx.module.constants.len() as usize),
        ),
        LiteralView::Bool(b) => ctx.ok(
            Value::Int {
                ty: IrType::Bool,
                value: if b {
                    1
                } else {
                    0
                },
            },
        ),
        LiteralView::Nil => ctx.ok(Value::Null),
        LiteralView::String(s) => ctx.add_global(GlobalView::Text { name: "str"@, text: s }).ok(
            Value::Global(ctx.module.globals.len() as usize),
        ),
    }
}

/// A unary operator on an operand that was lowered: the sign of a float
/// is flipped, the bits of an integer are inverted.
pub open spec fn finish_unary(ctx: CtxView, op: Operation, operand: Value) -> Outcome<Value> {
    match op {
        Operation::Negate => if operand.kind_spec() == ValueKind::Float {
            ctx.emit_value(InstrView::Unary { op: UnaryOp::FNeg, operand }, IrType::F64)
        } else {
            ctx.fail(negate_operand_message())
        },
        Operation::Not => if operand.kind_spec() == ValueKind::Int {
            ctx.emit_value(InstrView::Unary { op: UnaryOp::Not, operand }, operand.ty_spec())
        } else {
            ctx.fail(not_operand_message())
        },
        _ => ctx.fail(unary_not_implemented_message(op)),
    }
}

/// The remainder of two floats: a call of the host's `fmod`, which is
/// declared when it is first needed.
pub open spec fn float_mod(ctx: CtxView, lhs: Value, rhs: Value) -> Outcome<Value> {
    let (declared, fmod) = ctx.declare("fmod"@, seq![IrType::F64, IrType::F64], IrType::F64, false);
    let ret = declared.module.functions[fmod as int].ret;
    let called = declared.emit_value(InstrView::Call { callee: fmod, args: seq![lhs, rhs] }, ret);
    match called.result {
        Ok(v) => if ret.kind_spec() == ValueKind::Float {
            called
        } else {
            called.ctx.fail(fmod_result_message())
        },
        Err(e) => called,
    }
}

/// Whether two strings are equal: both are cast to byte pointers and
/// handed to the host's `strcmp`, which is declared when it is first needed,
/// and what it returns is compared with 0.
pub open spec fn string_equal(ctx: CtxView, lhs: Value, rhs: Value) -> Outcome<Value> {
    let (declared, comparer) = ctx.declare(
        "strcmp"@,
        seq![IrType::Ptr, IrType::Ptr],
        IrType::I32,
        false,
    );
    let ret = declared.module.functions[comparer as int].ret;
    let left = declared.emit_value(InstrView::Cast { value: lhs, ty: IrType::Ptr }, IrType::Ptr);
    match left.result {
        Err(e) => left,
        Ok(l) => {
            let right = left.ctx.emit_value(
                InstrView::Cast { value: rhs, ty: IrType::Ptr },
                IrType::Ptr,
            );
            match right.result {
                Err(e) => right,
                Ok(r) => {
                    let called = right.ctx.emit_value(
                        InstrView::Call { callee: comparer, args: seq![l, r] },
                        ret,
                    );
                    match called.result {
                        Err(e) => called,
                        Ok(order) => if ret.kind_spec() == ValueKind::Int {
                            called.ctx.emit_value(
                                InstrView::Binary {
                                    op: BinaryOp::IntEqual,
                                    lhs: order,
                                    rhs: Value::Int { ty: IrType::I32, value: 0 },
                                },
                                IrType::Bool,
                            )
                        } else {
                            called.ctx.fail(compare_result_message())
                        },
                    }
                },
            }
        },
    }
}

/// The instruction for an arithmetic operator on floats.
pub open spec fn float_op(op: Operation) -> Option<BinaryOp> {
    match op {
        Operation::Add => Some(BinaryOp::FAdd),
        Operation::Subtract => Some(BinaryOp::FSub),
        Operation::Multiply => Some(BinaryOp::FMul),
        Operation::Divide => Some(BinaryOp::FDiv),
        _ => None,
    }
}

/// The instruction for an arithmetic operator on integers.
pub open spec fn int_op(op: Operation) -> Option<BinaryOp> {
    match op {
        Operation::Add => Some(BinaryOp::Add),
        Operation::Subtract => Some(BinaryOp::Sub),
        Operation::Multiply => Some(BinaryOp::Mul),
        Operation::Divide => Some(BinaryOp::SDiv),
        Operation::Modulo => Some(BinaryOp::SRem),
        _ => None,
    }
}

/// A binary operator on operands that were lowered, by what kind of value
/// each of them is: two floats, two integers or two pointers. Any other
/// pair is a type mismatch.
pub open spec fn finish_binary(ctx: CtxView, op: Operation, lhs: Value, rhs: Value) -> Outcome<Value> {
    if lhs.kind_spec() == ValueKind::Float && rhs.kind_spec() == ValueKind::Float {
        match float_op(op) {
            Some(instr) => ctx.emit_value(InstrView::Binary { op: instr, lhs, rhs }, IrType::F64),
            None => if op == Operation::Modulo {
                float_mod(ctx, lhs, rhs)
            } else {
                ctx.fail(unsupported_float_message(op))
            },
        }
    } else if lhs.kind_spec() == ValueKind::Int && rhs.kind_spec() == ValueKind::Int {
        match int_op(op) {
            Some(instr) => ctx.emit_value(InstrView::Binary { op: instr, lhs, rhs }, lhs.ty_spec()),
            None => ctx.fail(unsupported_int_message(op)),
        }
    } else if lhs.kind_spec() == ValueKind::Pointer && rhs.kind_spec() == ValueKind::Pointer {
        if op == Operation::Equal {
            string_equal(ctx, lhs, rhs)
        } else {
            ctx.fail(unsupported_string_message(op))
        }
    } else {
        ctx.fail(type_mismatch_message())
    }
}

/// An assignment whose value was lowered: the value is stored in the place
/// of the variable, which has to be declared, and is the value of the
/// assignment.
pub open spec fn finish_assign(ctx: CtxView, name: Seq<char>, value: Value) -> Outcome<Value> {
    match lookup(ctx.variables, name) {
        None => ctx.fail(variable_not_declared_message(name)),
        Some(slot) => {
            let stored = ctx.emit(InstrView::Store { ptr: slot, value });
            match stored.result {
                Ok(i) => stored.ctx.ok(value),
                Err(e) => stored.ctx.fail(e),
            }
        },
    }
}

/// The type with which a variable is read from its place: the type that
/// was recorded for the place when the variable was declared, which is the
/// type of its slot. An expression that names a type is read with the
/// storage of that type. A place that is no slot of a function has no
/// recorded type and is read as a pointer.
pub open spec fn read_type(ctx: CtxView, place: Value, var_type: Option<Types>) -> IrType {
    match var_type {
        Some(t) => storage_type_spec(Some(t)),
        None => ctx.recorded_type(place),
    }
}

/// A variable that is read: a load from its place, which has to be
/// declared, with the type that was recorded at its declaration (see
/// `read_type`).
pub open spec fn lower_variable(ctx: CtxView, name: Seq<char>, var_type: Option<Types>) -> Outcome<Value> {
    match lookup(ctx.variables, name) {
        None => ctx.fail(variable_not_declared_message(name)),
        Some(slot) => {
            let ty = read_type(ctx, slot, var_type);
            ctx.emit_value(InstrView::Load { ty, ptr: slot }, ty)
        },
    }
}

/// What the function of the runtime that prints does with the arguments of
/// a call: `printf` is declared when it is first needed, a format for the
/// kind of the first argument is added as a global, and `printf` is called
/// with the format and the first argument, which is also the value of the
/// call. Without an argument, or with an integer, it is an error.
pub open spec fn printf_spec(ctx: CtxView, args: Seq<Value>) -> Outcome<Value> {
    let (declared, printf) = ctx.declare("printf"@, seq![IrType::Ptr], IrType::I32, true);
    if args.len() == 0 {
        declared.fail(out_argument_message())
    } else {
        let format = match args[0].kind_spec() {
            ValueKind::Float => Some(GlobalView::Text { name: "fmt_float"@, text: "%f\n\0"@ }),
            ValueKind::Pointer => Some(GlobalView::Text { name: "fmt_str"@, text: "%s\n\0"@ }),
            ValueKind::Int => None,
        };
        match format {
            None => declared.fail(out_argument_message()),
            Some(global) => {
                let with_format = declared.add_global(global);
                let called = with_format.emit(
                    InstrView::Call {
                        callee: printf,
                        args: seq![Value::Global(declared.module.globals.len() as usize), args[0]],
                    },
                );
                match called.result {
                    Ok(i) => called.ctx.ok(args[0]),
                    Err(e) => called.ctx.fail(e),
                }
            },
        }
    }
}

pub open spec fn host_function_message() -> Seq<char> {
    "Host function is not declared"@
}

/// A call of a function of the host: a call of the declared function with
/// the arguments as they are, which has the type that the function returns.
/// It is an error if the module has no such function.
pub open spec fn host_call_spec(ctx: CtxView, func: usize, args: Seq<Value>) -> Outcome<Value> {
    if ctx.module.has_function(func) {
        ctx.emit_value(
            InstrView::Call { callee: func, args },
            ctx.module.functions[func as int].ret,
        )
    } else {
        ctx.fail(host_function_message())
    }
}

/// What a function of the runtime does with the arguments of a call.
pub open spec fn call_native_spec(ctx: CtxView, id: NativeId, args: Seq<Value>) -> Outcome<Value> {
    match id {
        NativeId::Printf => printf_spec(ctx, args),
        NativeId::Host(func) => host_call_spec(ctx, func, args),
    }
}

/// A module whose functions and variables are those of the top level of
/// `stmts`, from index `from` on, added to `so_far`: each function
/// declaration is kept to be lowered when it is first called, and each
/// variable gets a global of the emitted module as its place. Initializers
/// are not evaluated.
pub open spec fn populate(ctx: CtxView, stmts: Seq<StatementView>, from: int, so_far: ModuleValueView) -> (
    CtxView,
    ModuleValueView,
)
    decreases stmts.len() - from,
{
    if from < 0 || from >= stmts.len() {
        (ctx, so_far)
    } else {
        match stmts[from] {
            StatementView::Function(decl) => populate(
                ctx,
                stmts,
                from + 1,
                so_far.with_function(decl.name, NativeFuncView::AdanFunction(decl)),
            ),
            StatementView::VarDecl { name, var_type, initializer } => populate(
                ctx.add_global(GlobalView::Variable { name, ty: storage_type_spec(var_type) }),
                stmts,
                from + 1,
                so_far.with_variable(name, Value::Global(ctx.module.globals.len() as usize)),
            ),
            _ => populate(ctx, stmts, from + 1, so_far),
        }
    }
}

/// An include. A path that is a module of the registry does nothing. A
/// path under which the runtime has a module registers that module. Any
/// other path has to be the path of a source module, whose text is lexed
/// and parsed and whose top level becomes a new module of the registry.
pub open spec fn include_spec(ctx: CtxView, registry: RegistryView, path: Seq<char>) -> Outcome<()> {
    if has_key(ctx.modules, path) {
        ctx.ok(())
    } else {
        match lookup(registry.natives, path) {
            Some(module) => register_module_spec(ctx, module).ok(()),
            None => match lookup(registry.sources, path) {
                None => ctx.fail(module_not_found_message(path)),
                Some(text) => match parse_program_spec(tokens_from(text, 0), 0) {
                    Err(e) => ctx.fail(e),
                    Ok(stmts) => {
                        let (populated, module) = populate(ctx, stmts, 0, ModuleValueView::empty());
                        populated.set_module(path, module).ok(())
                    },
                },
            },
        }
    }
}

/// The parameters of the function `func` from index `from` on: each gets a
/// slot that holds a float, the argument is stored in it, and the slot
/// becomes the place of the variable of that name.
pub open spec fn bind_params(ctx: CtxView, func: usize, params: Seq<Seq<char>>, from: int) -> Outcome<()>
    decreases params.len() - from,
{
    if from < 0 || from >= params.len() {
        ctx.ok(())
    } else {
        let slotted = ctx.add_slot(IrType::F64, params[from]);
        match slotted.result {
            Err(e) => slotted.ctx.fail(e),
            Ok(slot) => {
                let stored = slotted.ctx.emit(
                    InstrView::Store { ptr: slot, value: Value::Param { func, index: from as usize } },
                );
                match stored.result {
                    Err(e) => stored.ctx.fail(e),
                    Ok(i) => bind_params(
                        stored.ctx.set_variable(params[from], slot),
                        func,
                        params,
                        from + 1,
                    ),
                }
            },
        }
    }
}

/// Whether the function `func` passes the structural check.
pub open spec fn function_verified(ctx: CtxView, func: usize) -> bool {
    func < ctx.module.functions.len() && ctx.module.functions[func as int].is_well_formed()
}

/// The state in which a condition is tested: the value has to be a float,
/// and what is tested is whether it differs from 0.
pub open spec fn test_condition(ctx: CtxView, condition: Value) -> Outcome<Value> {
    if condition.kind_spec() == ValueKind::Float {
        ctx.emit_value(
            InstrView::Binary { op: BinaryOp::FloatNotEqual, lhs: condition, rhs: Value::FloatZero },
            IrType::Bool,
        )
    } else {
        ctx.fail(condition_message())
    }
}

/// The blocks of a conditional, and the branch that enters them: `then`,
/// `else` where there is an else branch, and the block where both meet.
/// The cursor is left at the start of `then`.
pub open spec fn open_if(ctx: CtxView, test: Value, has_else: bool) -> Outcome<
    (BlockRef, Option<BlockRef>, BlockRef),
> {
    let then_made = ctx.add_block(BlockLabel::Then);
    match then_made.result {
        Err(e) => then_made.ctx.fail(e),
        Ok(then_block) => {
            let else_made = if has_else {
                then_made.ctx.add_block(BlockLabel::Else)
            } else {
                then_made.ctx.ok(then_block)
            };
            match else_made.result {
                Err(e) => else_made.ctx.fail(e),
                Ok(else_block) => {
                    let merge_made = else_made.ctx.add_block(BlockLabel::IfCont);
                    match merge_made.result {
                        Err(e) => merge_made.ctx.fail(e),
                        Ok(merge) => {
                            let branched = merge_made.ctx.emit(
                                InstrView::CondBr {
                                    cond: test,
                                    then_block,
                                    else_block: if has_else {
                                        else_block
                                    } else {
                                        merge
                                    },
                                },
                            );
                            match branched.result {
                                Err(e) => branched.ctx.fail(e),
                                Ok(i) => branched.ctx.with_cursor(Some(then_block)).ok(
                                    (
                                        then_block,
                                        if has_else {
                                            Some(else_block)
                                        } else {
                                            None
                                        },
                                        merge,
                                    ),
                                ),
                            }
                        },
                    }
                },
            }
        },
    }
}

/// A jump to `target` from the block under the cursor, after which the
/// cursor is put at `next`.
pub open spec fn jump_and_move(ctx: CtxView, target: BlockRef, next: BlockRef) -> Outcome<()> {
    let jumped = ctx.emit(InstrView::Br { target });
    match jumped.result {
        Err(e) => jumped.ctx.fail(e),
        Ok(i) => jumped.ctx.with_cursor(Some(next)).ok(()),
    }
}

/// Whether the block under the cursor ends in a terminator.
pub open spec fn cursor_terminated(ctx: CtxView) -> bool {
    ctx.insert_block() matches Some(at)
        && ctx.module.functions[at.func as int].blocks[at.block as int].is_terminated()
}

/// The end of a branch or of the body of a loop. Where the block under the
/// cursor has no terminator yet, it gets the jump to `target`. Where it has
/// one, as after a return, nothing is added: a block has one terminator.
/// Either way the cursor is put at `next`.
pub open spec fn end_branch(ctx: CtxView, target: BlockRef, next: BlockRef) -> Outcome<()> {
    if cursor_terminated(ctx) {
        ctx.with_cursor(Some(next)).ok(())
    } else {
        jump_and_move(ctx, target, next)
    }
}

/// The blocks of a loop, and the jump that enters it: the block of the
/// condition, the block of the body, and the block behind the loop. The
/// cursor is left at the start of the condition.
pub open spec fn open_while(ctx: CtxView) -> Outcome<(BlockRef, BlockRef, BlockRef)> {
    let cond_made = ctx.add_block(BlockLabel::WhileCond);
    match cond_made.result {
        Err(e) => cond_made.ctx.fail(e),
        Ok(cond_block) => {
            let body_made = cond_made.ctx.add_block(BlockLabel::WhileBody);
            match body_made.result {
                Err(e) => body_made.ctx.fail(e),
                Ok(body_block) => {
                    let merge_made = body_made.ctx.add_block(BlockLabel::WhileCont);
                    match merge_made.result {
                        Err(e) => merge_made.ctx.fail(e),
                        Ok(merge) => {
                            let entered = jump_and_move(merge_made.ctx, cond_block, cond_block);
                            match entered.result {
                                Err(e) => entered.ctx.fail(e),
                                Ok(u) => entered.ctx.ok((cond_block, body_block, merge)),
                            }
                        },
                    }
                },
            }
        },
    }
}

/// The branch of a loop: to the body where the test holds, else behind the
/// loop. The cursor is left at the start of the body.
pub open spec fn branch_while(ctx: CtxView, test: Value, body: BlockRef, merge: BlockRef) -> Outcome<()> {
    let branched = ctx.emit(InstrView::CondBr { cond: test, then_block: body, else_block: merge });
    match branched.result {
        Err(e) => branched.ctx.fail(e),
        Ok(i) => branched.ctx.with_cursor(Some(body)).ok(()),
    }
}

/// A declaration whose value is known: a slot of the storage type is
/// added to the function under the cursor, the value is stored in it, and
/// the slot becomes the place of the variable. The last writer wins.
pub open spec fn finish_var_decl(ctx: CtxView, name: Seq<char>, var_type: Option<Types>, value: Value) -> Outcome<
    (),
> {
    let slotted = ctx.add_slot(storage_type_spec(var_type), name);
    match slotted.result {
        Err(e) => slotted.ctx.fail(e),
        Ok(slot) => {
            let stored = slotted.ctx.emit(InstrView::Store { ptr: slot, value });
            match stored.result {
                Err(e) => stored.ctx.fail(e),
                Ok(i) => stored.ctx.set_variable(name, slot).ok(()),
            }
        },
    }
}

/// A return of a value.
pub open spec fn finish_return(ctx: CtxView, value: Value) -> Outcome<()> {
    let returned = ctx.emit(InstrView::Ret { value: Some(value) });
    match returned.result {
        Err(e) => returned.ctx.fail(e),
        Ok(i) => returned.ctx.ok(()),
    }
}

/// The start of a function: the function is added to the module with one
/// float for each parameter and a float as its result, its entry block is
/// made, the cursor is put there, and the parameters are bound.
pub open spec fn open_function(ctx: CtxView, decl: FunctionDeclView) -> Outcome<usize> {
    let func = ctx.module.functions.len() as usize;
    let added = ctx.add_function(
        decl.name,
        Seq::new(decl.params.len(), |i: int| IrType::F64),
        IrType::F64,
        false,
    );
    let entered = added.with_module(added.module.add_block(func as int, BlockLabel::Entry)).with_cursor(
        Some(BlockRef { func, block: 0 }),
    );
    let bound = bind_params(entered, func, decl.params, 0);
    match bound.result {
        Err(e) => bound.ctx.fail(e),
        Ok(u) => bound.ctx.ok(func),
    }
}

/// The end of a function: where the block in which its lowering ended,
/// the block under the cursor, has no terminator, it gets a return of the
/// float 0; then the function has to pass the structural check.
pub open spec fn close_function(ctx: CtxView, func: usize) -> Outcome<usize> {
    let returned = if cursor_terminated(ctx) {
        ctx.ok(())
    } else {
        finish_return(ctx, Value::FloatZero)
    };
    match returned.result {
        Err(e) => returned.ctx.fail(e),
        Ok(u) => if function_verified(returned.ctx, func) {
            returned.ctx.ok(func)
        } else {
            returned.ctx.fail(verification_failed_message())
        },
    }
}

/// Testing a condition leaves the registry as it is and keeps
/// what was emitted.
pub proof fn lemma_test_condition_frame(ctx: CtxView, condition: Value)
    ensures
        test_condition(ctx, condition).ctx.modules == ctx.modules,
        test_condition(ctx, condition).ctx.keeps_emitted(ctx),
{
}

/// Making the blocks of a conditional leaves the registry as it is and keeps
/// what was emitted.
pub proof fn lemma_open_if_frame(ctx: CtxView, test: Value, has_else: bool)
    ensures
        open_if(ctx, test, has_else).ctx.modules == ctx.modules,
        open_if(ctx, test, has_else).ctx.keeps_emitted(ctx),
{
}

/// Making the blocks of a loop leaves the registry as it is and keeps
/// what was emitted.
pub proof fn lemma_open_while_frame(ctx: CtxView)
    ensures
        open_while(ctx).ctx.modules == ctx.modules,
        open_while(ctx).ctx.keeps_emitted(ctx),
{
}

/// Entering the body of a loop leaves the registry as it is and keeps
/// what was emitted.
pub proof fn lemma_branch_while_frame(ctx: CtxView, test: Value, body: BlockRef, merge: BlockRef)
    ensures
        branch_while(ctx, test, body, merge).ctx.modules == ctx.modules,
        branch_while(ctx, test, body, merge).ctx.keeps_emitted(ctx),
{
}

/// A jump leaves the registry as it is and keeps what was emitted.
pub proof fn lemma_jump_and_move_frame(ctx: CtxView, target: BlockRef, next: BlockRef)
    ensures
        jump_and_move(ctx, target, next).ctx.modules == ctx.modules,
        jump_and_move(ctx, target, next).ctx.keeps_emitted(ctx),
{
}

/// Ending a branch leaves the registry as it is and keeps what was emitted.
pub proof fn lemma_end_branch_frame(ctx: CtxView, target: BlockRef, next: BlockRef)
    ensures
        end_branch(ctx, target, next).ctx.modules == ctx.modules,
        end_branch(ctx, target, next).ctx.keeps_emitted(ctx),
{
    lemma_jump_and_move_frame(ctx, target, next);
    lemma_keeps(ctx, InstrView::Br { target }, IrType::F64, Seq::empty());
}

/// Binding parameters leaves the registry as it is and keeps what was emitted.
pub proof fn lemma_bind_params_frame(ctx: CtxView, func: usize, params: Seq<Seq<char>>, from: int)
    ensures
        bind_params(ctx, func, params, from).ctx.modules == ctx.modules,
        bind_params(ctx, func, params, from).ctx.keeps_emitted(ctx),
    decreases params.len() - from,
{
    lemma_keeps(ctx, InstrView::Ret { value: None }, IrType::F64, Seq::empty());
    if 0 <= from < params.len() {
        let slotted = ctx.add_slot(IrType::F64, params[from]);
        lemma_keeps(ctx, InstrView::Ret { value: None }, IrType::F64, params[from]);
        match slotted.result {
            Err(e) => {},
            Ok(slot) => {
                let store = InstrView::Store {
                    ptr: slot,
                    value: Value::Param { func, index: from as usize },
                };
                let stored = slotted.ctx.emit(store);
                lemma_keeps(slotted.ctx, store, IrType::F64, Seq::empty());
                match stored.result {
                    Err(e) => {},
                    Ok(i) => {
                        lemma_bind_params_frame(
                            stored.ctx.set_variable(params[from], slot),
                            func,
                            params,
                            from + 1,
                        );
                    },
                }
            },
        }
    }
}

/// Starting a function leaves the registry as it is and keeps what was emitted.
pub proof fn lemma_open_function_frame(ctx: CtxView, decl: FunctionDeclView)
    ensures
        open_function(ctx, decl).ctx.modules == ctx.modules,
        open_function(ctx, decl).ctx.keeps_emitted(ctx),
{
    let func = ctx.module.functions.len() as usize;
    let params = Seq::new(decl.params.len(), |i: int| IrType::F64);
    let added = ctx.add_function(decl.name, params, IrType::F64, false);
    lemma_building_keeps(
        ctx,
        InstrView::Ret { value: None },
        IrType::F64,
        BlockLabel::Entry,
        decl.name,
        GlobalView::Variable { name: decl.name, ty: IrType::F64 },
        params,
        false,
    );
    let entered = added.with_module(added.module.add_block(func as int, BlockLabel::Entry)).with_cursor(
        Some(BlockRef { func, block: 0 }),
    );
    lemma_adding_keeps(
        added.module,
        BlockRef { func, block: 0 },
        InstrView::Ret { value: None },
        BlockLabel::Entry,
        SlotView { ty: IrType::F64, name: decl.name },
        GlobalView::Variable { name: decl.name, ty: IrType::F64 },
        decl.name,
        decl.name,
        params,
        IrType::F64,
        false,
    );
    lemma_bind_params_frame(entered, func, decl.params, 0);
}

/// Ending a function leaves the registry as it is and keeps
/// what was emitted.
pub proof fn lemma_close_function_frame(ctx: CtxView, func: usize)
    ensures
        close_function(ctx, func).ctx.modules == ctx.modules,
        close_function(ctx, func).ctx.keeps_emitted(ctx),
{
}

/// What one step of building adds goes behind what is there. (A short form
/// of `lemma_building_keeps` for an instruction and for a slot or constant.)
pub proof fn lemma_keeps(ctx: CtxView, instr: InstrView, ty: IrType, name: Seq<char>)
    ensures
        ctx.keeps_emitted(ctx),
        ctx.emit(instr).ctx.keeps_emitted(ctx),
        ctx.emit_value(instr, ty).ctx.keeps_emitted(ctx),
        ctx.add_slot(ty, name).ctx.keeps_emitted(ctx),
        ctx.add_constant(name).keeps_emitted(ctx),
{
    lemma_building_keeps(
        ctx,
        instr,
        ty,
        BlockLabel::Entry,
        name,
        GlobalView::Variable { name, ty },
        Seq::empty(),
        false,
    );
}

/// The remainder of floats leaves the registry as it is and keeps what was emitted.
pub proof fn lemma_float_mod_frame(ctx: CtxView, lhs: Value, rhs: Value)
    ensures
        float_mod(ctx, lhs, rhs).ctx.modules == ctx.modules,
        float_mod(ctx, lhs, rhs).ctx.keeps_emitted(ctx),
{
    let params = seq![IrType::F64, IrType::F64];
    let (declared, fmod) = ctx.declare("fmod"@, params, IrType::F64, false);
    lemma_building_keeps(
        ctx,
        InstrView::Ret { value: None },
        IrType::F64,
        BlockLabel::Entry,
        "fmod"@,
        GlobalView::Variable { name: "fmod"@, ty: IrType::F64 },
        params,
        false,
    );
    let ret = declared.module.functions[fmod as int].ret;
    lemma_keeps(declared, InstrView::Call { callee: fmod, args: seq![lhs, rhs] }, ret, Seq::empty());
}

/// The equality of strings leaves the registry as it is and keeps what was emitted.
pub proof fn lemma_string_equal_frame(ctx: CtxView, lhs: Value, rhs: Value)
    ensures
        string_equal(ctx, lhs, rhs).ctx.modules == ctx.modules,
        string_equal(ctx, lhs, rhs).ctx.keeps_emitted(ctx),
{
    let params = seq![IrType::Ptr, IrType::Ptr];
    let (declared, comparer) = ctx.declare("strcmp"@, params, IrType::I32, false);
    lemma_building_keeps(
        ctx,
        InstrView::Ret { value: None },
        IrType::I32,
        BlockLabel::Entry,
        "strcmp"@,
        GlobalView::Variable { name: "strcmp"@, ty: IrType::I32 },
        params,
        false,
    );
    let ret = declared.module.functions[comparer as int].ret;
    let cast_left = InstrView::Cast { value: lhs, ty: IrType::Ptr };
    let left = declared.emit_value(cast_left, IrType::Ptr);
    lemma_keeps(declared, cast_left, IrType::Ptr, Seq::empty());
    match left.result {
        Err(e) => {},
        Ok(l) => {
            let cast_right = InstrView::Cast { value: rhs, ty: IrType::Ptr };
            let right = left.ctx.emit_value(cast_right, IrType::Ptr);
            lemma_keeps(left.ctx, cast_right, IrType::Ptr, Seq::empty());
            match right.result {
                Err(e) => {},
                Ok(r) => {
                    let call = InstrView::Call { callee: comparer, args: seq![l, r] };
                    let called = right.ctx.emit_value(call, ret);
                    lemma_keeps(right.ctx, call, ret, Seq::empty());
                    match called.result {
                        Err(e) => {},
                        Ok(order) => {
                            lemma_keeps(
                                called.ctx,
                                InstrView::Binary {
                                    op: BinaryOp::IntEqual,
                                    lhs: order,
                                    rhs: Value::Int { ty: IrType::I32, value: 0 },
                                },
                                IrType::Bool,
                                Seq::empty(),
                            );
                        },
                    }
                },
            }
        },
    }
}

/// Finishing an expression leaves the registry as it is and keeps what was emitted.
pub proof fn lemma_finish_expr_frame(ctx: CtxView, op: Operation, lhs: Value, rhs: Value, name: Seq<char>)
    ensures
        finish_unary(ctx, op, lhs).ctx.modules == ctx.modules,
        finish_unary(ctx, op, lhs).ctx.keeps_emitted(ctx),
        finish_binary(ctx, op, lhs, rhs).ctx.modules == ctx.modules,
        finish_binary(ctx, op, lhs, rhs).ctx.keeps_emitted(ctx),
        finish_assign(ctx, name, lhs).ctx.modules == ctx.modules,
        finish_assign(ctx, name, lhs).ctx.keeps_emitted(ctx),
{
    lemma_keeps(ctx, InstrView::Unary { op: UnaryOp::FNeg, operand: lhs }, IrType::F64, name);
    lemma_keeps(ctx, InstrView::Unary { op: UnaryOp::Not, operand: lhs }, lhs.ty_spec(), name);
    match float_op(op) {
        Some(instr) => {
            lemma_keeps(ctx, InstrView::Binary { op: instr, lhs, rhs }, IrType::F64, name);
        },
        None => {},
    }
    match int_op(op) {
        Some(instr) => {
            lemma_keeps(ctx, InstrView::Binary { op: instr, lhs, rhs }, lhs.ty_spec(), name);
        },
        None => {},
    }
    lemma_float_mod_frame(ctx, lhs, rhs);
    lemma_string_equal_frame(ctx, lhs, rhs);
    match lookup(ctx.variables, name) {
        Some(slot) => {
            lemma_keeps(ctx, InstrView::Store { ptr: slot, value: lhs }, IrType::F64, name);
        },
        None => {},
    }
}

/// A literal, a variable, a declaration and a return leave the registry as
/// it is and keep what was emitted.
pub proof fn lemma_simple_frames(
    ctx: CtxView,
    lit: LiteralView,
    name: Seq<char>,
    var_type: Option<Types>,
    value: Value,
)
    ensures
        lower_literal(ctx, lit).ctx.modules == ctx.modules,
        lower_literal(ctx, lit).ctx.keeps_emitted(ctx),
        lower_variable(ctx, name, var_type).ctx.modules == ctx.modules,
        lower_variable(ctx, name, var_type).ctx.keeps_emitted(ctx),
        finish_var_decl(ctx, name, var_type, value).ctx.modules == ctx.modules,
        finish_var_decl(ctx, name, var_type, value).ctx.keeps_emitted(ctx),
        finish_return(ctx, value).ctx.modules == ctx.modules,
        finish_return(ctx, value).ctx.keeps_emitted(ctx),
{
}

/// A function of the runtime leaves the registry as it is and keeps
/// what was emitted.
pub proof fn lemma_call_native_frame(ctx: CtxView, id: NativeId, args: Seq<Value>)
    ensures
        call_native_spec(ctx, id, args).ctx.modules == ctx.modules,
        call_native_spec(ctx, id, args).ctx.keeps_emitted(ctx),
{
    match id {
        NativeId::Printf => {},
        NativeId::Host(func) => {
            lemma_keeps(
                ctx,
                InstrView::Call { callee: func, args },
                ctx.module.functions[func as int].ret,
                Seq::empty(),
            );
        },
    }
}

/// An expression.
pub open spec fn lower_expr_spec(ctx: CtxView, registry: RegistryView, e: ExprView) -> Outcome<Value>
    decreases workload(ctx, registry), 0int, e, 0int,
{
    match e {
        ExprView::Literal(lit) => lower_literal(ctx, lit),
        ExprView::Unary { op, right } => {
            if op == Operation::Negate || op == Operation::Not {
                let operand = lower_expr_spec(ctx, registry, *right);
                match operand.result {
                    Ok(v) => finish_unary(operand.ctx, op, v),
                    Err(e) => operand,
                }
            } else {
                ctx.fail(unary_not_implemented_message(op))
            }
        },
        ExprView::Assign { name, value } => {
            let lowered = lower_expr_spec(ctx, registry, *value);
            match lowered.result {
                Ok(v) => finish_assign(lowered.ctx, name, v),
                Err(e) => lowered,
            }
        },
        ExprView::FCall { callee, args } => lower_call_spec(ctx, registry, callee, args),
        ExprView::Variable { var_name, var_type } => lower_variable(ctx, var_name, var_type),
        ExprView::Binary { left, op, right } => {
            let lhs = settled(ctx, registry, lower_expr_spec(ctx, registry, *left));
            match lhs.result {
                Err(e) => lhs,
                Ok(l) => {
                    let rhs = lower_expr_spec(lhs.ctx, registry, *right);
                    match rhs.result {
                        Err(e) => rhs,
                        Ok(r) => finish_binary(rhs.ctx, op, l, r),
                    }
                },
            }
        },
    }
}

/// A call. The callee is split at its last dot into a module and a
/// function, and the module is resolved (see `auto_register`). A function
/// of the runtime is handed the values of the arguments. A declaration
/// from source is lowered the first time it is called, and from then on the
/// registry holds the lowered function in its place; the call is then an
/// instruction of the caller. A callee that cannot be resolved is an error.
pub open spec fn lower_call_spec(
    ctx: CtxView,
    registry: RegistryView,
    callee: Seq<char>,
    args: Seq<ExprView>,
) -> Outcome<Value>
    decreases workload(ctx, registry), 0int, args, args.len() + 2,
{
    let module_name = module_part(callee);
    let name = function_part(callee);
    let resolved = auto_register(ctx, registry, module_name);
    proof {
        lemma_auto_register_workload(ctx, registry, module_name);
    }
    match resolved.function(module_name, name) {
        None => resolved.fail(function_not_defined_message(name, module_name)),
        Some(NativeFuncView::NativeFn(id)) => {
            let lowered = lower_args_spec(resolved, registry, args, 0, Seq::empty());
            match lowered.result {
                Err(e) => lowered.ctx.fail(e),
                Ok(values) => call_native_spec(lowered.ctx, id, values),
            }
        },
        Some(NativeFuncView::Lowered(func)) => call_lowered(resolved, registry, func, args),
        Some(NativeFuncView::AdanFunction(decl)) => {
            let func = resolved.module.functions.len() as usize;
            let marked = resolved.set_function(module_name, name, NativeFuncView::Lowered(func));
            proof {
                lemma_set_function_workload(
                    resolved,
                    registry,
                    module_name,
                    name,
                    NativeFuncView::Lowered(func),
                );
            }
            let made = settled(marked, registry, lower_function_spec(marked, registry, decl));
            match made.result {
                Err(e) => made.ctx.fail(e),
                Ok(f) => call_lowered(made.ctx.with_cursor(resolved.cursor), registry, func, args),
            }
        },
    }
}

/// A call of a function of the emitted module: the arguments are lowered
/// in order, and the call gives a float.
pub open spec fn call_lowered(ctx: CtxView, registry: RegistryView, func: usize, args: Seq<ExprView>) -> Outcome<
    Value,
>
    decreases workload(ctx, registry), 0int, args, args.len() + 1,
{
    let lowered = lower_args_spec(ctx, registry, args, 0, Seq::empty());
    match lowered.result {
        Err(e) => lowered.ctx.fail(e),
        Ok(values) => lowered.ctx.emit_value(
            InstrView::Call { callee: func, args: values },
            IrType::F64,
        ),
    }
}

/// The arguments of a call from index `from` on, in order; `values` are
/// the values of those before.
pub open spec fn lower_args_spec(
    ctx: CtxView,
    registry: RegistryView,
    args: Seq<ExprView>,
    from: int,
    values: Seq<Value>,
) -> Outcome<Seq<Value>>
    decreases workload(ctx, registry), 0int, args, args.len() - from,
{
    if from < 0 || from >= args.len() {
        ctx.ok(values)
    } else {
        let first = settled(ctx, registry, lower_expr_spec(ctx, registry, args[from]));
        match first.result {
            Err(e) => first.ctx.fail(e),
            Ok(v) => lower_args_spec(first.ctx, registry, args, from + 1, values.push(v)),
        }
    }
}

/// A statement.
pub open spec fn lower_statement_spec(ctx: CtxView, registry: RegistryView, s: StatementView) -> Outcome<()>
    decreases workload(ctx, registry), 1int, s, 3int,
{
    match s {
        StatementView::Expression(e) => {
            let lowered = lower_expr_spec(ctx, registry, e);
            match lowered.result {
                Ok(v) => lowered.ctx.ok(()),
                Err(e) => lowered.ctx.fail(e),
            }
        },
        StatementView::VarDecl { name, var_type, initializer } => {
            let value = match initializer {
                Some(e) => lower_expr_spec(ctx, registry, e),
                None => ctx.ok(zero_of(storage_type_spec(var_type))),
            };
            match value.result {
                Ok(v) => finish_var_decl(value.ctx, name, var_type, v),
                Err(e) => value.ctx.fail(e),
            }
        },
        StatementView::Block(stmts) => lower_statements_spec(ctx, registry, stmts, 0),
        StatementView::If { condition, then_branch, else_branch } => lower_if_spec(ctx, registry, s),
        StatementView::While { condition, body } => lower_while_spec(ctx, registry, s),
        StatementView::Function(decl) => {
            let func = ctx.module.functions.len() as usize;
            let known = ctx.set_function(Seq::empty(), decl.name, NativeFuncView::Lowered(func));
            proof {
                lemma_set_function_workload(
                    ctx,
                    registry,
                    Seq::empty(),
                    decl.name,
                    NativeFuncView::Lowered(func),
                );
            }
            let made = lower_function_spec(known, registry, decl);
            match made.result {
                Ok(f) => made.ctx.with_cursor(ctx.cursor).ok(()),
                Err(e) => made.ctx.fail(e),
            }
        },
        StatementView::Return { value } => {
            let lowered = match value {
                Some(e) => lower_expr_spec(ctx, registry, e),
                None => ctx.ok(Value::FloatZero),
            };
            match lowered.result {
                Ok(v) => finish_return(lowered.ctx, v),
                Err(e) => lowered.ctx.fail(e),
            }
        },
        StatementView::Include(path) => include_spec(ctx, registry, path),
    }
}

/// A conditional. The condition is lowered and tested; the blocks are made
/// and entered (see `open_if`); each branch is lowered in its block and
/// ends with a jump to the block where both meet, unless it ended in a
/// terminator of its own (see `end_branch`); the cursor is left at the block
/// where both meet.
pub open spec fn lower_if_spec(ctx: CtxView, registry: RegistryView, s: StatementView) -> Outcome<()>
    recommends
        s is If,
    decreases workload(ctx, registry), 1int, s, 2int,
{
    match s {
        StatementView::If { condition, then_branch, else_branch } => {
            let cond = settled(ctx, registry, lower_expr_spec(ctx, registry, condition));
            match cond.result {
                Err(e) => cond.ctx.fail(e),
                Ok(c) => {
                    let test = test_condition(cond.ctx, c);
                    match test.result {
                        Err(e) => test.ctx.fail(e),
                        Ok(t) => {
                            let opened = open_if(test.ctx, t, else_branch is Some);
                            proof {
                                lemma_test_condition_frame(cond.ctx, c);
                                lemma_open_if_frame(test.ctx, t, else_branch is Some);
                            }
                            match opened.result {
                                Err(e) => opened.ctx.fail(e),
                                Ok(blocks) => lower_branches_spec(
                                    opened.ctx,
                                    registry,
                                    s,
                                    blocks.1,
                                    blocks.2,
                                ),
                            }
                        },
                    }
                },
            }
        },
        _ => ctx.ok(()),
    }
}

/// The branches of a conditional whose blocks were made.
pub open spec fn lower_branches_spec(
    ctx: CtxView,
    registry: RegistryView,
    s: StatementView,
    else_block: Option<BlockRef>,
    merge: BlockRef,
) -> Outcome<()>
    recommends
        s is If,
    decreases workload(ctx, registry), 1int, s, 1int,
{
    match s {
        StatementView::If { condition, then_branch, else_branch } => {
            let then_done = settled(ctx, registry, lower_statement_spec(ctx, registry, *then_branch));
            match then_done.result {
                Err(e) => then_done,
                Ok(u) => match (else_branch, else_block) {
                    (Some(branch), Some(block)) => {
                        let moved = end_branch(then_done.ctx, merge, block);
                        proof {
                            lemma_end_branch_frame(then_done.ctx, merge, block);
                        }
                        match moved.result {
                            Err(e) => moved,
                            Ok(u) => {
                                let else_done = lower_statement_spec(moved.ctx, registry, *branch);
                                match else_done.result {
                                    Err(e) => else_done,
                                    Ok(u) => end_branch(else_done.ctx, merge, merge),
                                }
                            },
                        }
                    },
                    _ => end_branch(then_done.ctx, merge, merge),
                },
            }
        },
        _ => ctx.ok(()),
    }
}

/// A loop. The blocks are made and entered (see `open_while`); the
/// condition is lowered and tested in its block; the body is lowered in its
/// block and ends with a jump back to the condition, unless it ended in a
/// terminator of its own (see `end_branch`); the cursor is left behind the
/// loop.
pub open spec fn lower_while_spec(ctx: CtxView, registry: RegistryView, s: StatementView) -> Outcome<()>
    recommends
        s is While,
    decreases workload(ctx, registry), 1int, s, 2int,
{
    match s {
        StatementView::While { condition, body } => {
            let opened = open_while(ctx);
            proof {
                lemma_open_while_frame(ctx);
            }
            match opened.result {
                Err(e) => opened.ctx.fail(e),
                Ok(blocks) => {
                    let cond = settled(
                        opened.ctx,
                        registry,
                        lower_expr_spec(opened.ctx, registry, condition),
                    );
                    match cond.result {
                        Err(e) => cond.ctx.fail(e),
                        Ok(c) => {
                            let test = test_condition(cond.ctx, c);
                            match test.result {
                                Err(e) => test.ctx.fail(e),
                                Ok(t) => {
                                    let branched = branch_while(test.ctx, t, blocks.1, blocks.2);
                                    proof {
                                        lemma_test_condition_frame(cond.ctx, c);
                                        lemma_branch_while_frame(test.ctx, t, blocks.1, blocks.2);
                                    }
                                    match branched.result {
                                        Err(e) => branched,
                                        Ok(u) => {
                                            let body_done = lower_statement_spec(
                                                branched.ctx,
                                                registry,
                                                *body,
                                            );
                                            match body_done.result {
                                                Err(e) => body_done,
                                                Ok(u) => end_branch(
                                                    body_done.ctx,
                                                    blocks.0,
                                                    blocks.2,
                                                ),
                                            }
                                        },
                                    }
                                },
                            }
                        },
                    }
                },
            }
        },
        _ => ctx.ok(()),
    }
}

/// The statements of a list from index `from` on, in order. The first
/// error ends the lowering.
pub open spec fn lower_statements_spec(
    ctx: CtxView,
    registry: RegistryView,
    stmts: Seq<StatementView>,
    from: int,
) -> Outcome<()>
    decreases workload(ctx, registry), 1int, stmts, stmts.len() - from,
{
    if from < 0 || from >= stmts.len() {
        ctx.ok(())
    } else {
        let first = settled(ctx, registry, lower_statement_spec(ctx, registry, stmts[from]));
        match first.result {
            Err(e) => first,
            Ok(u) => lower_statements_spec(first.ctx, registry, stmts, from + 1),
        }
    }
}

/// A function: see `open_function` and `close_function` for its start and
/// its end; between them its statements are lowered in order. It gives the
/// index of the function in the module.
pub open spec fn lower_function_spec(ctx: CtxView, registry: RegistryView, decl: FunctionDeclView) -> Outcome<
    usize,
>
    decreases workload(ctx, registry), 1int, decl, 0int,
{
    let opened = open_function(ctx, decl);
    match opened.result {
        Err(e) => opened,
        Ok(func) => {
            proof {
                lemma_open_function_frame(ctx, decl);
            }
            let body = lower_statements_spec(opened.ctx, registry, decl.body, 0);
            match body.result {
                Err(e) => body.ctx.fail(e),
                Ok(u) => close_function(body.ctx, func),
            }
        },
    }
}

/// A call whose callee is not in the registry, in a module that the
/// runtime does not supply either, is an error that names the function and
/// the module. It leaves the state as it was: nothing is emitted and
/// nothing is registered.
pub proof fn lemma_unresolved_call(
    ctx: CtxView,
    registry: RegistryView,
    callee: Seq<char>,
    args: Seq<ExprView>,
)
    requires
        ctx.function(module_part(callee), function_part(callee)) is None,
        has_key(ctx.modules, module_part(callee)) || lookup(
            registry.natives,
            module_part(callee),
        ) is None,
    ensures
        lower_call_spec(ctx, registry, callee, args) == ctx.fail::<Value>(
            function_not_defined_message(function_part(callee), module_part(callee)),
        ),
        lower_expr_spec(ctx, registry, ExprView::FCall { callee, args }) == ctx.fail::<Value>(
            function_not_defined_message(function_part(callee), module_part(callee)),
        ),
{
}

} // verus!

//! Lowering of expressions: each gives a typed value.
use vstd::prelude::*;
use vstd::string::StringExecFns;
use crate::code_gen::builder::{CodeGenContext, NativeFunc, NativeFuncView, NativeId, seen_value};
use crate::code_gen::ir::{BinaryOp, Global, Instr, IrType, UnaryOp, Value, ValueKind};
use crate::code_gen::lowering::{
    auto_register, call_lowered, call_native_spec, finish_assign, finish_binary, finish_unary,
    float_mod, float_op, function_not_defined_message, function_part, int_op, last_dot,
    lemma_auto_register_workload, lemma_call_native_frame, lemma_finish_expr_frame,
    lemma_simple_frames, lower_args_spec, lower_call_spec, lower_expr_spec, lower_literal,
    lower_variable, module_part, storage_type_spec, string_equal,
};
use crate::code_gen::measure::{lemma_set_function_workload, workload};
use crate::code_gen::registry::NativeRegistry;
use crate::code_gen::statements::{codegen_function, register_module};
use crate::lexer::token::Types;
use crate::native::io::printf;
use crate::parser::ast::{
    Expr, FunctionDecl, Literal, LiteralView, Operation, clone_function, expr_views,
    lemma_call_view, operation_text,
};
use crate::parser::parser::message_with;
use crate::text::{chars_of, string_of_range};

verus! {

/// The type of the storage of a variable that was declared with `var_type`.
pub fn storage_type(var_type: Option<Types>) -> (ty: IrType)
    ensures
        ty == storage_type_spec(var_type),
{
    match var_type {
        Some(Types::F32) => IrType::F64,
        Some(Types::F64) => IrType::F64,
        Some(Types::String) => IrType::Ptr,
        Some(Types::Array) => IrType::Ptr,
        Some(Types::Object) => IrType::Ptr,
        _ => IrType::I64,
    }
}

/// The module and the function of a callee: what stands before its last
/// dot, and what stands behind it.
pub fn split_callee(callee: &str) -> (parts: (String, String))
    ensures
        parts.0@ == module_part(callee@),
        parts.1@ == function_part(callee@),
{
    let chars = chars_of(callee);
    let n = chars.len();
    let mut i: usize = n;
    while i > 0
        invariant
            i <= n,
            n == chars.len(),
            chars@ == callee@,
            last_dot(chars@, n as int) == last_dot(chars@, i as int),
        decreases i,
    {
        if chars[i - 1] == '.' {
            return (string_of_range(&chars, 0, i - 1), string_of_range(&chars, i, n));
        }
        i -= 1;
    }
    let name = string_of_range(&chars, 0, n);
    assert(chars@.subrange(0, n as int) =~= chars@);
    (String::new(), name)
}

/// The remainder of two floats. See `float_mod`.
pub fn build_float_mod(ctx: &mut CodeGenContext, lhs: Value, rhs: Value) -> (r: Result<Value, String>)
    ensures
        final(ctx)@ == float_mod(old(ctx)@, lhs, rhs).ctx,
        seen_value(r) == float_mod(old(ctx)@, lhs, rhs).result,
{
    let mut params: Vec<IrType> = Vec::new();
    params.push(IrType::F64);
    params.push(IrType::F64);
    assert(params@ =~= seq![IrType::F64, IrType::F64]);
    let fmod = ctx.declare("fmod", params, IrType::F64, false);
    let ret = ctx.function_ret(fmod);
    let mut args: Vec<Value> = Vec::new();
    args.push(lhs);
    args.push(rhs);
    assert(args@ =~= seq![lhs, rhs]);
    match ctx.emit_value(Instr::Call { callee: fmod, args }, ret) {
        Ok(v) => {
            if ret.kind() == ValueKind::Float {
                Ok(v)
            } else {
                Err(String::from_str("Expected FloatValue from fmod"))
            }
        },
        Err(e) => Err(e),
    }
}

/// Whether two strings are equal. See `string_equal`.
pub fn build_string_equal(ctx: &mut CodeGenContext, lhs: Value, rhs: Value) -> (r: Result<Value, String>)
    ensures
        final(ctx)@ == string_equal(old(ctx)@, lhs, rhs).ctx,
        seen_value(r) == string_equal(old(ctx)@, lhs, rhs).result,
{
    let mut params: Vec<IrType> = Vec::new();
    params.push(IrType::Ptr);
    params.push(IrType::Ptr);
    assert(params@ =~= seq![IrType::Ptr, IrType::Ptr]);
    let comparer = ctx.declare("strcmp", params, IrType::I32, false);
    let ret = ctx.function_ret(comparer);
    let l = match ctx.emit_value(Instr::Cast { value: lhs, ty: IrType::Ptr }, IrType::Ptr) {
        Ok(v) => v,
        Err(e) => {
            return Err(e);
        },
    };
    let r = match ctx.emit_value(Instr::Cast { value: rhs, ty: IrType::Ptr }, IrType::Ptr) {
        Ok(v) => v,
        Err(e) => {
            return Err(e);
        },
    };
    let mut args: Vec<Value> = Vec::new();
    args.push(l);
    args.push(r);
    assert(args@ =~= seq![l, r]);
    let order = match ctx.emit_value(Instr::Call { callee: comparer, args }, ret) {
        Ok(v) => v,
        Err(e) => {
            return Err(e);
        },
    };
    if ret.kind() == ValueKind::Int {
        ctx.emit_value(
            Instr::Binary {
                op: BinaryOp::IntEqual,
                lhs: order,
                rhs: Value::Int { ty: IrType::I32, value: 0 },
            },
            IrType::Bool,
        )
    } else {
        Err(String::from_str("Expected IntValue from strcmp"))
    }
}

/// A literal. See `lower_literal`.
pub fn codegen_literal(ctx: &mut CodeGenContext, lit: &Literal) -> (r: Result<Value, String>)
    ensures
        final(ctx)@ == lower_literal(old(ctx)@, lit@).ctx,
        seen_value(r) == lower_literal(old(ctx)@, lit@).result,
{
    match lit {
        Literal::Number(text) => {
            let index = ctx.add_constant(text.clone());
            Ok(Value::Float(index))
        },
        Literal::Bool(b) => Ok(
            Value::Int {
                ty: IrType::Bool,
                value: if *b {
                    1
                } else {
                    0
                },
            },
        ),
        Literal::Nil => Ok(Value::Null),
        Literal::String(s) => {
            let index = ctx.add_global(
                Global::Text { name: String::from_str("str"), text: s.clone() },
            );
            Ok(Value::Global(index))
        },
    }
}

/// A unary operator on an operand that was lowered. See `finish_unary`.
pub fn build_unary(ctx: &mut CodeGenContext, op: Operation, operand: Value) -> (r: Result<Value, String>)
    ensures
        final(ctx)@ == finish_unary(old(ctx)@, op, operand).ctx,
        seen_value(r) == finish_unary(old(ctx)@, op, operand).result,
{
    match op {
        Operation::Negate => {
            if operand.kind() == ValueKind::Float {
                ctx.emit_value(Instr::Unary { op: UnaryOp::FNeg, operand }, IrType::F64)
            } else {
                Err(String::from_str("Negate requires a float operand"))
            }
        },
        Operation::Not => {
            if operand.kind() == ValueKind::Int {
                ctx.emit_value(Instr::Unary { op: UnaryOp::Not, operand }, operand.ty())
            } else {
                Err(String::from_str("Not requires an integer operand"))
            }
        },
        _ => Err(message_with("Unary op not implemented: ", operation_text(op))),
    }
}

/// The instruction for an arithmetic operator on floats, if there is one.
pub fn float_instruction(op: Operation) -> (r: Option<BinaryOp>)
    ensures
        r == float_op(op),
{
    match op {
        Operation::Add => Some(BinaryOp::FAdd),
        Operation::Subtract => Some(BinaryOp::FSub),
        Operation::Multiply => Some(BinaryOp::FMul),
        Operation::Divide => Some(BinaryOp::FDiv),
        _ => None,
    }
}

/// The instruction for an arithmetic operator on integers, if there is one.
pub fn int_instruction(op: Operation) -> (r: Option<BinaryOp>)
    ensures
        r == int_op(op),
{
    match op {
        Operation::Add => Some(BinaryOp::Add),
        Operation::Subtract => Some(BinaryOp::Sub),
        Operation::Multiply => Some(BinaryOp::Mul),
        Operation::Divide => Some(BinaryOp::SDiv),
        Operation::Modulo => Some(BinaryOp::SRem),
        _ => None,
    }
}

/// A binary operator on operands that were lowered. See `finish_binary`.
pub fn build_binary(ctx: &mut CodeGenContext, op: Operation, lhs: Value, rhs: Value) -> (r: Result<
    Value,
    String,
>)
    ensures
        final(ctx)@ == finish_binary(old(ctx)@, op, lhs, rhs).ctx,
        seen_value(r) == finish_binary(old(ctx)@, op, lhs, rhs).result,
{
    let left = lhs.kind();
    let right = rhs.kind();
    if left == ValueKind::Float && right == ValueKind::Float {
        match float_instruction(op) {
            Some(instr) => ctx.emit_value(Instr::Binary { op: instr, lhs, rhs }, IrType::F64),
            None => {
                if op == Operation::Modulo {
                    build_float_mod(ctx, lhs, rhs)
                } else {
                    Err(message_with("Unsupported float binary op ", operation_text(op)))
                }
            },
        }
    } else if left == ValueKind::Int && right == ValueKind::Int {
        match int_instruction(op) {
            Some(instr) => ctx.emit_value(Instr::Binary { op: instr, lhs, rhs }, lhs.ty()),
            None => Err(message_with("Unsupported int binary op ", operation_text(op))),
        }
    } else if left == ValueKind::Pointer && right == ValueKind::Pointer {
        if op == Operation::Equal {
            build_string_equal(ctx, lhs, rhs)
        } else {
            Err(message_with("Unsupported string binary operation ", operation_text(op)))
        }
    } else {
        Err(String::from_str("Type mismatch in binary operation"))
    }
}

/// An assignment whose value was lowered. See `finish_assign`.
pub fn build_assign(ctx: &mut CodeGenContext, name: &str, value: Value) -> (r: Result<Value, String>)
    ensures
        final(ctx)@ == finish_assign(old(ctx)@, name@, value).ctx,
        seen_value(r) == finish_assign(old(ctx)@, name@, value).result,
{
    match ctx.variable(name) {
        None => Err(message_with("Variable not declared: ", name)),
        Some(slot) => match ctx.emit(Instr::Store { ptr: slot, value }) {
            Ok(_) => Ok(value),
            Err(e) => Err(e),
        },
    }
}

/// A variable that is read. See `lower_variable`.
pub fn codegen_variable(ctx: &mut CodeGenContext, name: &str, var_type: Option<Types>) -> (r: Result<
    Value,
    String,
>)
    ensures
        final(ctx)@ == lower_variable(old(ctx)@, name@, var_type).ctx,
        seen_value(r) == lower_variable(old(ctx)@, name@, var_type).result,
{
    match ctx.variable(name) {
        None => Err(message_with("Variable not declared: ", name)),
        Some(slot) => {
            let ty = match var_type {
                Some(t) => storage_type(Some(t)),
                None => ctx.recorded_type(slot),
            };
            ctx.emit_value(Instr::Load { ty, ptr: slot }, ty)
        },
    }
}

/// What a function of the runtime does with the arguments of a call.
pub fn call_native(ctx: &mut CodeGenContext, id: NativeId, args: Vec<Value>) -> (r: Result<Value, String>)
    ensures
        final(ctx)@ == call_native_spec(old(ctx)@, id, args@).ctx,
        seen_value(r) == call_native_spec(old(ctx)@, id, args@).result,
{
    match id {
        NativeId::Printf => printf(ctx, args),
        NativeId::Host(func) => {
            if func < ctx.function_count() {
                let ret = ctx.function_ret(func);
                ctx.emit_value(Instr::Call { callee: func, args }, ret)
            } else {
                Err(String::from_str("Host function is not declared"))
            }
        },
    }
}

/// Resolves the module of a call. See `auto_register`.
pub fn resolve_module(ctx: &mut CodeGenContext, registry: &NativeRegistry, module_name: &str)
    ensures
        final(ctx)@ == auto_register(old(ctx)@, registry@, module_name@),
{
    if !ctx.has_module(module_name) {
        match registry.native(module_name) {
            Some(module) => {
                register_module(ctx, module);
            },
            None => {},
        }
    }
}

/// What a callee was resolved to.
pub enum Resolved {
    /// Neither the module nor the function is known.
    Missing,
    /// A function of the runtime.
    Native(NativeId),
    /// A function of the emitted module.
    Lowered(usize),
    /// A declaration from source that is still to be lowered; this is a copy.
    Source(FunctionDecl),
}

/// Looks the function `name` of the module `module_name` up in the registry.
pub fn resolve_function(ctx: &CodeGenContext, module_name: &str, name: &str) -> (r: Resolved)
    ensures
        match ctx@.function(module_name@, name@) {
            None => r is Missing,
            Some(NativeFuncView::NativeFn(id)) => r == Resolved::Native(id),
            Some(NativeFuncView::Lowered(func)) => r == Resolved::Lowered(func),
            Some(NativeFuncView::AdanFunction(decl)) => r matches Resolved::Source(d) && d@ == decl,
        },
{
    match ctx.get_module(module_name) {
        None => Resolved::Missing,
        Some(module) => match module.get_function(name) {
            None => Resolved::Missing,
            Some(NativeFunc::NativeFn(id)) => Resolved::Native(*id),
            Some(NativeFunc::Lowered(func)) => Resolved::Lowered(*func),
            Some(NativeFunc::AdanFunction(decl)) => Resolved::Source(clone_function(decl)),
        },
    }
}

/// The message for a callee that cannot be resolved.
pub fn function_not_defined(name: &str, module_name: &str) -> (m: String)
    ensures
        m@ == function_not_defined_message(name@, module_name@),
{
    let mut m = String::from_str("Function '");
    m.append(name);
    m.append("' not defined in module '");
    m.append(module_name);
    m.append("'");
    m
}

/// The arguments of a call, in order. See `lower_args_spec`.
pub fn codegen_arguments(ctx: &mut CodeGenContext, args: &Vec<Expr>, registry: &NativeRegistry) -> (r:
    Result<Vec<Value>, String>)
    ensures
        final(ctx)@ == lower_args_spec(
            old(ctx)@,
            registry@,
            expr_views(args@),
            0,
            Seq::empty(),
        ).ctx,
        seen_values(r) == lower_args_spec(
            old(ctx)@,
            registry@,
            expr_views(args@),
            0,
            Seq::empty(),
        ).result,
        workload(final(ctx)@, registry@) <= workload(old(ctx)@, registry@),
    decreases workload(old(ctx)@, registry@), 0int, args, args@.len(),
{
    let ghost views = expr_views(args@);
    let ghost start = ctx@;
    let mut values: Vec<Value> = Vec::new();
    let mut i: usize = 0;
    while i < args.len()
        invariant
            i <= args.len(),
            views == expr_views(args@),
            start == old(ctx)@,
            workload(ctx@, registry@) <= workload(start, registry@),
            lower_args_spec(start, registry@, views, 0, Seq::empty()) == lower_args_spec(
                ctx@,
                registry@,
                views,
                i as int,
                values@,
            ),
        decreases args.len() - i,
    {
        assert(views[i as int] == args@[i as int]@);
        match codegen_expressions(ctx, &args[i], registry) {
            Ok(v) => {
                values.push(v);
            },
            Err(e) => {
                return Err(e);
            },
        }
        i += 1;
    }
    Ok(values)
}

/// Values or a message, as contracts state results.
pub open spec fn seen_values(r: Result<Vec<Value>, String>) -> Result<Seq<Value>, Seq<char>> {
    match r {
        Ok(v) => Ok(v@),
        Err(m) => Err(m@),
    }
}

/// A call of a function of the emitted module. See `call_lowered`.
pub fn codegen_call_lowered(
    ctx: &mut CodeGenContext,
    func: usize,
    args: &Vec<Expr>,
    registry: &NativeRegistry,
) -> (r: Result<Value, String>)
    ensures
        final(ctx)@ == call_lowered(
            old(ctx)@,
            registry@,
            func,
            expr_views(args@),
        ).ctx,
        seen_value(r) == call_lowered(
            old(ctx)@,
            registry@,
            func,
            expr_views(args@),
        ).result,
        workload(final(ctx)@, registry@) <= workload(old(ctx)@, registry@),
    decreases workload(old(ctx)@, registry@), 0int, args, args.len() + 1,
{
    match codegen_arguments(ctx, args, registry) {
        Err(e) => Err(e),
        Ok(values) => ctx.emit_value(Instr::Call { callee: func, args: values }, IrType::F64),
    }
}

/// A callee that was resolved: its module, its function, and what the
/// registry holds for it.
pub struct Resolution {
    pub module_name: String,
    pub name: String,
    pub function: Resolved,
}

/// Resolves a dotted name. The name is split at its last dot into a module
/// and a function; a name without a dot is a function of the root module.
/// Where the registry lacks the module and the runtime has one under that
/// name, the runtime's module is registered first, once. Then the function
/// is looked up.
pub fn resolve(ctx: &mut CodeGenContext, registry: &NativeRegistry, dotted_name: &str) -> (r:
    Resolution)
    ensures
        final(ctx)@ == auto_register(old(ctx)@, registry@, module_part(dotted_name@)),
        r.module_name@ == module_part(dotted_name@),
        r.name@ == function_part(dotted_name@),
        match final(ctx)@.function(module_part(dotted_name@), function_part(dotted_name@)) {
            None => r.function is Missing,
            Some(NativeFuncView::NativeFn(id)) => r.function == Resolved::Native(id),
            Some(NativeFuncView::Lowered(func)) => r.function == Resolved::Lowered(func),
            Some(NativeFuncView::AdanFunction(decl)) => r.function matches Resolved::Source(d)
                && d@ == decl,
        },
{
    let (module_name, name) = split_callee(dotted_name);
    resolve_module(ctx, registry, module_name.as_str());
    let function = resolve_function(ctx, module_name.as_str(), name.as_str());
    Resolution { module_name, name, function }
}

/// A call. See `lower_call_spec`.
pub fn codegen_call(ctx: &mut CodeGenContext, callee: &str, args: &Vec<Expr>, registry: &NativeRegistry) -> (r:
    Result<Value, String>)
    ensures
        final(ctx)@ == lower_call_spec(old(ctx)@, registry@, callee@, expr_views(args@)).ctx,
        seen_value(r) == lower_call_spec(old(ctx)@, registry@, callee@, expr_views(args@)).result,
        workload(final(ctx)@, registry@) <= workload(old(ctx)@, registry@),
    decreases workload(old(ctx)@, registry@), 0int, args, args.len() + 2,
{
    proof {
        lemma_auto_register_workload(ctx@, registry@, module_part(callee@));
    }
    let resolved = resolve(ctx, registry, callee);
    let module_name = resolved.module_name;
    let name = resolved.name;
    match resolved.function {
        Resolved::Missing => Err(function_not_defined(name.as_str(), module_name.as_str())),
        Resolved::Native(id) => {
            match codegen_arguments(ctx, args, registry) {
                Err(e) => Err(e),
                Ok(values) => {
                    proof {
                        lemma_call_native_frame(ctx@, id, values@);
                    }
                    call_native(ctx, id, values)
                },
            }
        },
        Resolved::Lowered(func) => codegen_call_lowered(ctx, func, args, registry),
        Resolved::Source(decl) => {
            let func = ctx.function_count();
            let saved = ctx.cursor();
            proof {
                lemma_set_function_workload(
                    ctx@,
                    registry@,
                    module_name@,
                    name@,
                    NativeFuncView::Lowered(func),
                );
            }
            ctx.set_function(module_name.as_str(), name.as_str(), NativeFunc::Lowered(func));
            match codegen_function(ctx, &decl, registry) {
                Err(e) => Err(e),
                Ok(_) => {
                    ctx.set_cursor(saved);
                    codegen_call_lowered(ctx, func, args, registry)
                },
            }
        },
    }
}

/// Lowers an expression into the block under the cursor and gives its
/// value. See `lower_expr_spec` for what each kind of expression adds to the
/// module and when it is an error. After an error, what had been emitted
/// stays.
pub fn codegen_expressions(ctx: &mut CodeGenContext, expr: &Expr, registry: &NativeRegistry) -> (r: Result<
    Value,
    String,
>)
    ensures
        final(ctx)@ == lower_expr_spec(old(ctx)@, registry@, expr@).ctx,
        seen_value(r) == lower_expr_spec(old(ctx)@, registry@, expr@).result,
        workload(final(ctx)@, registry@) <= workload(old(ctx)@, registry@),
    decreases workload(old(ctx)@, registry@), 0int, expr, 0int,
{
    match expr {
        Expr::Literal(lit) => {
            proof {
                lemma_simple_frames(ctx@, lit@, Seq::empty(), None, Value::Null);
            }
            codegen_literal(ctx, lit)
        },
        Expr::Unary { op, right } => {
            if *op == Operation::Negate || *op == Operation::Not {
                match codegen_expressions(ctx, right, registry) {
                    Ok(v) => {
                        proof {
                            lemma_finish_expr_frame(ctx@, *op, v, v, Seq::empty());
                        }
                        build_unary(ctx, *op, v)
                    },
                    Err(e) => Err(e),
                }
            } else {
                Err(message_with("Unary op not implemented: ", operation_text(*op)))
            }
        },
        Expr::Assign { name, value } => {
            match codegen_expressions(ctx, value, registry) {
                Ok(v) => {
                    proof {
                        lemma_finish_expr_frame(ctx@, Operation::Add, v, v, name@);
                    }
                    build_assign(ctx, name.as_str(), v)
                },
                Err(e) => Err(e),
            }
        },
        Expr::FCall { callee, args } => {
            proof {
                lemma_call_view(*callee, *args);
            }
            codegen_call(ctx, callee.as_str(), args, registry)
        },
        Expr::Variable { var_name, var_type } => {
            proof {
                lemma_simple_frames(ctx@, LiteralView::Nil, var_name@, *var_type, Value::Null);
            }
            codegen_variable(ctx, var_name.as_str(), *var_type)
        },
        Expr::Binary { left, op, right } => {
            let l = match codegen_expressions(ctx, left, registry) {
                Ok(v) => v,
                Err(e) => {
                    return Err(e);
                },
            };
            let r = match codegen_expressions(ctx, right, registry) {
                Ok(v) => v,
                Err(e) => {
                    return Err(e);
                },
            };
            proof {
                lemma_finish_expr_frame(ctx@, *op, l, r, Seq::empty());
            }
            build_binary(ctx, *op, l, r)
        },
    }
}

} // verus!

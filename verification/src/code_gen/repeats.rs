//! Lowering an expression a second time. An expression that holds no call
//! changes nothing that decides whether it can be lowered: the variables,
//! the types of their places, whether a block is under the cursor, and what
//! the functions of the host return. So where it was lowered without error,
//! it is lowered without error again, and a call of the runtime with such
//! arguments can be repeated.
use vstd::prelude::*;
use crate::code_gen::builder::{CtxView, NativeFuncView, NativeId, Outcome};
use crate::code_gen::ir::{
    BinaryOp, GlobalView, InstrView, IrType, UnaryOp, Value, ValueKind, first_named,
    lemma_first_named,
};
use crate::code_gen::laws::{lemma_expr_adds_no_work, lemma_native_call_succeeds, lemma_registered};
use crate::code_gen::lowering::{
    auto_register, call_native_spec, finish_assign, finish_binary, finish_unary, float_mod,
    float_op, function_part, int_op, lemma_auto_register_once, lemma_call_native_frame,
    lower_args_spec, lower_call_spec, lower_expr_spec, lower_literal, lower_variable, module_part,
    read_type, string_equal,
};
use crate::code_gen::measure::settled;
use crate::code_gen::registry::RegistryView;
use crate::code_gen::table::lookup;
use crate::lexer::token::Types;
use crate::parser::ast::{ExprView, LiteralView, Operation};

verus! {

/// Whether an expression holds no call.
pub open spec fn call_free(e: ExprView) -> bool
    decreases e,
{
    match e {
        ExprView::Literal(lit) => true,
        ExprView::Variable { var_name, var_type } => true,
        ExprView::Unary { op, right } => call_free(*right),
        ExprView::Assign { name, value } => call_free(*value),
        ExprView::Binary { left, op, right } => call_free(*left) && call_free(*right),
        ExprView::FCall { callee, args } => false,
    }
}

/// Whether none of the arguments holds a call.
pub open spec fn all_call_free(args: Seq<ExprView>) -> bool {
    forall|i: int| 0 <= i < args.len() ==> call_free(#[trigger] args[i])
}

/// The type that the function of the host called `name` returns, as
/// `declare` finds or makes it: that of the first function of the module
/// with the name, or `default` where there is none.
pub open spec fn host_ret(ctx: CtxView, name: Seq<char>, default: IrType) -> IrType {
    match ctx.module.find_function(name) {
        Some(i) => ctx.module.functions[i].ret,
        None => default,
    }
}

/// Whether two states are the same to an expression without calls: they
/// hold the same variables, each place has the same recorded type in both, a
/// block is under the cursor in both or in neither, and the functions of the
/// host that operators call return the same in both.
pub open spec fn same_face(a: CtxView, b: CtxView) -> bool {
    &&& a.variables == b.variables
    &&& a.insert_block() is Some <==> b.insert_block() is Some
    &&& forall|place: Value| #[trigger] a.recorded_type(place) == b.recorded_type(place)
    &&& host_ret(a, "fmod"@, IrType::F64) == host_ret(b, "fmod"@, IrType::F64)
    &&& host_ret(a, "strcmp"@, IrType::I32) == host_ret(b, "strcmp"@, IrType::I32)
}

/// The number of functions that the module comes to hold where the
/// functions of the host that operators call are declared: those that it
/// holds, and one for each of the two that it does not hold yet.
pub open spec fn host_room(ctx: CtxView) -> int {
    ctx.module.functions.len() + (if ctx.module.find_function("fmod"@) is None {
        1int
    } else {
        0int
    }) + (if ctx.module.find_function("strcmp"@) is None {
        1int
    } else {
        0int
    })
}

/// Whether `after` is the same to an expression without calls as `before`
/// was, with the cursor and the registry as they were, and with no function
/// gone.
pub open spec fn untouched(before: CtxView, after: CtxView) -> bool {
    &&& same_face(before, after)
    &&& after.cursor == before.cursor
    &&& after.modules == before.modules
    &&& host_room(after) == host_room(before)
    &&& after.module.functions.len() >= before.module.functions.len()
}

/// Whether two outcomes are both errors or both values of one type.
pub open spec fn same_result(x: Outcome<Value>, y: Outcome<Value>) -> bool {
    &&& x.result is Ok <==> y.result is Ok
    &&& x.result is Ok ==> x.result->Ok_0.ty_spec() == y.result->Ok_0.ty_spec()
}

/// `untouched` goes through a state between.
pub proof fn lemma_untouched(a: CtxView, b: CtxView, c: CtxView)
    requires
        untouched(a, b),
        untouched(b, c),
    ensures
        untouched(a, c),
{
    lemma_same_face(a, b, c);
}

/// States that were the same, each followed by one that it left
/// untouched: these are the same too.
pub proof fn lemma_same_face_after(a: CtxView, b: CtxView, a2: CtxView, b2: CtxView)
    requires
        same_face(a, b),
        untouched(a, a2),
        untouched(b, b2),
    ensures
        same_face(a2, b2),
{
    lemma_same_face(a, a2, a2);
    lemma_same_face(a2, a, b);
    lemma_same_face(a2, b, b2);
}

/// `same_face` is an equivalence.
pub proof fn lemma_same_face(a: CtxView, b: CtxView, c: CtxView)
    ensures
        same_face(a, a),
        same_face(a, b) ==> same_face(b, a),
        same_face(a, b) && same_face(b, c) ==> same_face(a, c),
{
    if same_face(a, b) {
        assert forall|place: Value| #[trigger] b.recorded_type(place) == a.recorded_type(place) by {
            assert(a.recorded_type(place) == b.recorded_type(place));
        }
        if same_face(b, c) {
            assert forall|place: Value| #[trigger] a.recorded_type(place) == c.recorded_type(place) by {
                assert(a.recorded_type(place) == b.recorded_type(place));
                assert(b.recorded_type(place) == c.recorded_type(place));
            }
        }
    }
}

/// An instruction leaves the state the same to an expression without calls.
pub proof fn lemma_emit_face(ctx: CtxView, instr: InstrView, ty: IrType)
    ensures
        same_face(ctx, ctx.emit(instr).ctx),
        ctx.emit_value(instr, ty).ctx == ctx.emit(instr).ctx,
        ctx.emit(instr).result is Ok <==> ctx.insert_block() is Some,
        ctx.emit_value(instr, ty).result is Ok <==> ctx.insert_block() is Some,
        ctx.emit_value(instr, ty).result matches Ok(v) ==> v.ty_spec() == ty,
        ctx.emit(instr).ctx.cursor == ctx.cursor,
        ctx.emit(instr).ctx.modules == ctx.modules,
        ctx.emit(instr).ctx.module.functions.len() == ctx.module.functions.len(),
        untouched(ctx, ctx.emit(instr).ctx),
{
    let out = ctx.emit(instr).ctx;
    assert(out.module.function_names() =~= ctx.module.function_names());
    lemma_first_named(ctx.module.function_names(), "fmod"@, 0);
    lemma_first_named(ctx.module.function_names(), "strcmp"@, 0);
    assert forall|place: Value| #[trigger] ctx.recorded_type(place) == out.recorded_type(place) by {
        match place {
            Value::Slot { func, index } => {
                assert(ctx.module.slot_at(func as int, index as int) == out.module.slot_at(
                    func as int,
                    index as int,
                ));
            },
            _ => {},
        }
    }
}

/// A function that is pushed behind `names` is found under its name where
/// the name was not there, and changes nothing for another name.
pub proof fn lemma_first_named_push(names: Seq<Seq<char>>, added: Seq<char>, name: Seq<char>, from: int)
    requires
        0 <= from <= names.len(),
    ensures
        first_named(names.push(added), name, from) == match first_named(names, name, from) {
            Some(i) => Some(i),
            None => if added == name {
                Some(names.len() as int)
            } else {
                None
            },
        },
    decreases names.len() - from,
{
    if from < names.len() {
        assert(names.push(added)[from] == names[from]);
        if names[from] != name {
            lemma_first_named_push(names, added, name, from + 1);
        }
    } else {
        assert(names.push(added)[from] == added);
        assert(first_named(names.push(added), name, from + 1) is None);
    }
}

/// Declaring a function of the host leaves the state the same to an
/// expression without calls, where the function is one of those that
/// operators call, with the type that they give it, or neither of them. The
/// function returns what `host_ret` says.
pub proof fn lemma_declare_face(
    ctx: CtxView,
    name: Seq<char>,
    params: Seq<IrType>,
    ret: IrType,
    variadic: bool,
)
    requires
        name == "fmod"@ ==> ret == IrType::F64,
        name == "strcmp"@ ==> ret == IrType::I32,
        ctx.module.functions.len() <= usize::MAX,
        ctx.module.find_function(name) is None ==> ctx.module.functions.len() < usize::MAX,
    ensures
        ({
            let (declared, func) = ctx.declare(name, params, ret, variadic);
            &&& same_face(ctx, declared)
            &&& func < declared.module.functions.len()
            &&& declared.module.functions[func as int].ret == host_ret(ctx, name, ret)
            &&& declared.cursor == ctx.cursor
            &&& declared.modules == ctx.modules
            &&& declared.insert_block() == ctx.insert_block()
            &&& declared.module.functions.len() >= ctx.module.functions.len()
            &&& host_room(declared) == host_room(ctx) + (if name != "fmod"@ && name != "strcmp"@
                && ctx.module.find_function(name) is None {
                1int
            } else {
                0int
            })
        }),
{
    let (declared, func) = ctx.declare(name, params, ret, variadic);
    let names = ctx.module.function_names();
    lemma_first_named(names, name, 0);
    if ctx.module.find_function(name) is None {
        assert(declared.module.function_names() =~= names.push(name));
        lemma_first_named_push(names, name, "fmod"@, 0);
        lemma_first_named_push(names, name, "strcmp"@, 0);
        lemma_first_named(names, "fmod"@, 0);
        lemma_first_named(names, "strcmp"@, 0);
        assert forall|place: Value| #[trigger]
            ctx.recorded_type(place) == declared.recorded_type(place) by {
            match place {
                Value::Slot { func, index } => {
                    assert(ctx.module.slot_at(func as int, index as int) == declared.module.slot_at(
                        func as int,
                        index as int,
                    ));
                },
                _ => {},
            }
        }
    }
}

/// The names of the functions of the host differ.
pub proof fn lemma_host_names()
    ensures
        "fmod"@ != "strcmp"@,
        "printf"@ != "fmod"@,
        "printf"@ != "strcmp"@,
{
    reveal_strlit("fmod");
    reveal_strlit("strcmp");
    reveal_strlit("printf");
    assert("fmod"@.len() == 4 && "strcmp"@.len() == 6);
    assert("printf"@[0] == 'p' && "strcmp"@[0] == 's');
}

/// Whether a state has room for the functions of the host that operators call.
pub open spec fn has_host_room(ctx: CtxView) -> bool {
    host_room(ctx) <= usize::MAX
}

/// A literal, in two states that are the same to it.
pub proof fn lemma_literal_again(a: CtxView, b: CtxView, lit: LiteralView)
    requires
        same_face(a, b),
    ensures
        untouched(a, lower_literal(a, lit).ctx),
        untouched(b, lower_literal(b, lit).ctx),
        same_result(lower_literal(a, lit), lower_literal(b, lit)),
{
    lemma_same_face(a, a, a);
    lemma_same_face(b, b, b);
    lemma_literal_face(a, lit);
    lemma_literal_face(b, lit);
}

/// A literal leaves the state untouched to expressions without calls.
pub proof fn lemma_literal_face(ctx: CtxView, lit: LiteralView)
    ensures
        untouched(ctx, lower_literal(ctx, lit).ctx),
{
    let out = lower_literal(ctx, lit).ctx;
    assert(out.module.functions == ctx.module.functions);
    assert(out.module.function_names() =~= ctx.module.function_names());
    assert forall|place: Value| #[trigger] ctx.recorded_type(place) == out.recorded_type(place) by {
        match place {
            Value::Slot { func, index } => {
                assert(ctx.module.slot_at(func as int, index as int) == out.module.slot_at(
                    func as int,
                    index as int,
                ));
            },
            _ => {},
        }
    }
}

/// A variable that is read, in two states that are the same to it.
pub proof fn lemma_variable_again(a: CtxView, b: CtxView, name: Seq<char>, var_type: Option<Types>)
    requires
        same_face(a, b),
    ensures
        untouched(a, lower_variable(a, name, var_type).ctx),
        untouched(b, lower_variable(b, name, var_type).ctx),
        same_result(lower_variable(a, name, var_type), lower_variable(b, name, var_type)),
{
    lemma_same_face(a, a, a);
    lemma_same_face(b, b, b);
    match lookup(a.variables, name) {
        Some(place) => {
            assert(a.recorded_type(place) == b.recorded_type(place));
            let ty = read_type(a, place, var_type);
            lemma_emit_face(a, InstrView::Load { ty, ptr: place }, ty);
            lemma_emit_face(b, InstrView::Load { ty, ptr: place }, ty);
        },
        None => {},
    }
}

/// An assignment whose value was lowered, in two states that are the same to it.
pub proof fn lemma_assign_again(a: CtxView, b: CtxView, name: Seq<char>, va: Value, vb: Value)
    requires
        same_face(a, b),
        va.ty_spec() == vb.ty_spec(),
    ensures
        untouched(a, finish_assign(a, name, va).ctx),
        untouched(b, finish_assign(b, name, vb).ctx),
        same_result(finish_assign(a, name, va), finish_assign(b, name, vb)),
{
    lemma_same_face(a, a, a);
    lemma_same_face(b, b, b);
    match lookup(a.variables, name) {
        Some(place) => {
            lemma_emit_face(a, InstrView::Store { ptr: place, value: va }, IrType::F64);
            lemma_emit_face(b, InstrView::Store { ptr: place, value: vb }, IrType::F64);
        },
        None => {},
    }
}

/// A unary operator on an operand that was lowered, in two states that
/// are the same to it.
pub proof fn lemma_unary_again(a: CtxView, b: CtxView, op: Operation, va: Value, vb: Value)
    requires
        same_face(a, b),
        va.ty_spec() == vb.ty_spec(),
    ensures
        untouched(a, finish_unary(a, op, va).ctx),
        untouched(b, finish_unary(b, op, vb).ctx),
        same_result(finish_unary(a, op, va), finish_unary(b, op, vb)),
{
    lemma_same_face(a, a, a);
    lemma_same_face(b, b, b);
    lemma_emit_face(a, InstrView::Unary { op: UnaryOp::FNeg, operand: va }, IrType::F64);
    lemma_emit_face(b, InstrView::Unary { op: UnaryOp::FNeg, operand: vb }, IrType::F64);
    lemma_emit_face(a, InstrView::Unary { op: UnaryOp::Not, operand: va }, va.ty_spec());
    lemma_emit_face(b, InstrView::Unary { op: UnaryOp::Not, operand: vb }, vb.ty_spec());
}

/// The remainder of two floats leaves the state untouched to expressions
/// without calls, and gives a value exactly where a block is under the
/// cursor and the function of the host returns a float.
pub proof fn lemma_float_mod_face(ctx: CtxView, lhs: Value, rhs: Value)
    requires
        has_host_room(ctx),
    ensures
        untouched(ctx, float_mod(ctx, lhs, rhs).ctx),
        float_mod(ctx, lhs, rhs).result is Ok <==> ctx.insert_block() is Some && host_ret(
            ctx,
            "fmod"@,
            IrType::F64,
        ).kind_spec() == ValueKind::Float,
        float_mod(ctx, lhs, rhs).result matches Ok(v) ==> v.ty_spec() == host_ret(
            ctx,
            "fmod"@,
            IrType::F64,
        ),
{
    lemma_host_names();
    lemma_first_named(ctx.module.function_names(), "fmod"@, 0);
    lemma_declare_face(ctx, "fmod"@, seq![IrType::F64, IrType::F64], IrType::F64, false);
    let (declared, fmod) = ctx.declare("fmod"@, seq![IrType::F64, IrType::F64], IrType::F64, false);
    let ret = declared.module.functions[fmod as int].ret;
    lemma_emit_face(declared, InstrView::Call { callee: fmod, args: seq![lhs, rhs] }, ret);
    let called = declared.emit_value(InstrView::Call { callee: fmod, args: seq![lhs, rhs] }, ret);
    lemma_same_face(ctx, declared, called.ctx);
}

/// Whether two strings are equal: this leaves the state untouched to
/// expressions without calls, and gives one bit exactly where a block is
/// under the cursor and the function of the host returns an integer.
pub proof fn lemma_string_equal_face(ctx: CtxView, lhs: Value, rhs: Value)
    requires
        has_host_room(ctx),
    ensures
        untouched(ctx, string_equal(ctx, lhs, rhs).ctx),
        string_equal(ctx, lhs, rhs).result is Ok <==> ctx.insert_block() is Some && host_ret(
            ctx,
            "strcmp"@,
            IrType::I32,
        ).kind_spec() == ValueKind::Int,
        string_equal(ctx, lhs, rhs).result matches Ok(v) ==> v.ty_spec() == IrType::Bool,
{
    lemma_host_names();
    lemma_first_named(ctx.module.function_names(), "strcmp"@, 0);
    lemma_declare_face(ctx, "strcmp"@, seq![IrType::Ptr, IrType::Ptr], IrType::I32, false);
    let (declared, comparer) = ctx.declare("strcmp"@, seq![IrType::Ptr, IrType::Ptr], IrType::I32, false);
    let ret = declared.module.functions[comparer as int].ret;
    lemma_emit_face(declared, InstrView::Cast { value: lhs, ty: IrType::Ptr }, IrType::Ptr);
    let left = declared.emit_value(InstrView::Cast { value: lhs, ty: IrType::Ptr }, IrType::Ptr);
    lemma_untouched(ctx, declared, left.ctx);
    if left.result is Ok {
        let l = left.result->Ok_0;
        lemma_emit_face(left.ctx, InstrView::Cast { value: rhs, ty: IrType::Ptr }, IrType::Ptr);
        let right = left.ctx.emit_value(InstrView::Cast { value: rhs, ty: IrType::Ptr }, IrType::Ptr);
        lemma_untouched(ctx, left.ctx, right.ctx);
        assert(right.result is Ok);
        let r = right.result->Ok_0;
        lemma_emit_face(right.ctx, InstrView::Call { callee: comparer, args: seq![l, r] }, ret);
        let called = right.ctx.emit_value(InstrView::Call { callee: comparer, args: seq![l, r] }, ret);
        lemma_untouched(ctx, right.ctx, called.ctx);
        assert(called.result is Ok);
        let order = called.result->Ok_0;
        let last = InstrView::Binary {
            op: BinaryOp::IntEqual,
            lhs: order,
            rhs: Value::Int { ty: IrType::I32, value: 0 },
        };
        lemma_emit_face(called.ctx, last, IrType::Bool);
        lemma_untouched(ctx, called.ctx, called.ctx.emit(last).ctx);
    }
}

/// A binary operator on operands that were lowered, in two states that
/// are the same to it.
pub proof fn lemma_binary_again(
    a: CtxView,
    b: CtxView,
    op: Operation,
    la: Value,
    ra: Value,
    lb: Value,
    rb: Value,
)
    requires
        same_face(a, b),
        has_host_room(a),
        has_host_room(b),
        la.ty_spec() == lb.ty_spec(),
        ra.ty_spec() == rb.ty_spec(),
    ensures
        untouched(a, finish_binary(a, op, la, ra).ctx),
        untouched(b, finish_binary(b, op, lb, rb).ctx),
        same_result(finish_binary(a, op, la, ra), finish_binary(b, op, lb, rb)),
{
    lemma_binary_face(a, op, la, ra);
    lemma_binary_face(b, op, lb, rb);
    lemma_float_mod_face(a, la, ra);
    lemma_float_mod_face(b, lb, rb);
    lemma_string_equal_face(a, la, ra);
    lemma_string_equal_face(b, lb, rb);
    if la.kind_spec() == ValueKind::Float && ra.kind_spec() == ValueKind::Float {
        match float_op(op) {
            Some(instr) => {
                lemma_emit_face(a, InstrView::Binary { op: instr, lhs: la, rhs: ra }, IrType::F64);
                lemma_emit_face(b, InstrView::Binary { op: instr, lhs: lb, rhs: rb }, IrType::F64);
            },
            None => {},
        }
    } else if la.kind_spec() == ValueKind::Int && ra.kind_spec() == ValueKind::Int {
        match int_op(op) {
            Some(instr) => {
                lemma_emit_face(a, InstrView::Binary { op: instr, lhs: la, rhs: ra }, la.ty_spec());
                lemma_emit_face(b, InstrView::Binary { op: instr, lhs: lb, rhs: rb }, lb.ty_spec());
            },
            None => {},
        }
    }
}

/// A binary operator on operands that were lowered leaves the state
/// untouched to expressions without calls.
pub proof fn lemma_binary_face(ctx: CtxView, op: Operation, lhs: Value, rhs: Value)
    requires
        has_host_room(ctx),
    ensures
        untouched(ctx, finish_binary(ctx, op, lhs, rhs).ctx),
{
    lemma_same_face(ctx, ctx, ctx);
    if lhs.kind_spec() == ValueKind::Float && rhs.kind_spec() == ValueKind::Float {
        match float_op(op) {
            Some(instr) => {
                lemma_emit_face(ctx, InstrView::Binary { op: instr, lhs, rhs }, IrType::F64);
            },
            None => {
                lemma_float_mod_face(ctx, lhs, rhs);
            },
        }
    } else if lhs.kind_spec() == ValueKind::Int && rhs.kind_spec() == ValueKind::Int {
        match int_op(op) {
            Some(instr) => {
                lemma_emit_face(ctx, InstrView::Binary { op: instr, lhs, rhs }, lhs.ty_spec());
            },
            None => {},
        }
    } else if lhs.kind_spec() == ValueKind::Pointer && rhs.kind_spec() == ValueKind::Pointer {
        lemma_string_equal_face(ctx, lhs, rhs);
    }
}

/// An expression without calls can be lowered again. In two states that
/// are the same to it, it is lowered without error in both or in neither,
/// to values of one type, and it leaves each state untouched: the same to
/// any expression without calls that follows.
pub proof fn lemma_expr_again(a: CtxView, b: CtxView, registry: RegistryView, e: ExprView)
    requires
        call_free(e),
        same_face(a, b),
        has_host_room(a),
        has_host_room(b),
    ensures
        untouched(a, lower_expr_spec(a, registry, e).ctx),
        untouched(b, lower_expr_spec(b, registry, e).ctx),
        same_result(lower_expr_spec(a, registry, e), lower_expr_spec(b, registry, e)),
    decreases e,
{
    match e {
        ExprView::Literal(lit) => {
            lemma_literal_again(a, b, lit);
        },
        ExprView::Variable { var_name, var_type } => {
            lemma_variable_again(a, b, var_name, var_type);
        },
        ExprView::Unary { op, right } => {
            lemma_same_face(a, a, a);
            lemma_same_face(b, b, b);
            if op == Operation::Negate || op == Operation::Not {
                lemma_expr_again(a, b, registry, *right);
                let oa = lower_expr_spec(a, registry, *right);
                let ob = lower_expr_spec(b, registry, *right);
                if oa.result is Ok {
                    lemma_same_face_after(a, b, oa.ctx, ob.ctx);
                    lemma_unary_again(oa.ctx, ob.ctx, op, oa.result->Ok_0, ob.result->Ok_0);
                    lemma_untouched(a, oa.ctx, finish_unary(oa.ctx, op, oa.result->Ok_0).ctx);
                    lemma_untouched(b, ob.ctx, finish_unary(ob.ctx, op, ob.result->Ok_0).ctx);
                }
            }
        },
        ExprView::Assign { name, value } => {
            lemma_expr_again(a, b, registry, *value);
            let oa = lower_expr_spec(a, registry, *value);
            let ob = lower_expr_spec(b, registry, *value);
            if oa.result is Ok {
                lemma_same_face_after(a, b, oa.ctx, ob.ctx);
                lemma_assign_again(oa.ctx, ob.ctx, name, oa.result->Ok_0, ob.result->Ok_0);
                lemma_untouched(a, oa.ctx, finish_assign(oa.ctx, name, oa.result->Ok_0).ctx);
                lemma_untouched(b, ob.ctx, finish_assign(ob.ctx, name, ob.result->Ok_0).ctx);
            }
        },
        ExprView::Binary { left, op, right } => {
            lemma_expr_again(a, b, registry, *left);
            lemma_expr_adds_no_work(a, registry, *left);
            lemma_expr_adds_no_work(b, registry, *left);
            let la = lower_expr_spec(a, registry, *left);
            let lb = lower_expr_spec(b, registry, *left);
            assert(settled(a, registry, la) == la);
            assert(settled(b, registry, lb) == lb);
            if la.result is Ok {
                lemma_same_face_after(a, b, la.ctx, lb.ctx);
                lemma_expr_again(la.ctx, lb.ctx, registry, *right);
                let ra = lower_expr_spec(la.ctx, registry, *right);
                let rb = lower_expr_spec(lb.ctx, registry, *right);
                lemma_untouched(a, la.ctx, ra.ctx);
                lemma_untouched(b, lb.ctx, rb.ctx);
                if ra.result is Ok {
                    lemma_same_face_after(la.ctx, lb.ctx, ra.ctx, rb.ctx);
                    let (l1, r1) = (la.result->Ok_0, ra.result->Ok_0);
                    let (l2, r2) = (lb.result->Ok_0, rb.result->Ok_0);
                    lemma_binary_again(ra.ctx, rb.ctx, op, l1, r1, l2, r2);
                    lemma_untouched(a, ra.ctx, finish_binary(ra.ctx, op, l1, r1).ctx);
                    lemma_untouched(b, rb.ctx, finish_binary(rb.ctx, op, l2, r2).ctx);
                }
            }
        },
        ExprView::FCall { callee, args } => {},
    }
}

/// Whether two rows of values are of one length and of the same types, one by one.
pub open spec fn same_types(x: Seq<Value>, y: Seq<Value>) -> bool {
    &&& x.len() == y.len()
    &&& forall|i: int| 0 <= i < x.len() ==> (#[trigger] x[i]).ty_spec() == y[i].ty_spec()
}

/// Arguments without calls can be lowered again. In two states that are
/// the same to them, they are lowered without error in both or in neither,
/// to values of the same types, and they leave each state untouched.
pub proof fn lemma_args_again(
    a: CtxView,
    b: CtxView,
    registry: RegistryView,
    args: Seq<ExprView>,
    from: int,
    before_a: Seq<Value>,
    before_b: Seq<Value>,
)
    requires
        all_call_free(args),
        0 <= from <= args.len(),
        same_face(a, b),
        has_host_room(a),
        has_host_room(b),
        same_types(before_a, before_b),
    ensures
        ({
            let oa = lower_args_spec(a, registry, args, from, before_a);
            let ob = lower_args_spec(b, registry, args, from, before_b);
            &&& untouched(a, oa.ctx)
            &&& untouched(b, ob.ctx)
            &&& oa.result is Ok <==> ob.result is Ok
            &&& oa.result is Ok ==> same_types(oa.result->Ok_0, ob.result->Ok_0)
        }),
    decreases args.len() - from,
{
    lemma_same_face(a, a, a);
    lemma_same_face(b, b, b);
    if from < args.len() {
        assert(call_free(args[from]));
        lemma_expr_again(a, b, registry, args[from]);
        lemma_expr_adds_no_work(a, registry, args[from]);
        lemma_expr_adds_no_work(b, registry, args[from]);
        let fa = lower_expr_spec(a, registry, args[from]);
        let fb = lower_expr_spec(b, registry, args[from]);
        assert(settled(a, registry, fa) == fa);
        assert(settled(b, registry, fb) == fb);
        if fa.result is Ok {
            let va = fa.result->Ok_0;
            let vb = fb.result->Ok_0;
            lemma_same_face_after(a, b, fa.ctx, fb.ctx);
            assert(same_types(before_a.push(va), before_b.push(vb))) by {
                assert forall|i: int| 0 <= i < before_a.len() + 1 implies (#[trigger] before_a.push(
                    va,
                )[i]).ty_spec() == before_b.push(vb)[i].ty_spec() by {
                    if i < before_a.len() {
                        assert(before_a.push(va)[i] == before_a[i]);
                        assert(before_b.push(vb)[i] == before_b[i]);
                    }
                }
            }
            lemma_args_again(fa.ctx, fb.ctx, registry, args, from + 1, before_a.push(va), before_b.push(vb));
            lemma_untouched(a, fa.ctx, lower_args_spec(a, registry, args, from, before_a).ctx);
            lemma_untouched(b, fb.ctx, lower_args_spec(b, registry, args, from, before_b).ctx);
        }
    }
}

/// A call of a function of the runtime leaves the state the same to
/// expressions without calls. It declares at most one function.
pub proof fn lemma_native_call_face(ctx: CtxView, id: NativeId, args: Seq<Value>)
    requires
        ctx.module.functions.len() < usize::MAX,
    ensures
        same_face(ctx, call_native_spec(ctx, id, args).ctx),
        host_room(call_native_spec(ctx, id, args).ctx) <= host_room(ctx) + 1,
{
    lemma_same_face(ctx, ctx, ctx);
    match id {
        NativeId::Printf => {
            lemma_host_names();
            lemma_declare_face(ctx, "printf"@, seq![IrType::Ptr], IrType::I32, true);
            let (declared, printf) = ctx.declare("printf"@, seq![IrType::Ptr], IrType::I32, true);
            if args.len() > 0 && args[0].kind_spec() != ValueKind::Int {
                let global = if args[0].kind_spec() == ValueKind::Float {
                    GlobalView::Text { name: "fmt_float"@, text: "%f\n\0"@ }
                } else {
                    GlobalView::Text { name: "fmt_str"@, text: "%s\n\0"@ }
                };
                let with_format = declared.add_global(global);
                lemma_global_face(declared, global);
                let instr = InstrView::Call {
                    callee: printf,
                    args: seq![Value::Global(declared.module.globals.len() as usize), args[0]],
                };
                lemma_emit_face(with_format, instr, IrType::I32);
                let called = with_format.emit(instr);
                lemma_same_face(ctx, declared, with_format);
                lemma_same_face(ctx, with_format, called.ctx);
                assert(call_native_spec(ctx, id, args).ctx == called.ctx);
            }
        },
        NativeId::Host(func) => {
            let instr = InstrView::Call { callee: func, args };
            lemma_emit_face(ctx, instr, ctx.module.functions[func as int].ret);
        },
    }
}

/// A global leaves the state untouched to expressions without calls.
pub proof fn lemma_global_face(ctx: CtxView, global: GlobalView)
    ensures
        untouched(ctx, ctx.add_global(global)),
{
    let out = ctx.add_global(global);
    assert(out.module.functions == ctx.module.functions);
    assert(out.module.function_names() =~= ctx.module.function_names());
    assert forall|place: Value| #[trigger] ctx.recorded_type(place) == out.recorded_type(place) by {
        match place {
            Value::Slot { func, index } => {
                assert(ctx.module.slot_at(func as int, index as int) == out.module.slot_at(
                    func as int,
                    index as int,
                ));
            },
            _ => {},
        }
    }
}

/// A call of a function of the runtime whose arguments hold no call can be
/// repeated. If the first call is lowered without error, so is the second;
/// the first call changes the registry by resolving its module and in no
/// other way, and the second call leaves the registry as the first one left
/// it: the same modules with the same functions. (The module has room for
/// the functions of the host that the calls may declare.)
pub proof fn lemma_native_call_repeats(
    ctx: CtxView,
    registry: RegistryView,
    callee: Seq<char>,
    args: Seq<ExprView>,
)
    requires
        all_call_free(args),
        auto_register(ctx, registry, module_part(callee)).function(
            module_part(callee),
            function_part(callee),
        ) matches Some(NativeFuncView::NativeFn(id)),
        lower_call_spec(ctx, registry, callee, args).result is Ok,
        ctx.module.functions.len() + 3 < usize::MAX,
    ensures
        ({
            let first = lower_call_spec(ctx, registry, callee, args);
            let second = lower_call_spec(first.ctx, registry, callee, args);
            &&& first.ctx.modules == auto_register(ctx, registry, module_part(callee)).modules
            &&& second.result is Ok
            &&& second.ctx.modules == first.ctx.modules
            &&& second.ctx.cursor == first.ctx.cursor
        }),
{
    let module_name = module_part(callee);
    let name = function_part(callee);
    let resolved = auto_register(ctx, registry, module_name);
    let id = resolved.function(module_name, name)->0->NativeFn_0;
    lemma_auto_register_once(ctx, registry, module_name);
    assert(lower_call_spec(ctx, registry, callee, args) == lower_call_spec(
        resolved,
        registry,
        callee,
        args,
    ));
    assert(resolved.module == ctx.module);
    lemma_native_call_once(resolved, registry, callee, args, id);
    let first = lower_call_spec(resolved, registry, callee, args);
    lemma_native_call_once(first.ctx, registry, callee, args, id);
    let none: Seq<Value> = Seq::empty();
    assert(same_types(none, none));
    lemma_args_again(resolved, first.ctx, registry, args, 0, none, none);
    let va = lower_args_spec(resolved, registry, args, 0, none);
    let vb = lower_args_spec(first.ctx, registry, args, 0, none);
    lemma_native_call_succeeds(va.ctx, id, va.result->Ok_0);
    lemma_native_call_succeeds(vb.ctx, id, vb.result->Ok_0);
    lemma_native_call_succeeds(resolved, id, va.result->Ok_0);
}

/// A call of a function of the runtime that the registry holds, with
/// arguments that hold no call: the arguments are lowered, and the function
/// is handed their values. The call registers nothing, leaves the cursor in
/// place, and leaves the state the same to expressions without calls.
pub proof fn lemma_native_call_once(
    ctx: CtxView,
    registry: RegistryView,
    callee: Seq<char>,
    args: Seq<ExprView>,
    id: NativeId,
)
    requires
        all_call_free(args),
        ctx.function(module_part(callee), function_part(callee)) == Some(
            NativeFuncView::NativeFn(id),
        ),
        host_room(ctx) < usize::MAX,
    ensures
        ({
            let lowered = lower_args_spec(ctx, registry, args, 0, Seq::empty());
            let out = lower_call_spec(ctx, registry, callee, args);
            &&& untouched(ctx, lowered.ctx)
            &&& out.result is Ok <==> lowered.result is Ok && call_native_spec(
                lowered.ctx,
                id,
                lowered.result->Ok_0,
            ).result is Ok
            &&& out.ctx.modules == ctx.modules
            &&& out.ctx.cursor == ctx.cursor
            &&& same_face(ctx, out.ctx)
            &&& host_room(out.ctx) <= host_room(ctx) + 1
            &&& forall|func: usize| ctx.module.has_function(func) ==> out.ctx.module.has_function(func)
        }),
{
    let module_name = module_part(callee);
    let name = function_part(callee);
    lemma_registered(ctx, module_name, name);
    assert(auto_register(ctx, registry, module_name) == ctx);
    let none: Seq<Value> = Seq::empty();
    assert(same_types(none, none));
    lemma_same_face(ctx, ctx, ctx);
    lemma_args_again(ctx, ctx, registry, args, 0, none, none);
    let lowered = lower_args_spec(ctx, registry, args, 0, none);
    let out = lower_call_spec(ctx, registry, callee, args);
    if lowered.result is Ok {
        let values = lowered.result->Ok_0;
        lemma_first_named(lowered.ctx.module.function_names(), "fmod"@, 0);
        lemma_native_call_face(lowered.ctx, id, values);
        lemma_native_call_succeeds(lowered.ctx, id, values);
        lemma_call_native_frame(lowered.ctx, id, values);
        assert(out == call_native_spec(lowered.ctx, id, values));
        lemma_same_face(ctx, lowered.ctx, out.ctx);
    } else {
        assert(out.ctx == lowered.ctx);
    }
}

} // verus!

//! The `io` module of the runtime: text output.
use vstd::prelude::*;
use vstd::string::StringExecFns;
use crate::code_gen::builder::{CodeGenContext, NativeId, NativeModule, seen_value};
use crate::code_gen::ir::{Global, Instr, IrType, Value, ValueKind};
use crate::code_gen::lowering::{printf_spec, register_module_spec};

verus! {

/// Lowers a call of the function that prints. See `printf_spec`.
pub fn printf(ctx: &mut CodeGenContext, args: Vec<Value>) -> (r: Result<Value, String>)
    ensures
        final(ctx)@ == printf_spec(old(ctx)@, args@).ctx,
        seen_value(r) == printf_spec(old(ctx)@, args@).result,
{
    let mut params: Vec<IrType> = Vec::new();
    params.push(IrType::Ptr);
    assert(params@ =~= seq![IrType::Ptr]);
    let printf_fn = ctx.declare("printf", params, IrType::I32, true);
    if args.len() == 0 {
        return Err(String::from_str("Unsupported argument type for out()"));
    }
    let first = args[0];
    let format = match first.kind() {
        ValueKind::Float => Global::Text {
            name: String::from_str("fmt_float"),
            text: String::from_str("%f\n\0"),
        },
        ValueKind::Pointer => Global::Text {
            name: String::from_str("fmt_str"),
            text: String::from_str("%s\n\0"),
        },
        ValueKind::Int => {
            return Err(String::from_str("Unsupported argument type for out()"));
        },
    };
    let global = ctx.add_global(format);
    let mut call_args: Vec<Value> = Vec::new();
    call_args.push(Value::Global(global));
    call_args.push(first);
    assert(call_args@ =~= seq![Value::Global(global), first]);
    match ctx.emit(Instr::Call { callee: printf_fn, args: call_args }) {
        Ok(_) => Ok(first),
        Err(e) => Err(e),
    }
}

/// Registers the functions of the `io` module: the function that prints,
/// under the names `printf` and `out`.
pub fn register_native(ctx: &mut CodeGenContext)
    ensures
        final(ctx)@ == register_module_spec(old(ctx)@, NativeModule::Io),
{
    ctx.register_native_fn("io", "printf", NativeId::Printf);
    ctx.register_native_fn("io", "out", NativeId::Printf);
}

} // verus!

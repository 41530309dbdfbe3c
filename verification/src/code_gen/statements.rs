//! Lowering of statements and functions: control flow becomes basic
//! blocks, variables become storage slots.
use vstd::prelude::*;
use vstd::string::StringExecFns;
use crate::code_gen::builder::{
    CodeGenContext, ModuleValue, ModuleValueView, NativeFunc, NativeFuncView, NativeModule,
    seen_index, seen_unit, seen_value,
};
use crate::code_gen::expressions::{codegen_expressions, storage_type};
use crate::code_gen::ir::{BinaryOp, BlockLabel, BlockRef, Global, Instr, IrType, Value, ValueKind};
use crate::code_gen::laws::lemma_include_workload;
use crate::code_gen::lowering::{
    bind_params, branch_while, close_function, cursor_terminated, end_branch, finish_return,
    finish_var_decl, function_verified, include_spec, jump_and_move, lemma_branch_while_frame,
    lemma_close_function_frame, lemma_end_branch_frame, lemma_open_function_frame,
    lemma_open_if_frame, lemma_open_while_frame, lemma_simple_frames, lemma_test_condition_frame,
    lower_branches_spec, lower_function_spec, lower_if_spec, lower_statement_spec,
    lower_statements_spec, lower_while_spec, open_function, open_if, open_while, populate,
    register_module_spec, test_condition, zero_of,
};
use crate::code_gen::measure::{lemma_set_function_workload, workload};
use crate::code_gen::registry::{
    NativeRegistry, RegistryView, include_file_path, native_module_for, registry_of,
};
use crate::code_gen::table::{lemma_put, lookup, put};
use crate::lexer::lexer::{Lexer, tokens_from};
use crate::lexer::token::Types;
use crate::native::io::register_native;
use crate::parser::ast::{
    FunctionDecl, LiteralView, Statement, StatementView, clone_function, lemma_block_view,
    lemma_function_view, statement_views, string_views,
};
use crate::parser::grammar::parse_program_spec;
use crate::parser::parser::Parser;
use crate::text::{chars_of, string_push};

verus! {

/// Runs the registration routine of a module of the runtime.
pub fn register_module(ctx: &mut CodeGenContext, module: NativeModule)
    ensures
        final(ctx)@ == register_module_spec(old(ctx)@, module),
{
    match module {
        NativeModule::Io => register_native(ctx),
    }
}

/// The registry of the modules of the runtime whose files are among
/// `file_names`, the names of the files of the runtime's directory.
pub fn load_native_registry(file_names: &Vec<String>) -> (registry: NativeRegistry)
    ensures
        registry@ == registry_of(string_views(file_names@), 0, RegistryView::empty()),
{
    let ghost names = string_views(file_names@);
    let mut registry = NativeRegistry::new();
    let mut i: usize = 0;
    while i < file_names.len()
        invariant
            i <= file_names.len(),
            names == string_views(file_names@),
            registry_of(names, 0, RegistryView::empty()) == registry_of(names, i as int, registry@),
        decreases file_names.len() - i,
    {
        assert(names[i as int] == file_names@[i as int]@);
        match native_module_for(file_names[i].as_str()) {
            Some((name, module)) => {
                registry.register(String::from_str(name), module);
            },
            None => {},
        }
        i += 1;
    }
    registry
}

/// The paths of the includes among statements, in the order of the
/// statements, from index `from` on; `found` are those before. Includes
/// inside blocks, branches, loops and functions count.
pub open spec fn includes_of(stmts: Seq<StatementView>, from: int, found: Seq<Seq<char>>) -> Seq<Seq<char>>
    decreases stmts, stmts.len() - from,
{
    if from < 0 || from >= stmts.len() {
        found
    } else {
        includes_of(stmts, from + 1, includes_in(stmts[from], found))
    }
}

/// The paths of the includes of a statement, behind those in `found`.
pub open spec fn includes_in(s: StatementView, found: Seq<Seq<char>>) -> Seq<Seq<char>>
    decreases s, 0int,
{
    match s {
        StatementView::Include(path) => found.push(path),
        StatementView::Block(stmts) => includes_of(stmts, 0, found),
        StatementView::If { condition, then_branch, else_branch } => match else_branch {
            Some(branch) => includes_in(*branch, includes_in(*then_branch, found)),
            None => includes_in(*then_branch, found),
        },
        StatementView::While { condition, body } => includes_in(*body, found),
        StatementView::Function(decl) => includes_of(decl.body, 0, found),
        _ => found,
    }
}

/// Adds the paths of the includes among `stmts` to `found`.
pub fn collect_includes(stmts: &Vec<Statement>, found: &mut Vec<String>)
    ensures
        string_views(final(found)@) == includes_of(
            statement_views(stmts@),
            0,
            string_views(old(found)@),
        ),
    decreases stmts, stmts@.len(),
{
    let ghost views = statement_views(stmts@);
    let ghost start = string_views(found@);
    let mut i: usize = 0;
    while i < stmts.len()
        invariant
            i <= stmts.len(),
            views == statement_views(stmts@),
            includes_of(views, 0, start) == includes_of(views, i as int, string_views(found@)),
        decreases stmts.len() - i,
    {
        assert(views[i as int] == stmts@[i as int]@);
        collect_includes_in(&stmts[i], found);
        i += 1;
    }
}

/// Adds the paths of the includes of `stmt` to `found`.
pub fn collect_includes_in(stmt: &Statement, found: &mut Vec<String>)
    ensures
        string_views(final(found)@) == includes_in(stmt@, string_views(old(found)@)),
    decreases stmt, 0int,
{
    match stmt {
        Statement::Include(path) => {
            let ghost before = string_views(found@);
            found.push(path.clone());
            assert(string_views(found@) =~= before.push(path@));
        },
        Statement::Block(stmts) => {
            proof {
                lemma_block_view(*stmts);
            }
            collect_includes(stmts, found);
        },
        Statement::If { condition, then_branch, else_branch } => {
            collect_includes_in(then_branch, found);
            match else_branch {
                Some(branch) => {
                    collect_includes_in(branch, found);
                },
                None => {},
            }
        },
        Statement::While { condition, body } => {
            collect_includes_in(body, found);
        },
        Statement::Function(decl) => {
            proof {
                lemma_function_view(*decl);
            }
            collect_includes(&decl.body, found);
        },
        _ => {},
    }
}

/// Whether a path still needs the text of a source module: the runtime
/// supplies no module under it, and the registry has no text for it.
pub open spec fn needs_source(registry: RegistryView, path: Seq<char>) -> bool {
    lookup(registry.natives, path) is None && lookup(registry.sources, path) is None
}

/// The last of the pending paths that still needs a source, and the paths
/// that are pending before it. Paths behind it need none and are dropped.
pub open spec fn next_source_spec(pending: Seq<Seq<char>>, registry: RegistryView) -> (
    Seq<Seq<char>>,
    Option<Seq<char>>,
)
    decreases pending.len(),
{
    if pending.len() == 0 {
        (pending, None)
    } else if needs_source(registry, pending.last()) {
        (pending.drop_last(), Some(pending.last()))
    } else {
        next_source_spec(pending.drop_last(), registry)
    }
}

/// The pending paths after the text of a source module was taken in: the
/// includes of the text go behind them. A text that has no parse adds none.
pub open spec fn pending_after(pending: Seq<Seq<char>>, text: Seq<char>) -> Seq<Seq<char>> {
    match parse_program_spec(tokens_from(text, 0), 0) {
        Ok(stmts) => includes_of(stmts, 0, pending),
        Err(e) => pending,
    }
}

/// Takes the next path whose source is to be read from the pending paths.
/// A path that the runtime supplies, or whose text the registry has, is
/// passed over, so no source is read twice, whatever includes what.
pub fn next_source(pending: &mut Vec<String>, registry: &NativeRegistry) -> (next: Option<String>)
    ensures
        string_views(final(pending)@) == next_source_spec(string_views(old(pending)@), registry@).0,
        match next_source_spec(string_views(old(pending)@), registry@).1 {
            Some(path) => next matches Some(p) && p@ == path && needs_source(registry@, path),
            None => next is None,
        },
{
    let ghost start = string_views(pending@);
    loop
        invariant
            next_source_spec(start, registry@) == next_source_spec(string_views(pending@), registry@),
            start == string_views(old(pending)@),
        decreases pending.len(),
    {
        let ghost before = string_views(pending@);
        match pending.pop() {
            None => {
                return None;
            },
            Some(path) => {
                assert(string_views(pending@) =~= before.drop_last());
                assert(before.last() == path@);
                if registry.native(path.as_str()).is_none() && registry.source(
                    path.as_str(),
                ).is_none() {
                    return Some(path);
                }
            },
        }
    }
}

/// Takes the text of a source module into the registry, under its include
/// path, and the includes of the text into the pending paths. The path
/// needs no source from then on.
pub fn add_loaded_source(
    pending: &mut Vec<String>,
    registry: &mut NativeRegistry,
    path: String,
    text: String,
)
    ensures
        final(registry)@ == (RegistryView {
            sources: put(old(registry)@.sources, path@, text@),
            ..old(registry)@
        }),
        string_views(final(pending)@) == pending_after(string_views(old(pending)@), text@),
        !needs_source(final(registry)@, path@),
{
    let mut lexer = Lexer::new(text.as_str());
    let parsed = match lexer.tokenize() {
        Ok(tokens) => {
            let mut parser = Parser::new(tokens);
            parser.parse()
        },
        Err(e) => Err(e),
    };
    match parsed {
        Ok(stmts) => {
            collect_includes(&stmts, pending);
        },
        Err(e) => {},
    }
    proof {
        lemma_put(registry@.sources, path@, text@, path@);
    }
    registry.add_source(path, text);
}

/// The path of the file that holds the source module `path`.
pub fn source_file_path(path: &str) -> (file: String)
    ensures
        file@ == include_file_path(path@),
{
    let chars = chars_of(path);
    let mut file = String::new();
    let mut i: usize = 0;
    while i < chars.len()
        invariant
            i <= chars.len(),
            chars@ == path@,
            file@ == Seq::new(
                i as nat,
                |j: int|
                    if path@[j] == '.' {
                        '/'
                    } else {
                        path@[j]
                    },
            ),
        decreases chars.len() - i,
    {
        let c = chars[i];
        string_push(
            &mut file,
            if c == '.' {
                '/'
            } else {
                c
            },
        );
        i += 1;
        assert(file@ =~= Seq::new(
            i as nat,
            |j: int|
                if path@[j] == '.' {
                    '/'
                } else {
                    path@[j]
                },
        ));
    }
    file.append(".adn");
    file
}

/// The zero of a type.
pub fn zero_value(ty: IrType) -> (v: Value)
    ensures
        v == zero_of(ty),
{
    match ty {
        IrType::F64 => Value::FloatZero,
        IrType::Ptr => Value::Null,
        _ => Value::Int { ty, value: 0 },
    }
}

/// The top level of a source module, as a module of the registry. See `populate`.
pub fn populate_module(ctx: &mut CodeGenContext, stmts: &Vec<Statement>) -> (module: ModuleValue)
    ensures
        final(ctx)@ == populate(
            old(ctx)@,
            statement_views(stmts@),
            0,
            ModuleValueView::empty(),
        ).0,
        module@ == populate(old(ctx)@, statement_views(stmts@), 0, ModuleValueView::empty()).1,
{
    let ghost views = statement_views(stmts@);
    let ghost start = ctx@;
    let mut module = ModuleValue::new();
    let mut i: usize = 0;
    while i < stmts.len()
        invariant
            i <= stmts.len(),
            views == statement_views(stmts@),
            populate(start, views, 0, ModuleValueView::empty()) == populate(
                ctx@,
                views,
                i as int,
                module@,
            ),
        decreases stmts.len() - i,
    {
        assert(views[i as int] == stmts@[i as int]@);
        match &stmts[i] {
            Statement::Function(decl) => {
                proof {
                    lemma_function_view(*decl);
                }
                module.set_function(decl.name.clone(), NativeFunc::AdanFunction(clone_function(decl)));
            },
            Statement::VarDecl { name, var_type, initializer } => {
                let index = ctx.add_global(
                    Global::Variable { name: name.clone(), ty: storage_type(*var_type) },
                );
                module.set_variable(name.clone(), Value::Global(index));
            },
            _ => {},
        }
        i += 1;
    }
    module
}

/// An include. See `include_spec`.
pub fn include_module(ctx: &mut CodeGenContext, path: &String, registry: &NativeRegistry) -> (r: Result<
    (),
    String,
>)
    ensures
        final(ctx)@ == include_spec(old(ctx)@, registry@, path@).ctx,
        seen_unit(r) == include_spec(old(ctx)@, registry@, path@).result,
        workload(final(ctx)@, registry@) <= workload(old(ctx)@, registry@),
{
    proof {
        lemma_include_workload(ctx@, registry@, path@);
    }
    if ctx.has_module(path.as_str()) {
        return Ok(());
    }
    match registry.native(path.as_str()) {
        Some(module) => {
            register_module(ctx, module);
            return Ok(());
        },
        None => {},
    }
    match registry.source(path.as_str()) {
        None => {
            let mut m = String::from_str("Module '");
            m.append(path.as_str());
            m.append("' not found");
            Err(m)
        },
        Some(text) => {
            let mut lexer = Lexer::new(text.as_str());
            let tokens = match lexer.tokenize() {
                Ok(tokens) => tokens,
                Err(e) => {
                    return Err(e);
                },
            };
            let mut parser = Parser::new(tokens);
            match parser.parse() {
                Err(e) => Err(e),
                Ok(stmts) => {
                    let module = populate_module(ctx, &stmts);
                    ctx.set_module(path.clone(), module);
                    Ok(())
                },
            }
        },
    }
}

/// Tests a condition that was lowered. See `test_condition`.
pub fn build_condition(ctx: &mut CodeGenContext, condition: Value) -> (r: Result<Value, String>)
    ensures
        final(ctx)@ == test_condition(old(ctx)@, condition).ctx,
        seen_value(r) == test_condition(old(ctx)@, condition).result,
{
    if condition.kind() == ValueKind::Float {
        ctx.emit_value(
            Instr::Binary { op: BinaryOp::FloatNotEqual, lhs: condition, rhs: Value::FloatZero },
            IrType::Bool,
        )
    } else {
        Err(String::from_str("Condition is not a float"))
    }
}

/// The blocks of a conditional that were made.
pub struct IfBlocks {
    pub then_block: BlockRef,
    pub else_block: Option<BlockRef>,
    pub merge: BlockRef,
}

/// The blocks of a loop that were made.
pub struct WhileBlocks {
    pub cond_block: BlockRef,
    pub body_block: BlockRef,
    pub merge: BlockRef,
}

/// Blocks or a message, as contracts state results.
pub open spec fn seen_if_blocks(r: Result<IfBlocks, String>) -> Result<
    (BlockRef, Option<BlockRef>, BlockRef),
    Seq<char>,
> {
    match r {
        Ok(b) => Ok((b.then_block, b.else_block, b.merge)),
        Err(m) => Err(m@),
    }
}

/// Blocks or a message, as contracts state results.
pub open spec fn seen_while_blocks(r: Result<WhileBlocks, String>) -> Result<
    (BlockRef, BlockRef, BlockRef),
    Seq<char>,
> {
    match r {
        Ok(b) => Ok((b.cond_block, b.body_block, b.merge)),
        Err(m) => Err(m@),
    }
}

/// Makes the blocks of a conditional and enters it. See `open_if`.
pub fn build_if_blocks(ctx: &mut CodeGenContext, test: Value, has_else: bool) -> (r: Result<
    IfBlocks,
    String,
>)
    ensures
        final(ctx)@ == open_if(old(ctx)@, test, has_else).ctx,
        seen_if_blocks(r) == open_if(old(ctx)@, test, has_else).result,
{
    let then_block = match ctx.append_basic_block(BlockLabel::Then) {
        Ok(b) => b,
        Err(e) => {
            return Err(e);
        },
    };
    let else_block = if has_else {
        match ctx.append_basic_block(BlockLabel::Else) {
            Ok(b) => Some(b),
            Err(e) => {
                return Err(e);
            },
        }
    } else {
        None
    };
    let merge = match ctx.append_basic_block(BlockLabel::IfCont) {
        Ok(b) => b,
        Err(e) => {
            return Err(e);
        },
    };
    let target = match else_block {
        Some(b) => b,
        None => merge,
    };
    match ctx.emit(Instr::CondBr { cond: test, then_block, else_block: target }) {
        Ok(_) => {},
        Err(e) => {
            return Err(e);
        },
    }
    ctx.position_at_end(then_block);
    Ok(IfBlocks { then_block, else_block, merge })
}

/// Whether the block under the cursor ends in a terminator.
pub fn is_cursor_terminated(ctx: &CodeGenContext) -> (r: bool)
    ensures
        r == cursor_terminated(ctx@),
{
    match ctx.get_insert_block() {
        Some(at) => {
            let module = ctx.module();
            let f = &module.functions[at.func];
            assert(module@.functions[at.func as int] == f@);
            assert(f@.blocks[at.block as int] == f.blocks@[at.block as int]@);
            f.blocks[at.block].is_terminated()
        },
        None => false,
    }
}

/// Ends a branch or the body of a loop and moves the cursor. See `end_branch`.
pub fn build_branch_end(ctx: &mut CodeGenContext, target: BlockRef, next: BlockRef) -> (r: Result<
    (),
    String,
>)
    ensures
        final(ctx)@ == end_branch(old(ctx)@, target, next).ctx,
        seen_unit(r) == end_branch(old(ctx)@, target, next).result,
{
    if is_cursor_terminated(ctx) {
        ctx.position_at_end(next);
        Ok(())
    } else {
        build_jump(ctx, target, next)
    }
}

/// Jumps and moves the cursor. See `jump_and_move`.
pub fn build_jump(ctx: &mut CodeGenContext, target: BlockRef, next: BlockRef) -> (r: Result<(), String>)
    ensures
        final(ctx)@ == jump_and_move(old(ctx)@, target, next).ctx,
        seen_unit(r) == jump_and_move(old(ctx)@, target, next).result,
{
    match ctx.emit(Instr::Br { target }) {
        Ok(_) => {
            ctx.position_at_end(next);
            Ok(())
        },
        Err(e) => Err(e),
    }
}

/// Makes the blocks of a loop and enters it. See `open_while`.
pub fn build_while_blocks(ctx: &mut CodeGenContext) -> (r: Result<WhileBlocks, String>)
    ensures
        final(ctx)@ == open_while(old(ctx)@).ctx,
        seen_while_blocks(r) == open_while(old(ctx)@).result,
{
    let cond_block = match ctx.append_basic_block(BlockLabel::WhileCond) {
        Ok(b) => b,
        Err(e) => {
            return Err(e);
        },
    };
    let body_block = match ctx.append_basic_block(BlockLabel::WhileBody) {
        Ok(b) => b,
        Err(e) => {
            return Err(e);
        },
    };
    let merge = match ctx.append_basic_block(BlockLabel::WhileCont) {
        Ok(b) => b,
        Err(e) => {
            return Err(e);
        },
    };
    match build_jump(ctx, cond_block, cond_block) {
        Ok(()) => Ok(WhileBlocks { cond_block, body_block, merge }),
        Err(e) => Err(e),
    }
}

/// Branches into the body of a loop or behind it. See `branch_while`.
pub fn build_while_branch(ctx: &mut CodeGenContext, test: Value, body: BlockRef, merge: BlockRef) -> (r:
    Result<(), String>)
    ensures
        final(ctx)@ == branch_while(old(ctx)@, test, body, merge).ctx,
        seen_unit(r) == branch_while(old(ctx)@, test, body, merge).result,
{
    match ctx.emit(Instr::CondBr { cond: test, then_block: body, else_block: merge }) {
        Ok(_) => {
            ctx.position_at_end(body);
            Ok(())
        },
        Err(e) => Err(e),
    }
}

/// Declares a variable whose value is known. See `finish_var_decl`.
pub fn build_var_decl(ctx: &mut CodeGenContext, name: &String, var_type: Option<Types>, value: Value) -> (r:
    Result<(), String>)
    ensures
        final(ctx)@ == finish_var_decl(old(ctx)@, name@, var_type, value).ctx,
        seen_unit(r) == finish_var_decl(old(ctx)@, name@, var_type, value).result,
{
    let slot = match ctx.add_slot(storage_type(var_type), name.clone()) {
        Ok(slot) => slot,
        Err(e) => {
            return Err(e);
        },
    };
    match ctx.emit(Instr::Store { ptr: slot, value }) {
        Ok(_) => {
            ctx.set_variable(name.clone(), slot);
            Ok(())
        },
        Err(e) => Err(e),
    }
}

/// Returns a value. See `finish_return`.
pub fn build_return_value(ctx: &mut CodeGenContext, value: Value) -> (r: Result<(), String>)
    ensures
        final(ctx)@ == finish_return(old(ctx)@, value).ctx,
        seen_unit(r) == finish_return(old(ctx)@, value).result,
{
    match ctx.emit(Instr::Ret { value: Some(value) }) {
        Ok(_) => Ok(()),
        Err(e) => Err(e),
    }
}

/// Binds the parameters of a function. See `bind_params`.
pub fn build_params(ctx: &mut CodeGenContext, func: usize, params: &Vec<String>) -> (r: Result<(), String>)
    ensures
        final(ctx)@ == bind_params(old(ctx)@, func, string_views(params@), 0).ctx,
        seen_unit(r) == bind_params(old(ctx)@, func, string_views(params@), 0).result,
{
    let ghost names = string_views(params@);
    let ghost start = ctx@;
    let mut i: usize = 0;
    while i < params.len()
        invariant
            i <= params.len(),
            names == string_views(params@),
            start == old(ctx)@,
            bind_params(start, func, names, 0) == bind_params(ctx@, func, names, i as int),
        decreases params.len() - i,
    {
        assert(names[i as int] == params@[i as int]@);
        let slot = match ctx.add_slot(IrType::F64, params[i].clone()) {
            Ok(slot) => slot,
            Err(e) => {
                return Err(e);
            },
        };
        match ctx.emit(Instr::Store { ptr: slot, value: Value::Param { func, index: i } }) {
            Ok(_) => {},
            Err(e) => {
                return Err(e);
            },
        }
        ctx.set_variable(params[i].clone(), slot);
        i += 1;
    }
    Ok(())
}

/// Starts a function. See `open_function`.
pub fn build_function_entry(ctx: &mut CodeGenContext, declaration: &FunctionDecl) -> (r: Result<
    usize,
    String,
>)
    ensures
        final(ctx)@ == open_function(old(ctx)@, declaration@).ctx,
        seen_index(r) == open_function(old(ctx)@, declaration@).result,
{
    let mut param_types: Vec<IrType> = Vec::new();
    let mut i: usize = 0;
    while i < declaration.params.len()
        invariant
            i <= declaration.params.len(),
            param_types@ == Seq::new(i as nat, |j: int| IrType::F64),
        decreases declaration.params.len() - i,
    {
        param_types.push(IrType::F64);
        i += 1;
        assert(param_types@ =~= Seq::new(i as nat, |j: int| IrType::F64));
    }
    assert(declaration@.params.len() == declaration.params.len());
    let func = ctx.add_function(declaration.name.clone(), param_types, IrType::F64, false);
    let entry = ctx.append_block_to(func, BlockLabel::Entry);
    ctx.position_at_end(entry);
    match build_params(ctx, func, &declaration.params) {
        Ok(()) => Ok(func),
        Err(e) => Err(e),
    }
}

/// Whether a function passes the structural check.
pub fn is_function_verified(ctx: &CodeGenContext, func: usize) -> (r: bool)
    ensures
        r == function_verified(ctx@, func),
{
    let module = ctx.module();
    if func < module.functions.len() {
        assert(module@.functions[func as int] == module.functions@[func as int]@);
        module.functions[func].verify()
    } else {
        false
    }
}

/// Ends a function. See `close_function`.
pub fn build_function_exit(ctx: &mut CodeGenContext, func: usize) -> (r: Result<usize, String>)
    ensures
        final(ctx)@ == close_function(old(ctx)@, func).ctx,
        seen_index(r) == close_function(old(ctx)@, func).result,
{
    if !is_cursor_terminated(ctx) {
        match build_return_value(ctx, Value::FloatZero) {
            Ok(()) => {},
            Err(e) => {
                return Err(e);
            },
        }
    }
    if is_function_verified(ctx, func) {
        Ok(func)
    } else {
        Err(String::from_str("Function verification failed"))
    }
}

/// Lowers a function into the module and gives its index. See
/// `lower_function_spec`. The cursor is left where the lowering of the
/// function ended.
pub fn codegen_function(ctx: &mut CodeGenContext, declaration: &FunctionDecl, registry: &NativeRegistry) -> (r:
    Result<usize, String>)
    ensures
        final(ctx)@ == lower_function_spec(old(ctx)@, registry@, declaration@).ctx,
        seen_index(r) == lower_function_spec(old(ctx)@, registry@, declaration@).result,
        workload(final(ctx)@, registry@) <= workload(old(ctx)@, registry@),
    decreases workload(old(ctx)@, registry@), 1int, declaration, 0int,
{
    proof {
        lemma_open_function_frame(ctx@, declaration@);
    }
    let func = match build_function_entry(ctx, declaration) {
        Ok(func) => func,
        Err(e) => {
            return Err(e);
        },
    };
    match codegen_statement_list(ctx, &declaration.body, registry) {
        Ok(()) => {},
        Err(e) => {
            return Err(e);
        },
    }
    proof {
        lemma_close_function_frame(ctx@, func);
    }
    build_function_exit(ctx, func)
}

/// Lowers statements in order. See `lower_statements_spec`.
pub fn codegen_statement_list(ctx: &mut CodeGenContext, stmts: &Vec<Statement>, registry: &NativeRegistry) -> (r:
    Result<(), String>)
    ensures
        final(ctx)@ == lower_statements_spec(old(ctx)@, registry@, statement_views(stmts@), 0).ctx,
        seen_unit(r) == lower_statements_spec(
            old(ctx)@,
            registry@,
            statement_views(stmts@),
            0,
        ).result,
        workload(final(ctx)@, registry@) <= workload(old(ctx)@, registry@),
    decreases workload(old(ctx)@, registry@), 1int, stmts, stmts@.len(),
{
    let ghost views = statement_views(stmts@);
    let ghost start = ctx@;
    let mut i: usize = 0;
    while i < stmts.len()
        invariant
            i <= stmts.len(),
            views == statement_views(stmts@),
            start == old(ctx)@,
            workload(ctx@, registry@) <= workload(start, registry@),
            lower_statements_spec(start, registry@, views, 0) == lower_statements_spec(
                ctx@,
                registry@,
                views,
                i as int,
            ),
        decreases stmts.len() - i,
    {
        assert(views[i as int] == stmts@[i as int]@);
        match codegen_statements(ctx, &stmts[i], registry) {
            Ok(()) => {},
            Err(e) => {
                return Err(e);
            },
        }
        i += 1;
    }
    Ok(())
}

/// The branches of a conditional. See `lower_branches_spec`.
fn codegen_branches(
    ctx: &mut CodeGenContext,
    stmt: &Statement,
    else_block: Option<BlockRef>,
    merge: BlockRef,
    registry: &NativeRegistry,
) -> (r: Result<(), String>)
    requires
        stmt is If,
    ensures
        final(ctx)@ == lower_branches_spec(old(ctx)@, registry@, stmt@, else_block, merge).ctx,
        seen_unit(r) == lower_branches_spec(old(ctx)@, registry@, stmt@, else_block, merge).result,
        workload(final(ctx)@, registry@) <= workload(old(ctx)@, registry@),
    decreases workload(old(ctx)@, registry@), 1int, stmt, 1int,
{
    match stmt {
        Statement::If { condition, then_branch, else_branch } => {
            match codegen_statements(ctx, then_branch, registry) {
                Ok(()) => {},
                Err(e) => {
                    return Err(e);
                },
            }
            match (else_branch, else_block) {
                (Some(branch), Some(block)) => {
                    proof {
                        lemma_end_branch_frame(ctx@, merge, block);
                    }
                    match build_branch_end(ctx, merge, block) {
                        Ok(()) => {},
                        Err(e) => {
                            return Err(e);
                        },
                    }
                    match codegen_statements(ctx, branch, registry) {
                        Ok(()) => {},
                        Err(e) => {
                            return Err(e);
                        },
                    }
                    proof {
                        lemma_end_branch_frame(ctx@, merge, merge);
                    }
                    build_branch_end(ctx, merge, merge)
                },
                _ => {
                    proof {
                        lemma_end_branch_frame(ctx@, merge, merge);
                    }
                    build_branch_end(ctx, merge, merge)
                },
            }
        },
        _ => Ok(()),
    }
}

/// A conditional. See `lower_if_spec`.
fn codegen_if(ctx: &mut CodeGenContext, stmt: &Statement, registry: &NativeRegistry) -> (r: Result<
    (),
    String,
>)
    requires
        stmt is If,
    ensures
        final(ctx)@ == lower_if_spec(old(ctx)@, registry@, stmt@).ctx,
        seen_unit(r) == lower_if_spec(old(ctx)@, registry@, stmt@).result,
        workload(final(ctx)@, registry@) <= workload(old(ctx)@, registry@),
    decreases workload(old(ctx)@, registry@), 1int, stmt, 2int,
{
    match stmt {
        Statement::If { condition, then_branch, else_branch } => {
            let c = match codegen_expressions(ctx, condition, registry) {
                Ok(v) => v,
                Err(e) => {
                    return Err(e);
                },
            };
            proof {
                lemma_test_condition_frame(ctx@, c);
            }
            let test = match build_condition(ctx, c) {
                Ok(v) => v,
                Err(e) => {
                    return Err(e);
                },
            };
            proof {
                lemma_open_if_frame(ctx@, test, else_branch is Some);
            }
            let blocks = match build_if_blocks(ctx, test, else_branch.is_some()) {
                Ok(b) => b,
                Err(e) => {
                    return Err(e);
                },
            };
            codegen_branches(ctx, stmt, blocks.else_block, blocks.merge, registry)
        },
        _ => Ok(()),
    }
}

/// A loop. See `lower_while_spec`.
fn codegen_while(ctx: &mut CodeGenContext, stmt: &Statement, registry: &NativeRegistry) -> (r: Result<
    (),
    String,
>)
    requires
        stmt is While,
    ensures
        final(ctx)@ == lower_while_spec(old(ctx)@, registry@, stmt@).ctx,
        seen_unit(r) == lower_while_spec(old(ctx)@, registry@, stmt@).result,
        workload(final(ctx)@, registry@) <= workload(old(ctx)@, registry@),
    decreases workload(old(ctx)@, registry@), 1int, stmt, 2int,
{
    match stmt {
        Statement::While { condition, body } => {
            proof {
                lemma_open_while_frame(ctx@);
            }
            let blocks = match build_while_blocks(ctx) {
                Ok(b) => b,
                Err(e) => {
                    return Err(e);
                },
            };
            let c = match codegen_expressions(ctx, condition, registry) {
                Ok(v) => v,
                Err(e) => {
                    return Err(e);
                },
            };
            proof {
                lemma_test_condition_frame(ctx@, c);
            }
            let test = match build_condition(ctx, c) {
                Ok(v) => v,
                Err(e) => {
                    return Err(e);
                },
            };
            proof {
                lemma_branch_while_frame(ctx@, test, blocks.body_block, blocks.merge);
            }
            match build_while_branch(ctx, test, blocks.body_block, blocks.merge) {
                Ok(()) => {},
                Err(e) => {
                    return Err(e);
                },
            }
            match codegen_statements(ctx, body, registry) {
                Ok(()) => {},
                Err(e) => {
                    return Err(e);
                },
            }
            proof {
                lemma_end_branch_frame(ctx@, blocks.cond_block, blocks.merge);
            }
            build_branch_end(ctx, blocks.cond_block, blocks.merge)
        },
        _ => Ok(()),
    }
}

/// A declaration of a variable: its value is that of the initializer, or
/// the zero of its storage type.
fn codegen_var_decl(ctx: &mut CodeGenContext, stmt: &Statement, registry: &NativeRegistry) -> (r: Result<
    (),
    String,
>)
    requires
        stmt is VarDecl,
    ensures
        final(ctx)@ == lower_statement_spec(old(ctx)@, registry@, stmt@).ctx,
        seen_unit(r) == lower_statement_spec(old(ctx)@, registry@, stmt@).result,
        workload(final(ctx)@, registry@) <= workload(old(ctx)@, registry@),
    decreases workload(old(ctx)@, registry@), 1int, stmt, 2int,
{
    match stmt {
        Statement::VarDecl { name, var_type, initializer } => {
            let value = match initializer {
                Some(e) => match codegen_expressions(ctx, e, registry) {
                    Ok(v) => v,
                    Err(e) => {
                        return Err(e);
                    },
                },
                None => zero_value(storage_type(*var_type)),
            };
            proof {
                lemma_simple_frames(ctx@, LiteralView::Nil, name@, *var_type, value);
            }
            build_var_decl(ctx, name, *var_type, value)
        },
        _ => Ok(()),
    }
}

/// A function that is declared where it stands: it becomes a function of
/// the root module of the registry, so that calls find it, and is lowered
/// at once. The cursor is then put back where it was, so that what follows
/// the declaration goes where what stood before it went.
fn codegen_local_function(ctx: &mut CodeGenContext, stmt: &Statement, registry: &NativeRegistry) -> (r:
    Result<(), String>)
    requires
        stmt is Function,
    ensures
        final(ctx)@ == lower_statement_spec(old(ctx)@, registry@, stmt@).ctx,
        seen_unit(r) == lower_statement_spec(old(ctx)@, registry@, stmt@).result,
        workload(final(ctx)@, registry@) <= workload(old(ctx)@, registry@),
    decreases workload(old(ctx)@, registry@), 1int, stmt, 2int,
{
    match stmt {
        Statement::Function(declaration) => {
            let func = ctx.function_count();
            proof {
                reveal_strlit("");
                assert(""@ =~= Seq::<char>::empty());
                lemma_function_view(*declaration);
                lemma_set_function_workload(
                    ctx@,
                    registry@,
                    Seq::empty(),
                    declaration.name@,
                    NativeFuncView::Lowered(func),
                );
            }
            let saved = ctx.cursor();
            ctx.set_function("", declaration.name.as_str(), NativeFunc::Lowered(func));
            match codegen_function(ctx, declaration, registry) {
                Ok(_) => {
                    ctx.set_cursor(saved);
                    Ok(())
                },
                Err(e) => Err(e),
            }
        },
        _ => Ok(()),
    }
}

/// A return: of the value of its expression, or of the float 0.
fn codegen_return(ctx: &mut CodeGenContext, stmt: &Statement, registry: &NativeRegistry) -> (r: Result<
    (),
    String,
>)
    requires
        stmt is Return,
    ensures
        final(ctx)@ == lower_statement_spec(old(ctx)@, registry@, stmt@).ctx,
        seen_unit(r) == lower_statement_spec(old(ctx)@, registry@, stmt@).result,
        workload(final(ctx)@, registry@) <= workload(old(ctx)@, registry@),
    decreases workload(old(ctx)@, registry@), 1int, stmt, 2int,
{
    match stmt {
        Statement::Return { value } => {
            let v = match value {
                Some(e) => match codegen_expressions(ctx, e, registry) {
                    Ok(v) => v,
                    Err(e) => {
                        return Err(e);
                    },
                },
                None => Value::FloatZero,
            };
            proof {
                lemma_simple_frames(ctx@, LiteralView::Nil, Seq::empty(), None, v);
            }
            build_return_value(ctx, v)
        },
        _ => Ok(()),
    }
}

/// Lowers a statement. See `lower_statement_spec` for what each kind of
/// statement adds to the module, how it moves the cursor, and when it is an
/// error. After an error, what had been emitted stays.
pub fn codegen_statements(ctx: &mut CodeGenContext, stmt: &Statement, registry: &NativeRegistry) -> (r: Result<
    (),
    String,
>)
    ensures
        final(ctx)@ == lower_statement_spec(old(ctx)@, registry@, stmt@).ctx,
        seen_unit(r) == lower_statement_spec(old(ctx)@, registry@, stmt@).result,
        workload(final(ctx)@, registry@) <= workload(old(ctx)@, registry@),
    decreases workload(old(ctx)@, registry@), 1int, stmt, 3int,
{
    match stmt {
        Statement::Expression(expr) => {
            match codegen_expressions(ctx, expr, registry) {
                Ok(_) => Ok(()),
                Err(e) => Err(e),
            }
        },
        Statement::VarDecl { name, var_type, initializer } => codegen_var_decl(ctx, stmt, registry),
        Statement::Block(statements) => {
            proof {
                lemma_block_view(*statements);
            }
            codegen_statement_list(ctx, statements, registry)
        },
        Statement::If { condition, then_branch, else_branch } => codegen_if(ctx, stmt, registry),
        Statement::While { condition, body } => codegen_while(ctx, stmt, registry),
        Statement::Function(declaration) => codegen_local_function(ctx, stmt, registry),
        Statement::Return { value } => codegen_return(ctx, stmt, registry),
        Statement::Include(path) => include_module(ctx, path, registry),
    }
}

} // verus!

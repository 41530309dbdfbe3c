//! How much work a compilation may still be asked to do for declarations
//! from source: the measure by which lowering is known to end, whatever
//! the functions call and the modules include.
use vstd::prelude::*;
use crate::code_gen::builder::{CtxView, ModuleValueView, NativeFuncView, Outcome};
use crate::code_gen::ir::first_named;
use crate::code_gen::registry::RegistryView;
use crate::code_gen::table::{find, keys_of, lemma_find, lemma_put, lookup, put};
use crate::lexer::lexer::tokens_from;
use crate::parser::ast::StatementView;
use crate::parser::grammar::parse_program_spec;

verus! {

/// The declarations of a table of functions that are still to be lowered.
pub open spec fn pending_in(functions: Seq<(Seq<char>, NativeFuncView)>) -> nat
    decreases functions.len(),
{
    if functions.len() == 0 {
        0
    } else {
        pending_in(functions.drop_last()) + (if functions.last().1 is AdanFunction {
            1nat
        } else {
            0nat
        })
    }
}

/// The declarations of a registry that are still to be lowered.
pub open spec fn pending(modules: Seq<(Seq<char>, ModuleValueView)>) -> nat
    decreases modules.len(),
{
    if modules.len() == 0 {
        0
    } else {
        pending(modules.drop_last()) + pending_in(modules.last().1.functions)
    }
}

/// The function declarations among statements, from index `from` on.
pub open spec fn count_functions(stmts: Seq<StatementView>, from: int) -> nat
    decreases stmts.len() - from,
{
    if from < 0 || from >= stmts.len() {
        0
    } else {
        count_functions(stmts, from + 1) + (if stmts[from] is Function {
            1nat
        } else {
            0nat
        })
    }
}

/// The function declarations at the top level of a source text; none
/// where the text has no parse.
pub open spec fn source_functions(text: Seq<char>) -> nat {
    match parse_program_spec(tokens_from(text, 0), 0) {
        Ok(stmts) => count_functions(stmts, 0),
        Err(e) => 0,
    }
}

/// The declarations in the source modules that are not in the registry:
/// what including them would add.
pub open spec fn potential(sources: Seq<(Seq<char>, Seq<char>)>, registered: Seq<Seq<char>>) -> nat
    decreases sources.len(),
{
    if sources.len() == 0 {
        0
    } else {
        potential(sources.drop_last(), registered) + (if first_named(
            registered,
            sources.last().0,
            0,
        ) is None {
            source_functions(sources.last().1)
        } else {
            0nat
        })
    }
}

/// The declarations that a compilation may still have to lower: those of
/// the registry and those of the source modules that may yet be included.
pub open spec fn workload(ctx: CtxView, registry: RegistryView) -> nat {
    work_left(ctx.modules, registry.sources)
}

/// The declarations of a registry that are still to be lowered, and those
/// of the sources that are not in the registry.
#[verifier::opaque]
pub open spec fn work_left(
    modules: Seq<(Seq<char>, ModuleValueView)>,
    sources: Seq<(Seq<char>, Seq<char>)>,
) -> nat {
    pending(modules) + potential(sources, keys_of(modules))
}

/// An outcome is taken with its state only where the state has no more
/// work left than `before` had. Lowering never adds work (see
/// `lemma_lowering_settles`), so this changes no outcome; it is what makes
/// the definition of lowering well founded.
pub open spec fn settled<T>(before: CtxView, registry: RegistryView, out: Outcome<T>) -> Outcome<T> {
    if workload(out.ctx, registry) <= workload(before, registry) {
        out
    } else {
        Outcome { ctx: before, result: out.result }
    }
}

/// What one function of a table counts towards `pending_in`.
pub open spec fn pending_one(func: NativeFuncView) -> nat {
    if func is AdanFunction {
        1
    } else {
        0
    }
}

/// What one source module counts towards `potential`.
pub open spec fn potential_one(source: (Seq<char>, Seq<char>), registered: Seq<Seq<char>>) -> nat {
    if first_named(registered, source.0, 0) is None {
        source_functions(source.1)
    } else {
        0
    }
}

/// A table with one more function has that function's count more pending.
pub proof fn lemma_pending_in_push(
    functions: Seq<(Seq<char>, NativeFuncView)>,
    entry: (Seq<char>, NativeFuncView),
)
    ensures
        pending_in(functions.push(entry)) == pending_in(functions) + pending_one(entry.1),
{
    assert(functions.push(entry).drop_last() =~= functions);
}

/// A table with another function in the place of one has the difference of
/// their counts more pending.
pub proof fn lemma_pending_in_update(
    functions: Seq<(Seq<char>, NativeFuncView)>,
    i: int,
    entry: (Seq<char>, NativeFuncView),
)
    requires
        0 <= i < functions.len(),
    ensures
        pending_in(functions.update(i, entry)) + pending_one(functions[i].1) == pending_in(functions)
            + pending_one(entry.1),
    decreases functions.len(),
{
    let n = functions.len() - 1;
    if i == n {
        assert(functions.update(i, entry).drop_last() =~= functions.drop_last());
    } else {
        assert(functions.update(i, entry).drop_last() =~= functions.drop_last().update(i, entry));
        lemma_pending_in_update(functions.drop_last(), i, entry);
    }
}

/// Putting a function into a table adds at most its own count to what is
/// pending, and takes away the count of the function that it replaces.
pub proof fn lemma_pending_in_put(
    functions: Seq<(Seq<char>, NativeFuncView)>,
    name: Seq<char>,
    func: NativeFuncView,
)
    ensures
        pending_in(put(functions, name, func)) <= pending_in(functions) + pending_one(func),
        lookup(functions, name) matches Some(was) ==> pending_in(put(functions, name, func))
            + pending_one(was) == pending_in(functions) + pending_one(func),
{
    lemma_find(functions, name);
    match find(functions, name) {
        Some(i) => {
            lemma_pending_in_update(functions, i, (name, func));
        },
        None => {
            lemma_pending_in_push(functions, (name, func));
        },
    }
}

/// A registry with one more module has that module's pending declarations more.
pub proof fn lemma_pending_push(
    modules: Seq<(Seq<char>, ModuleValueView)>,
    entry: (Seq<char>, ModuleValueView),
)
    ensures
        pending(modules.push(entry)) == pending(modules) + pending_in(entry.1.functions),
{
    assert(modules.push(entry).drop_last() =~= modules);
}

/// A registry with another module in the place of one has the difference
/// of their pending declarations more.
pub proof fn lemma_pending_update(
    modules: Seq<(Seq<char>, ModuleValueView)>,
    i: int,
    entry: (Seq<char>, ModuleValueView),
)
    requires
        0 <= i < modules.len(),
    ensures
        pending(modules.update(i, entry)) + pending_in(modules[i].1.functions) == pending(modules)
            + pending_in(entry.1.functions),
    decreases modules.len(),
{
    let n = modules.len() - 1;
    if i == n {
        assert(modules.update(i, entry).drop_last() =~= modules.drop_last());
    } else {
        assert(modules.update(i, entry).drop_last() =~= modules.drop_last().update(i, entry));
        lemma_pending_update(modules.drop_last(), i, entry);
    }
}

/// Where more names are registered, less can be added by including: the
/// potential of the sources does not grow, and it shrinks by what a source
/// holds whose path is among the names that are new.
pub proof fn lemma_potential_shrinks(
    sources: Seq<(Seq<char>, Seq<char>)>,
    before: Seq<Seq<char>>,
    after: Seq<Seq<char>>,
    included: int,
)
    requires
        forall|name: Seq<char>|
            first_named(before, name, 0) is Some ==> first_named(after, name, 0) is Some,
    ensures
        potential(sources, after) <= potential(sources, before),
        0 <= included < sources.len() && first_named(before, sources[included].0, 0) is None
            && first_named(after, sources[included].0, 0) is Some ==> potential(sources, after)
            + source_functions(sources[included].1) <= potential(sources, before),
    decreases sources.len(),
{
    if sources.len() > 0 {
        lemma_potential_shrinks(sources.drop_last(), before, after, included);
        assert(sources.drop_last().len() == sources.len() - 1);
        if 0 <= included < sources.len() - 1 {
            assert(sources.drop_last()[included] == sources[included]);
        }
    }
}

/// Where the same names are registered, the potential of the sources is the same.
pub proof fn lemma_potential_same(
    sources: Seq<(Seq<char>, Seq<char>)>,
    before: Seq<Seq<char>>,
    after: Seq<Seq<char>>,
)
    requires
        forall|name: Seq<char>|
            first_named(before, name, 0) is Some <==> first_named(after, name, 0) is Some,
    ensures
        potential(sources, after) == potential(sources, before),
{
    lemma_potential_shrinks(sources, before, after, -1);
    lemma_potential_shrinks(sources, after, before, -1);
}

/// Putting a module into the registry changes the workload by the pending
/// declarations of the module, less those of the module that it replaces,
/// and less what the sources under its name hold where the name is new.
pub proof fn lemma_set_module_workload(
    ctx: CtxView,
    registry: RegistryView,
    name: Seq<char>,
    module: ModuleValueView,
)
    ensures
        match lookup(ctx.modules, name) {
            Some(was) => workload(ctx.set_module(name, module), registry) + pending_in(was.functions)
                == workload(ctx, registry) + pending_in(module.functions),
            None => {
                &&& workload(ctx.set_module(name, module), registry) <= workload(ctx, registry)
                    + pending_in(module.functions)
                &&& lookup(registry.sources, name) matches Some(text) ==> workload(
                    ctx.set_module(name, module),
                    registry,
                ) + source_functions(text) <= workload(ctx, registry) + pending_in(module.functions)
            },
        },
{
    reveal(work_left);
    let after = put(ctx.modules, name, module);
    lemma_find(ctx.modules, name);
    lemma_find(registry.sources, name);
    assert forall|other: Seq<char>|
        first_named(keys_of(ctx.modules), other, 0) is Some implies first_named(
        keys_of(after),
        other,
        0,
    ) is Some by {
        lemma_put(ctx.modules, name, module, other);
    }
    lemma_put(ctx.modules, name, module, name);
    match find(ctx.modules, name) {
        Some(i) => {
            lemma_pending_update(ctx.modules, i, (name, module));
            assert forall|other: Seq<char>|
                first_named(keys_of(ctx.modules), other, 0) is Some <==> first_named(
                    keys_of(after),
                    other,
                    0,
                ) is Some by {
                lemma_put(ctx.modules, name, module, other);
            }
            lemma_potential_same(registry.sources, keys_of(ctx.modules), keys_of(after));
        },
        None => {
            lemma_pending_push(ctx.modules, (name, module));
            match find(registry.sources, name) {
                Some(s) => {
                    lemma_potential_shrinks(
                        registry.sources,
                        keys_of(ctx.modules),
                        keys_of(after),
                        s,
                    );
                },
                None => {
                    lemma_potential_shrinks(
                        registry.sources,
                        keys_of(ctx.modules),
                        keys_of(after),
                        -1,
                    );
                },
            }
        },
    }
}

/// Putting a function that needs no lowering into the registry adds no
/// work, and takes work away where it replaces a declaration that was
/// still to be lowered.
pub proof fn lemma_set_function_workload(
    ctx: CtxView,
    registry: RegistryView,
    module_name: Seq<char>,
    name: Seq<char>,
    func: NativeFuncView,
)
    requires
        !(func is AdanFunction),
    ensures
        workload(ctx.set_function(module_name, name, func), registry) <= workload(ctx, registry),
        ctx.function(module_name, name) matches Some(NativeFuncView::AdanFunction(decl))
            ==> workload(ctx.set_function(module_name, name, func), registry) < workload(
            ctx,
            registry,
        ),
{
    let was = ctx.module_or_empty(module_name);
    let now = was.with_function(name, func);
    lemma_pending_in_put(was.functions, name, func);
    lemma_set_module_workload(ctx, registry, module_name, now);
    assert(pending_in(ModuleValueView::empty().functions) == 0);
}

} // verus!

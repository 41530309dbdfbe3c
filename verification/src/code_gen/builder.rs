//! The state of a compilation: the module that is emitted, the place where
//! the next instruction goes, the variables, and the registry of modules
//! whose functions can be called.
use vstd::prelude::*;
use vstd::string::StringExecFns;
use crate::code_gen::ir::{
    BlockLabel, BlockRef, Global, GlobalView, Instr, InstrView, IrType, Module, ModuleView, Slot,
    SlotView, Value, lemma_adding_keeps,
};
use crate::code_gen::lowering::native_modules_loaded;
use crate::code_gen::registry::native_module_for;
use crate::code_gen::statements::register_module;
use crate::code_gen::table::{find_key, has_key, keys_of, lookup, put, string_keys};
use crate::parser::ast::{FunctionDecl, FunctionDeclView, string_views};

verus! {

/// What a function of the runtime does when a call of it is lowered.
#[derive(Debug, PartialEq, Eq, Structural, Clone, Copy)]
pub enum NativeId {
    /// Prints its argument, a number or a text, and a line feed.
    Printf,
    /// A function of the host that was declared in the emitted module, by
    /// its index there: the call is lowered to a call of it with the
    /// arguments as they are, and has the value that it returns. This is how
    /// a user binds a function of their own runtime.
    Host(usize),
}

/// The modules that the runtime supplies. Each comes with a routine that
/// registers its functions.
#[derive(Debug, PartialEq, Eq, Structural, Clone, Copy)]
pub enum NativeModule {
    Io,
}

/// A function that can be called.
#[derive(Debug)]
pub enum NativeFunc {
    /// A declaration from source that has not been lowered yet.
    AdanFunction(FunctionDecl),
    /// A function of the runtime.
    NativeFn(NativeId),
    /// A function of the emitted module, by its index: a declaration from
    /// source, once it has been lowered.
    Lowered(usize),
}

pub enum NativeFuncView {
    AdanFunction(FunctionDeclView),
    NativeFn(NativeId),
    Lowered(usize),
}

impl View for NativeFunc {
    type V = NativeFuncView;

    open spec fn view(&self) -> NativeFuncView {
        match self {
            NativeFunc::AdanFunction(decl) => NativeFuncView::AdanFunction(decl@),
            NativeFunc::NativeFn(id) => NativeFuncView::NativeFn(*id),
            NativeFunc::Lowered(index) => NativeFuncView::Lowered(*index),
        }
    }
}

/// A module of the registry: functions and variables by name.
#[derive(Debug)]
pub struct ModuleValue {
    pub functions: Vec<(String, NativeFunc)>,
    pub variables: Vec<(String, Value)>,
}

pub struct ModuleValueView {
    pub functions: Seq<(Seq<char>, NativeFuncView)>,
    pub variables: Seq<(Seq<char>, Value)>,
}

/// The view of a table of functions.
pub open spec fn function_table(entries: Seq<(String, NativeFunc)>) -> Seq<
    (Seq<char>, NativeFuncView),
> {
    Seq::new(entries.len(), |i: int| (entries[i].0@, entries[i].1@))
}

/// The view of a table of variables.
pub open spec fn variable_table(entries: Seq<(String, Value)>) -> Seq<(Seq<char>, Value)> {
    Seq::new(entries.len(), |i: int| (entries[i].0@, entries[i].1))
}

/// The view of a table of modules.
pub open spec fn module_table(entries: Seq<(String, ModuleValue)>) -> Seq<
    (Seq<char>, ModuleValueView),
> {
    Seq::new(entries.len(), |i: int| (entries[i].0@, entries[i].1@))
}

impl View for ModuleValue {
    type V = ModuleValueView;

    open spec fn view(&self) -> ModuleValueView {
        ModuleValueView {
            functions: function_table(self.functions@),
            variables: variable_table(self.variables@),
        }
    }
}

impl ModuleValueView {
    /// A module without functions and variables.
    pub open spec fn empty() -> ModuleValueView {
        ModuleValueView { functions: Seq::empty(), variables: Seq::empty() }
    }

    /// The module with `func` under `name`.
    pub open spec fn with_function(self, name: Seq<char>, func: NativeFuncView) -> ModuleValueView {
        ModuleValueView { functions: put(self.functions, name, func), ..self }
    }

    /// The module with `slot` under `name`.
    pub open spec fn with_variable(self, name: Seq<char>, slot: Value) -> ModuleValueView {
        ModuleValueView { variables: put(self.variables, name, slot), ..self }
    }
}

impl ModuleValue {
    /// A module without functions and variables.
    pub fn new() -> (m: ModuleValue)
        ensures
            m@ == ModuleValueView::empty(),
    {
        let m = ModuleValue { functions: Vec::new(), variables: Vec::new() };
        assert(m@.functions =~= Seq::empty());
        assert(m@.variables =~= Seq::empty());
        m
    }

    /// The function under `name`, if there is one.
    pub fn get_function(&self, name: &str) -> (r: Option<&NativeFunc>)
        ensures
            match lookup(self@.functions, name@) {
                Some(f) => r matches Some(x) && x@ == f,
                None => r is None,
            },
    {
        assert(keys_of(self@.functions) =~= string_keys(self.functions@));
        match find_key(&self.functions, name) {
            Some(i) => Some(&self.functions[i].1),
            None => None,
        }
    }

    /// Puts `func` under `name`, in the place of what was there.
    pub fn set_function(&mut self, name: String, func: NativeFunc)
        ensures
            final(self)@ == old(self)@.with_function(name@, func@),
    {
        assert(keys_of(self@.functions) =~= string_keys(self.functions@));
        match find_key(&self.functions, name.as_str()) {
            Some(i) => {
                self.functions[i] = (name, func);
                assert(self@.functions =~= old(self)@.functions.update(i as int, (name@, func@)));
            },
            None => {
                self.functions.push((name, func));
                assert(self@.functions =~= old(self)@.functions.push((name@, func@)));
            },
        }
        assert(self@.variables =~= old(self)@.variables);
    }

    /// Puts `slot` under `name`, in the place of what was there.
    pub fn set_variable(&mut self, name: String, slot: Value)
        ensures
            final(self)@ == old(self)@.with_variable(name@, slot),
    {
        assert(keys_of(self@.variables) =~= string_keys(self.variables@));
        match find_key(&self.variables, name.as_str()) {
            Some(i) => {
                self.variables[i] = (name, slot);
                assert(self@.variables =~= old(self)@.variables.update(i as int, (name@, slot)));
            },
            None => {
                self.variables.push((name, slot));
                assert(self@.variables =~= old(self)@.variables.push((name@, slot)));
            },
        }
        assert(self@.functions =~= old(self)@.functions);
    }
}

/// The state of a compilation, as contracts see it.
pub struct CtxView {
    pub module: ModuleView,
    /// The block that takes the next instruction, once one was chosen.
    pub cursor: Option<BlockRef>,
    pub variables: Seq<(Seq<char>, Value)>,
    pub modules: Seq<(Seq<char>, ModuleValueView)>,
}

/// A state and what an operation gave in it: a value, or the message of an error.
pub struct Outcome<T> {
    pub ctx: CtxView,
    pub result: Result<T, Seq<char>>,
}

pub open spec fn no_insert_block_message() -> Seq<char> {
    "No insert block"@
}

impl CtxView {
    /// The block that takes the next instruction: the cursor, where it is
    /// set and at a block of the module.
    pub open spec fn insert_block(self) -> Option<BlockRef> {
        match self.cursor {
            Some(at) => if self.module.has_block(at) {
                Some(at)
            } else {
                None
            },
            None => None,
        }
    }

    /// Whether the module of the state holds all that the module of
    /// `earlier` holds, where `earlier` holds it (see `ModuleView::keeps`).
    pub open spec fn keeps_emitted(self, earlier: CtxView) -> bool {
        self.module.keeps(earlier.module)
    }

    pub open spec fn ok<T>(self, value: T) -> Outcome<T> {
        Outcome { ctx: self, result: Ok(value) }
    }

    pub open spec fn fail<T>(self, message: Seq<char>) -> Outcome<T> {
        Outcome { ctx: self, result: Err(message) }
    }

    /// The state of a compilation that starts.
    pub open spec fn start(name: Seq<char>) -> CtxView {
        CtxView {
            module: ModuleView {
                name,
                functions: Seq::empty(),
                globals: Seq::empty(),
                constants: Seq::empty(),
            },
            cursor: None,
            variables: Seq::empty(),
            modules: Seq::empty(),
        }
    }

    pub open spec fn with_module(self, module: ModuleView) -> CtxView {
        CtxView { module, ..self }
    }

    pub open spec fn with_cursor(self, cursor: Option<BlockRef>) -> CtxView {
        CtxView { cursor, ..self }
    }

    pub open spec fn with_modules(self, modules: Seq<(Seq<char>, ModuleValueView)>) -> CtxView {
        CtxView { modules, ..self }
    }

    /// The type that was recorded for a place when it was declared: the
    /// type of the slot, where the place is a slot of a function of the
    /// module. Any other place is read as a pointer.
    pub open spec fn recorded_type(self, place: Value) -> IrType {
        match place {
            Value::Slot { func, index } => match self.module.slot_at(func as int, index as int) {
                Some(slot) => slot.ty,
                None => IrType::Ptr,
            },
            _ => IrType::Ptr,
        }
    }

    /// The state with the instruction at the end of the block under the
    /// cursor, and the index of the instruction in that block. It is an
    /// error if there is no such block.
    pub open spec fn emit(self, instr: InstrView) -> Outcome<usize> {
        match self.insert_block() {
            Some(at) => self.with_module(self.module.emit(at, instr)).ok(
                self.module.functions[at.func as int].blocks[at.block as int].instrs.len() as usize,
            ),
            None => self.fail(no_insert_block_message()),
        }
    }

    /// As `emit`, with the value that the instruction gives, of type `ty`.
    pub open spec fn emit_value(self, instr: InstrView, ty: IrType) -> Outcome<Value> {
        match self.insert_block() {
            Some(at) => self.with_module(self.module.emit(at, instr)).ok(
                Value::Result {
                    at,
                    index: self.module.functions[at.func as int].blocks[at.block as int].instrs.len() as usize,
                    ty,
                },
            ),
            None => self.fail(no_insert_block_message()),
        }
    }

    /// The state with one more block in the function under the cursor, and
    /// that block. It is an error if there is no block under the cursor.
    pub open spec fn add_block(self, label: BlockLabel) -> Outcome<BlockRef> {
        match self.insert_block() {
            Some(at) => self.with_module(self.module.add_block(at.func as int, label)).ok(
                BlockRef {
                    func: at.func,
                    block: self.module.functions[at.func as int].blocks.len() as usize,
                },
            ),
            None => self.fail(no_insert_block_message()),
        }
    }

    /// The state with one more slot in the function under the cursor, and
    /// the address of the slot. It is an error if there is no block under
    /// the cursor.
    pub open spec fn add_slot(self, ty: IrType, name: Seq<char>) -> Outcome<Value> {
        match self.insert_block() {
            Some(at) => self.with_module(
                self.module.add_slot(at.func as int, SlotView { ty, name }),
            ).ok(
                Value::Slot {
                    func: at.func,
                    index: self.module.functions[at.func as int].slots.len() as usize,
                },
            ),
            None => self.fail(no_insert_block_message()),
        }
    }

    /// The state with one more function. Its index is the number of
    /// functions that there were.
    pub open spec fn add_function(
        self,
        name: Seq<char>,
        params: Seq<IrType>,
        ret: IrType,
        variadic: bool,
    ) -> CtxView {
        self.with_module(self.module.add_function(name, params, ret, variadic))
    }

    /// The index of the first function called `name`; where there is none,
    /// the state with such a function declared, and its index.
    pub open spec fn declare(
        self,
        name: Seq<char>,
        params: Seq<IrType>,
        ret: IrType,
        variadic: bool,
    ) -> (CtxView, usize) {
        match self.module.find_function(name) {
            Some(i) => (self, i as usize),
            None => (
                self.add_function(name, params, ret, variadic),
                self.module.functions.len() as usize,
            ),
        }
    }

    pub open spec fn add_global(self, global: GlobalView) -> CtxView {
        self.with_module(self.module.add_global(global))
    }

    pub open spec fn add_constant(self, text: Seq<char>) -> CtxView {
        self.with_module(self.module.add_constant(text))
    }

    /// The state with `slot` as the place of the variable `name`.
    pub open spec fn set_variable(self, name: Seq<char>, slot: Value) -> CtxView {
        CtxView { variables: put(self.variables, name, slot), ..self }
    }

    /// The module of the registry called `name`, or an empty one.
    pub open spec fn module_or_empty(self, name: Seq<char>) -> ModuleValueView {
        match lookup(self.modules, name) {
            Some(m) => m,
            None => ModuleValueView::empty(),
        }
    }

    /// The state with `func` under `name` in the module `module_name` of the
    /// registry, which is made if it is not there.
    pub open spec fn set_function(
        self,
        module_name: Seq<char>,
        name: Seq<char>,
        func: NativeFuncView,
    ) -> CtxView {
        self.with_modules(
            put(
                self.modules,
                module_name,
                self.module_or_empty(module_name).with_function(name, func),
            ),
        )
    }

    /// The state with `module` in the registry under `name`.
    pub open spec fn set_module(self, name: Seq<char>, module: ModuleValueView) -> CtxView {
        self.with_modules(put(self.modules, name, module))
    }

    /// The function `name` of the module `module_name` of the registry.
    pub open spec fn function(self, module_name: Seq<char>, name: Seq<char>) -> Option<
        NativeFuncView,
    > {
        match lookup(self.modules, module_name) {
            Some(m) => lookup(m.functions, name),
            None => None,
        }
    }
}

/// Building keeps what was emitted: whatever is added to the module of a
/// state goes behind what is there.
pub proof fn lemma_building_keeps(
    ctx: CtxView,
    instr: InstrView,
    ty: IrType,
    label: BlockLabel,
    name: Seq<char>,
    global: GlobalView,
    params: Seq<IrType>,
    variadic: bool,
)
    ensures
        ctx.keeps_emitted(ctx),
        ctx.emit(instr).ctx.keeps_emitted(ctx),
        ctx.emit_value(instr, ty).ctx.keeps_emitted(ctx),
        ctx.add_block(label).ctx.keeps_emitted(ctx),
        ctx.add_slot(ty, name).ctx.keeps_emitted(ctx),
        ctx.add_function(name, params, ty, variadic).keeps_emitted(ctx),
        ctx.declare(name, params, ty, variadic).0.keeps_emitted(ctx),
        ctx.add_global(global).keeps_emitted(ctx),
        ctx.add_constant(name).keeps_emitted(ctx),
{
    match ctx.insert_block() {
        Some(at) => {
            lemma_adding_keeps(
                ctx.module,
                at,
                instr,
                label,
                SlotView { ty, name },
                global,
                name,
                name,
                params,
                ty,
                variadic,
            );
        },
        None => {
            lemma_adding_keeps(
                ctx.module,
                BlockRef { func: 0, block: 0 },
                instr,
                label,
                SlotView { ty, name },
                global,
                name,
                name,
                params,
                ty,
                variadic,
            );
        },
    }
}

/// The value that an instruction gave names that instruction: the place
/// that the value holds is where the module holds the instruction. (The
/// block is one whose length a machine can hold.)
pub proof fn lemma_value_names_its_instruction(ctx: CtxView, instr: InstrView, ty: IrType)
    requires
        ctx.insert_block() matches Some(at) ==> ctx.module.functions[at.func as int].blocks[at.block as int].instrs.len()
            <= usize::MAX,
    ensures
        ctx.emit_value(instr, ty).result matches Ok(Value::Result { at, index, ty: t }) ==> t == ty
            && ctx.emit_value(instr, ty).ctx.module.instr_at(at, index as int) == Some(instr),
        ctx.emit_value(instr, ty).result is Ok ==> ctx.emit_value(instr, ty).result->Ok_0 is Result,
        ctx.emit_value(instr, ty).result is Ok <==> ctx.insert_block() is Some,
{
}

/// The state of a compilation.
pub struct CodeGenContext {
    module: Module,
    cursor: Option<BlockRef>,
    variables: Vec<(String, Value)>,
    modules: Vec<(String, ModuleValue)>,
}

impl View for CodeGenContext {
    type V = CtxView;

    closed spec fn view(&self) -> CtxView {
        CtxView {
            module: self.module@,
            cursor: self.cursor,
            variables: variable_table(self.variables@),
            modules: module_table(self.modules@),
        }
    }
}

impl CodeGenContext {
    /// The state of a compilation that starts: an empty module called
    /// `name`, no cursor, no variables, an empty registry.
    pub fn new(name: &str) -> (ctx: Self)
        ensures
            ctx@ == CtxView::start(name@),
    {
        let ctx = CodeGenContext {
            module: Module::new(name),
            cursor: None,
            variables: Vec::new(),
            modules: Vec::new(),
        };
        assert(ctx@.variables =~= Seq::empty());
        assert(ctx@.modules =~= Seq::empty());
        ctx
    }

    /// The module that is being emitted.
    pub fn module(&self) -> (m: &Module)
        ensures
            m@ == self@.module,
    {
        &self.module
    }

    /// Where the cursor is.
    pub fn cursor(&self) -> (c: Option<BlockRef>)
        ensures
            c == self@.cursor,
    {
        self.cursor
    }

    /// The block that takes the next instruction, if there is one.
    pub fn get_insert_block(&self) -> (c: Option<BlockRef>)
        ensures
            c == self@.insert_block(),
    {
        match self.cursor {
            Some(at) => if self.module.has_block(at) {
                Some(at)
            } else {
                None
            },
            None => None,
        }
    }

    /// Puts the cursor where it was at some earlier time, or takes it away.
    pub fn set_cursor(&mut self, cursor: Option<BlockRef>)
        ensures
            final(self)@ == old(self)@.with_cursor(cursor),
    {
        self.cursor = cursor;
    }

    /// Puts the cursor at a block.
    pub fn position_at_end(&mut self, at: BlockRef)
        ensures
            final(self)@ == old(self)@.with_cursor(Some(at)),
    {
        self.cursor = Some(at);
    }

    /// The number of functions of the module.
    pub fn function_count(&self) -> (n: usize)
        ensures
            n == self@.module.functions.len(),
    {
        self.module.functions.len()
    }

    /// Adds the instruction at the end of the block under the cursor.
    pub fn emit(&mut self, instr: Instr) -> (r: Result<usize, String>)
        ensures
            final(self)@ == old(self)@.emit(instr@).ctx,
            seen_index(r) == old(self)@.emit(instr@).result,
    {
        match self.get_insert_block() {
            Some(at) => {
                let index = self.module.emit(at, instr);
                Ok(index)
            },
            None => Err(String::from_str("No insert block")),
        }
    }

    /// Adds the instruction at the end of the block under the cursor and
    /// gives the value that it computes, of type `ty`.
    pub fn emit_value(&mut self, instr: Instr, ty: IrType) -> (r: Result<Value, String>)
        ensures
            final(self)@ == old(self)@.emit_value(instr@, ty).ctx,
            seen_value(r) == old(self)@.emit_value(instr@, ty).result,
    {
        match self.get_insert_block() {
            Some(at) => {
                let index = self.module.emit(at, instr);
                Ok(Value::Result { at, index, ty })
            },
            None => Err(String::from_str("No insert block")),
        }
    }

    /// Adds a block at the end of the function under the cursor.
    pub fn append_basic_block(&mut self, label: BlockLabel) -> (r: Result<BlockRef, String>)
        ensures
            final(self)@ == old(self)@.add_block(label).ctx,
            seen_block(r) == old(self)@.add_block(label).result,
    {
        match self.get_insert_block() {
            Some(at) => {
                let block = self.module.add_block(at.func, label);
                Ok(BlockRef { func: at.func, block })
            },
            None => Err(String::from_str("No insert block")),
        }
    }

    /// Adds a block at the end of a function of the module.
    pub fn append_block_to(&mut self, func: usize, label: BlockLabel) -> (at: BlockRef)
        requires
            func < old(self)@.module.functions.len(),
        ensures
            final(self)@ == old(self)@.with_module(old(self)@.module.add_block(func as int, label)),
            at == (BlockRef {
                func,
                block: old(self)@.module.functions[func as int].blocks.len() as usize,
            }),
    {
        let block = self.module.add_block(func, label);
        BlockRef { func, block }
    }

    /// Adds a slot to the function under the cursor and gives its address.
    pub fn add_slot(&mut self, ty: IrType, name: String) -> (r: Result<Value, String>)
        ensures
            final(self)@ == old(self)@.add_slot(ty, name@).ctx,
            seen_value(r) == old(self)@.add_slot(ty, name@).result,
    {
        match self.get_insert_block() {
            Some(at) => {
                let index = self.module.add_slot(at.func, Slot { ty, name });
                Ok(Value::Slot { func: at.func, index })
            },
            None => Err(String::from_str("No insert block")),
        }
    }

    /// Adds a function without slots and blocks, and gives its index.
    pub fn add_function(&mut self, name: String, params: Vec<IrType>, ret: IrType, variadic: bool) -> (index:
        usize)
        ensures
            final(self)@ == old(self)@.add_function(name@, params@, ret, variadic),
            index == old(self)@.module.functions.len(),
    {
        self.module.add_function(name, params, ret, variadic)
    }

    /// The first function called `name`. Where there is none, one is
    /// declared with the given signature.
    pub fn declare(&mut self, name: &str, params: Vec<IrType>, ret: IrType, variadic: bool) -> (index:
        usize)
        ensures
            final(self)@ == old(self)@.declare(name@, params@, ret, variadic).0,
            index == old(self)@.declare(name@, params@, ret, variadic).1,
            index < final(self)@.module.functions.len(),
    {
        match self.module.find_function(name) {
            Some(i) => i,
            None => self.module.add_function(String::from_str(name), params, ret, variadic),
        }
    }

    /// The type that was recorded for a place when it was declared.
    pub fn recorded_type(&self, place: Value) -> (ty: IrType)
        ensures
            ty == self@.recorded_type(place),
    {
        match place {
            Value::Slot { func, index } => {
                if func < self.module.functions.len() {
                    let f = &self.module.functions[func];
                    assert(self@.module.functions[func as int] == f@);
                    if index < f.slots.len() {
                        assert(f@.slots[index as int] == f.slots@[index as int]@);
                        f.slots[index].ty
                    } else {
                        IrType::Ptr
                    }
                } else {
                    IrType::Ptr
                }
            },
            _ => IrType::Ptr,
        }
    }

    /// The type of what a function of the module returns.
    pub fn function_ret(&self, func: usize) -> (ty: IrType)
        requires
            func < self@.module.functions.len(),
        ensures
            ty == self@.module.functions[func as int].ret,
    {
        self.module.functions[func].ret
    }

    /// Adds a global, and gives its index.
    pub fn add_global(&mut self, global: Global) -> (index: usize)
        ensures
            final(self)@ == old(self)@.add_global(global@),
            index == old(self)@.module.globals.len(),
    {
        self.module.add_global(global)
    }

    /// Adds the text of a float constant, and gives its index.
    pub fn add_constant(&mut self, text: String) -> (index: usize)
        ensures
            final(self)@ == old(self)@.add_constant(text@),
            index == old(self)@.module.constants.len(),
    {
        self.module.add_constant(text)
    }

    /// The place of the variable `name`, if it was declared.
    pub fn variable(&self, name: &str) -> (r: Option<Value>)
        ensures
            r == lookup(self@.variables, name@),
    {
        assert(keys_of(self@.variables) =~= string_keys(self.variables@));
        match find_key(&self.variables, name) {
            Some(i) => Some(self.variables[i].1),
            None => None,
        }
    }

    /// Makes `slot` the place of the variable `name`. The last writer wins.
    pub fn set_variable(&mut self, name: String, slot: Value)
        ensures
            final(self)@ == old(self)@.set_variable(name@, slot),
    {
        assert(keys_of(self@.variables) =~= string_keys(self.variables@));
        match find_key(&self.variables, name.as_str()) {
            Some(i) => {
                self.variables[i] = (name, slot);
                assert(self@.variables =~= old(self)@.variables.update(i as int, (name@, slot)));
            },
            None => {
                self.variables.push((name, slot));
                assert(self@.variables =~= old(self)@.variables.push((name@, slot)));
            },
        }
        assert(self@.modules =~= old(self)@.modules);
    }

    /// Whether the registry has a module called `name`.
    pub fn has_module(&self, name: &str) -> (r: bool)
        ensures
            r == has_key(self@.modules, name@),
    {
        assert(keys_of(self@.modules) =~= string_keys(self.modules@));
        find_key(&self.modules, name).is_some()
    }

    /// The module of the registry called `name`, if there is one.
    pub fn get_module(&self, name: &str) -> (r: Option<&ModuleValue>)
        ensures
            match lookup(self@.modules, name@) {
                Some(m) => r matches Some(x) && x@ == m,
                None => r is None,
            },
    {
        assert(keys_of(self@.modules) =~= string_keys(self.modules@));
        match find_key(&self.modules, name) {
            Some(i) => Some(&self.modules[i].1),
            None => None,
        }
    }

    /// Puts `module` into the registry under `name`, in the place of what
    /// was there.
    pub fn set_module(&mut self, name: String, module: ModuleValue)
        ensures
            final(self)@ == old(self)@.set_module(name@, module@),
    {
        assert(keys_of(self@.modules) =~= string_keys(self.modules@));
        match find_key(&self.modules, name.as_str()) {
            Some(i) => {
                self.modules[i] = (name, module);
                assert(self@.modules =~= old(self)@.modules.update(i as int, (name@, module@)));
            },
            None => {
                self.modules.push((name, module));
                assert(self@.modules =~= old(self)@.modules.push((name@, module@)));
            },
        }
        assert(self@.variables =~= old(self)@.variables);
    }

    /// Puts `func` under `name` into the module `module_name` of the
    /// registry, which is made if it is not there.
    pub fn set_function(&mut self, module_name: &str, name: &str, func: NativeFunc)
        ensures
            final(self)@ == old(self)@.set_function(module_name@, name@, func@),
    {
        assert(keys_of(self@.modules) =~= string_keys(self.modules@));
        match find_key(&self.modules, module_name) {
            Some(i) => {
                self.modules[i].1.set_function(String::from_str(name), func);
                assert(self@.modules =~= old(self)@.modules.update(
                    i as int,
                    (module_name@, old(self)@.modules[i as int].1.with_function(name@, func@)),
                ));
            },
            None => {
                let mut module = ModuleValue::new();
                module.set_function(String::from_str(name), func);
                self.modules.push((String::from_str(module_name), module));
                assert(self@.modules =~= old(self)@.modules.push((module_name@, module@)));
            },
        }
        assert(self@.variables =~= old(self)@.variables);
    }

    /// Adds a slot for a float to the function under the cursor, and gives
    /// its address.
    pub fn build_alloca(&mut self, name: &str) -> (r: Result<Value, String>)
        ensures
            final(self)@ == old(self)@.add_slot(IrType::F64, name@).ctx,
            seen_value(r) == old(self)@.add_slot(IrType::F64, name@).result,
    {
        self.add_slot(IrType::F64, String::from_str(name))
    }

    /// Adds a return at the end of the block under the cursor: of `value`,
    /// or of nothing.
    pub fn build_return(&mut self, value: Option<Value>) -> (r: Result<(), String>)
        ensures
            final(self)@ == old(self)@.emit(InstrView::Ret { value }).ctx,
            match old(self)@.emit(InstrView::Ret { value }).result {
                Ok(i) => r is Ok,
                Err(e) => r matches Err(m) && m@ == e,
            },
    {
        match self.emit(Instr::Ret { value }) {
            Ok(_) => Ok(()),
            Err(e) => Err(e),
        }
    }

    /// Registers the modules of the runtime whose files are among
    /// `file_names`, the names of the files of the runtime's directory.
    pub fn load_native_modules(&mut self, file_names: &Vec<String>)
        ensures
            final(self)@ == native_modules_loaded(old(self)@, string_views(file_names@), 0),
    {
        let ghost names = string_views(file_names@);
        let ghost start = self@;
        let mut i: usize = 0;
        while i < file_names.len()
            invariant
                i <= file_names.len(),
                names == string_views(file_names@),
                native_modules_loaded(start, names, 0) == native_modules_loaded(
                    self@,
                    names,
                    i as int,
                ),
            decreases file_names.len() - i,
        {
            assert(names[i as int] == file_names@[i as int]@);
            match native_module_for(file_names[i].as_str()) {
                Some((name, module)) => {
                    register_module(self, module);
                },
                None => {},
            }
            i += 1;
        }
    }

    /// Binds a function of the host: declares `symbol` with the given
    /// signature in the emitted module, unless a function of that name is
    /// there, and registers it under `fn_name` in the module `module_name`.
    /// It gives the index of the declared function.
    pub fn register_host_fn(
        &mut self,
        module_name: &str,
        fn_name: &str,
        symbol: &str,
        params: Vec<IrType>,
        ret: IrType,
        variadic: bool,
    ) -> (index: usize)
        ensures
            index == old(self)@.declare(symbol@, params@, ret, variadic).1,
            final(self)@ == old(self)@.declare(symbol@, params@, ret, variadic).0.set_function(
                module_name@,
                fn_name@,
                NativeFuncView::NativeFn(NativeId::Host(index)),
            ),
    {
        let index = self.declare(symbol, params, ret, variadic);
        self.register_native_fn(module_name, fn_name, NativeId::Host(index));
        index
    }

    /// Registers a function of the runtime under `fn_name` in the module
    /// `module_name`. Neither the number nor the kinds of the arguments that
    /// calls will pass are checked here.
    pub fn register_native_fn(&mut self, module_name: &str, fn_name: &str, func: NativeId)
        ensures
            final(self)@ == old(self)@.set_function(
                module_name@,
                fn_name@,
                NativeFuncView::NativeFn(func),
            ),
    {
        self.set_function(module_name, fn_name, NativeFunc::NativeFn(func));
    }
}

/// An index or a message, as contracts state results.
pub open spec fn seen_index(r: Result<usize, String>) -> Result<usize, Seq<char>> {
    match r {
        Ok(i) => Ok(i),
        Err(m) => Err(m@),
    }
}

/// A value or a message, as contracts state results.
pub open spec fn seen_value(r: Result<Value, String>) -> Result<Value, Seq<char>> {
    match r {
        Ok(v) => Ok(v),
        Err(m) => Err(m@),
    }
}

/// A block or a message, as contracts state results.
pub open spec fn seen_block(r: Result<BlockRef, String>) -> Result<BlockRef, Seq<char>> {
    match r {
        Ok(b) => Ok(b),
        Err(m) => Err(m@),
    }
}

/// Nothing or a message, as contracts state results.
pub open spec fn seen_unit(r: Result<(), String>) -> Result<(), Seq<char>> {
    match r {
        Ok(u) => Ok(()),
        Err(m) => Err(m@),
    }
}

} // verus!

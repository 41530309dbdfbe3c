//! The intermediate form: a module of functions, each a list of basic blocks
//! that hold instructions over typed values.
use vstd::prelude::*;
use vstd::string::StringExecFns;
use crate::parser::ast::string_views;
use crate::text::str_eq;

verus! {

/// The types of values.
#[derive(Debug, PartialEq, Eq, Structural, Clone, Copy)]
pub enum IrType {
    /// One bit.
    Bool,
    /// A signed integer of 32 bits.
    I32,
    /// A signed integer of 64 bits.
    I64,
    /// A float of 64 bits.
    F64,
    /// An untyped pointer.
    Ptr,
}

/// What operators ask of a value: whether it is a float, an integer or a pointer.
#[derive(Debug, PartialEq, Eq, Structural, Clone, Copy)]
pub enum ValueKind {
    Float,
    Int,
    Pointer,
}

/// A basic block of a function, by the indices of both.
#[derive(Debug, PartialEq, Eq, Structural, Clone, Copy)]
pub struct BlockRef {
    pub func: usize,
    pub block: usize,
}

/// A value that instructions take and give.
#[derive(Debug, PartialEq, Eq, Structural, Clone, Copy)]
pub enum Value {
    /// The float 0.
    FloatZero,
    /// A float constant; its decimal text is this entry of the module's constants.
    Float(usize),
    /// An integer constant.
    Int { ty: IrType, value: u64 },
    /// The null pointer.
    Null,
    /// The address of this global of the module.
    Global(usize),
    /// The address of this storage slot of this function.
    Slot { func: usize, index: usize },
    /// This parameter of this function.
    Param { func: usize, index: usize },
    /// What this instruction of this block gave.
    Result { at: BlockRef, index: usize, ty: IrType },
}

#[derive(Debug, PartialEq, Eq, Structural, Clone, Copy)]
pub enum UnaryOp {
    /// Flips the sign of a float.
    FNeg,
    /// Inverts the bits of an integer.
    Not,
}

#[derive(Debug, PartialEq, Eq, Structural, Clone, Copy)]
pub enum BinaryOp {
    FAdd,
    FSub,
    FMul,
    FDiv,
    Add,
    Sub,
    Mul,
    /// Signed division.
    SDiv,
    /// Signed remainder.
    SRem,
    /// Whether two floats are ordered and differ.
    FloatNotEqual,
    /// Whether two integers are equal.
    IntEqual,
}

/// What a basic block was made for.
#[derive(Debug, PartialEq, Eq, Structural, Clone, Copy)]
pub enum BlockLabel {
    Entry,
    Then,
    Else,
    IfCont,
    WhileCond,
    WhileBody,
    WhileCont,
}

#[allow(inconsistent_fields)]
#[derive(Debug)]
pub enum Instr {
    Store { ptr: Value, value: Value },
    Load { ty: IrType, ptr: Value },
    Unary { op: UnaryOp, operand: Value },
    Binary { op: BinaryOp, lhs: Value, rhs: Value },
    /// Reinterprets a value as one of another type.
    Cast { value: Value, ty: IrType },
    /// Calls a function of the module, by its index.
    Call { callee: usize, args: Vec<Value> },
    Br { target: BlockRef },
    CondBr { cond: Value, then_block: BlockRef, else_block: BlockRef },
    /// Returns from the function, with a value or without one.
    Ret { value: Option<Value> },
}

#[allow(inconsistent_fields)]
pub enum InstrView {
    Store { ptr: Value, value: Value },
    Load { ty: IrType, ptr: Value },
    Unary { op: UnaryOp, operand: Value },
    Binary { op: BinaryOp, lhs: Value, rhs: Value },
    Cast { value: Value, ty: IrType },
    Call { callee: usize, args: Seq<Value> },
    Br { target: BlockRef },
    CondBr { cond: Value, then_block: BlockRef, else_block: BlockRef },
    Ret { value: Option<Value> },
}

impl View for Instr {
    type V = InstrView;

    open spec fn view(&self) -> InstrView {
        match self {
            Instr::Store { ptr, value } => InstrView::Store { ptr: *ptr, value: *value },
            Instr::Load { ty, ptr } => InstrView::Load { ty: *ty, ptr: *ptr },
            Instr::Unary { op, operand } => InstrView::Unary { op: *op, operand: *operand },
            Instr::Binary { op, lhs, rhs } => InstrView::Binary { op: *op, lhs: *lhs, rhs: *rhs },
            Instr::Cast { value, ty } => InstrView::Cast { value: *value, ty: *ty },
            Instr::Call { callee, args } => InstrView::Call { callee: *callee, args: args@ },
            Instr::Br { target } => InstrView::Br { target: *target },
            Instr::CondBr { cond, then_block, else_block } => InstrView::CondBr {
                cond: *cond,
                then_block: *then_block,
                else_block: *else_block,
            },
            Instr::Ret { value } => InstrView::Ret { value: *value },
        }
    }
}

impl InstrView {
    /// Whether the instruction ends a basic block.
    pub open spec fn is_terminator(self) -> bool {
        self is Br || self is CondBr || self is Ret
    }
}

/// A basic block: instructions in a row, the last of which is to be a terminator.
#[derive(Debug)]
pub struct Block {
    pub label: BlockLabel,
    pub instrs: Vec<Instr>,
}

pub struct BlockView {
    pub label: BlockLabel,
    pub instrs: Seq<InstrView>,
}

/// The views of a sequence of instructions, in order.
pub open spec fn instr_views(instrs: Seq<Instr>) -> Seq<InstrView> {
    Seq::new(instrs.len(), |i: int| instrs[i]@)
}

impl View for Block {
    type V = BlockView;

    open spec fn view(&self) -> BlockView {
        BlockView { label: self.label, instrs: instr_views(self.instrs@) }
    }
}

impl BlockView {
    /// Whether the last instruction is a terminator.
    pub open spec fn is_terminated(self) -> bool {
        self.instrs.len() > 0 && self.instrs.last().is_terminator()
    }

    /// Whether the block is as a finished block has to be: its last
    /// instruction is a terminator and no other is.
    pub open spec fn is_well_formed(self) -> bool {
        &&& self.is_terminated()
        &&& forall|i: int| 0 <= i < self.instrs.len() - 1 ==> !(#[trigger] self.instrs[i]).is_terminator()
    }
}

/// A storage slot: a place in a function's frame that can be written and read.
#[derive(Debug)]
pub struct Slot {
    pub ty: IrType,
    pub name: String,
}

pub struct SlotView {
    pub ty: IrType,
    pub name: Seq<char>,
}

impl View for Slot {
    type V = SlotView;

    open spec fn view(&self) -> SlotView {
        SlotView { ty: self.ty, name: self.name@ }
    }
}

/// A function. One without blocks is only declared: its body is elsewhere.
#[derive(Debug)]
pub struct Function {
    pub name: String,
    pub params: Vec<IrType>,
    pub ret: IrType,
    /// Whether further arguments may follow the declared ones.
    pub variadic: bool,
    pub slots: Vec<Slot>,
    pub blocks: Vec<Block>,
}

pub struct FunctionView {
    pub name: Seq<char>,
    pub params: Seq<IrType>,
    pub ret: IrType,
    pub variadic: bool,
    pub slots: Seq<SlotView>,
    pub blocks: Seq<BlockView>,
}

/// The views of a sequence of slots, in order.
pub open spec fn slot_views(slots: Seq<Slot>) -> Seq<SlotView> {
    Seq::new(slots.len(), |i: int| slots[i]@)
}

/// The views of a sequence of blocks, in order.
pub open spec fn block_views(blocks: Seq<Block>) -> Seq<BlockView> {
    Seq::new(blocks.len(), |i: int| blocks[i]@)
}

impl View for Function {
    type V = FunctionView;

    open spec fn view(&self) -> FunctionView {
        FunctionView {
            name: self.name@,
            params: self.params@,
            ret: self.ret,
            variadic: self.variadic,
            slots: slot_views(self.slots@),
            blocks: block_views(self.blocks@),
        }
    }
}

impl FunctionView {
    /// Whether every block of the function is well formed.
    pub open spec fn is_well_formed(self) -> bool {
        forall|b: int| 0 <= b < self.blocks.len() ==> (#[trigger] self.blocks[b]).is_well_formed()
    }
}

/// A global of a module.
#[derive(Debug)]
pub enum Global {
    /// A constant text: its bytes, followed by a zero byte.
    Text { name: String, text: String },
    /// A variable, which starts as the zero of its type.
    Variable { name: String, ty: IrType },
}

pub enum GlobalView {
    Text { name: Seq<char>, text: Seq<char> },
    Variable { name: Seq<char>, ty: IrType },
}

impl View for Global {
    type V = GlobalView;

    open spec fn view(&self) -> GlobalView {
        match self {
            Global::Text { name, text } => GlobalView::Text { name: name@, text: text@ },
            Global::Variable { name, ty } => GlobalView::Variable { name: name@, ty: *ty },
        }
    }
}

/// The unit of emission: functions, globals and the texts of float constants.
#[derive(Debug)]
pub struct Module {
    pub name: String,
    pub functions: Vec<Function>,
    pub globals: Vec<Global>,
    /// The decimal texts of the float constants.
    pub constants: Vec<String>,
}

pub struct ModuleView {
    pub name: Seq<char>,
    pub functions: Seq<FunctionView>,
    pub globals: Seq<GlobalView>,
    pub constants: Seq<Seq<char>>,
}

/// The views of a sequence of functions, in order.
pub open spec fn function_views(functions: Seq<Function>) -> Seq<FunctionView> {
    Seq::new(functions.len(), |i: int| functions[i]@)
}

/// The views of a sequence of globals, in order.
pub open spec fn global_views(globals: Seq<Global>) -> Seq<GlobalView> {
    Seq::new(globals.len(), |i: int| globals[i]@)
}

impl View for Module {
    type V = ModuleView;

    open spec fn view(&self) -> ModuleView {
        ModuleView {
            name: self.name@,
            functions: function_views(self.functions@),
            globals: global_views(self.globals@),
            constants: string_views(self.constants@),
        }
    }
}

/// The first index from `from` on at which `names` holds `name`.
pub open spec fn first_named(names: Seq<Seq<char>>, name: Seq<char>, from: int) -> Option<int>
    decreases names.len() - from,
{
    if from < 0 || from >= names.len() {
        None
    } else if names[from] == name {
        Some(from)
    } else {
        first_named(names, name, from + 1)
    }
}

/// What `first_named` finds is within the sequence, holds the name, and is
/// the first to do so; where it finds nothing, nothing is there.
pub proof fn lemma_first_named(names: Seq<Seq<char>>, name: Seq<char>, from: int)
    requires
        0 <= from,
    ensures
        match first_named(names, name, from) {
            Some(i) => from <= i < names.len() && names[i] == name && forall|j: int|
                from <= j < i ==> names[j] != name,
            None => forall|j: int| from <= j < names.len() ==> names[j] != name,
        },
    decreases names.len() - from,
{
    if from < names.len() && names[from] != name {
        lemma_first_named(names, name, from + 1);
    }
}

impl ModuleView {
    /// Whether `at` is a block of the module.
    pub open spec fn has_block(self, at: BlockRef) -> bool {
        at.func < self.functions.len() && at.block < self.functions[at.func as int].blocks.len()
    }

    /// Whether `func` is a function of the module.
    pub open spec fn has_function(self, func: usize) -> bool {
        func < self.functions.len()
    }

    /// The instruction at a place of the module, if there is one.
    pub open spec fn instr_at(self, at: BlockRef, index: int) -> Option<InstrView> {
        if self.has_block(at) && 0 <= index
            < self.functions[at.func as int].blocks[at.block as int].instrs.len() {
            Some(self.functions[at.func as int].blocks[at.block as int].instrs[index])
        } else {
            None
        }
    }

    /// What a block of the module was made for, if there is such a block.
    pub open spec fn label_at(self, at: BlockRef) -> Option<BlockLabel> {
        if self.has_block(at) {
            Some(self.functions[at.func as int].blocks[at.block as int].label)
        } else {
            None
        }
    }

    /// A slot of a function of the module, if there is one.
    pub open spec fn slot_at(self, func: int, index: int) -> Option<SlotView> {
        if 0 <= func < self.functions.len() && 0 <= index < self.functions[func].slots.len() {
            Some(self.functions[func].slots[index])
        } else {
            None
        }
    }

    /// The name and the signature of a function of the module, if there is one.
    pub open spec fn signature_at(self, func: int) -> Option<(Seq<char>, Seq<IrType>, IrType, bool)> {
        if 0 <= func < self.functions.len() {
            Some(
                (
                    self.functions[func].name,
                    self.functions[func].params,
                    self.functions[func].ret,
                    self.functions[func].variadic,
                ),
            )
        } else {
            None
        }
    }

    /// A global of the module, if there is one.
    pub open spec fn global_at(self, index: int) -> Option<GlobalView> {
        if 0 <= index < self.globals.len() {
            Some(self.globals[index])
        } else {
            None
        }
    }

    /// The text of a float constant of the module, if there is one.
    pub open spec fn constant_at(self, index: int) -> Option<Seq<char>> {
        if 0 <= index < self.constants.len() {
            Some(self.constants[index])
        } else {
            None
        }
    }

    /// Whether the module holds all that `earlier` holds, where `earlier`
    /// holds it: each function with its signature, each slot, each block
    /// with its label, each instruction, each global and each constant. A
    /// value that names one of them in `earlier` names the same in `self`.
    pub open spec fn keeps(self, earlier: ModuleView) -> bool {
        &&& self.name == earlier.name
        &&& forall|at: BlockRef, index: int| #[trigger]
            earlier.instr_at(at, index) is Some ==> self.instr_at(at, index) == earlier.instr_at(
                at,
                index,
            )
        &&& forall|at: BlockRef| #[trigger]
            earlier.label_at(at) is Some ==> self.label_at(at) == earlier.label_at(at)
        &&& forall|func: int, index: int| #[trigger]
            earlier.slot_at(func, index) is Some ==> self.slot_at(func, index) == earlier.slot_at(
                func,
                index,
            )
        &&& forall|func: int| #[trigger]
            earlier.signature_at(func) is Some ==> self.signature_at(func) == earlier.signature_at(
                func,
            )
        &&& forall|index: int| #[trigger]
            earlier.global_at(index) is Some ==> self.global_at(index) == earlier.global_at(index)
        &&& forall|index: int| #[trigger]
            earlier.constant_at(index) is Some ==> self.constant_at(index) == earlier.constant_at(
                index,
            )
    }

    /// The names of the functions, in order.
    pub open spec fn function_names(self) -> Seq<Seq<char>> {
        Seq::new(self.functions.len(), |i: int| self.functions[i].name)
    }

    /// The first function of the given name.
    pub open spec fn find_function(self, name: Seq<char>) -> Option<int> {
        first_named(self.function_names(), name, 0)
    }

    /// The module with one more function, which has no slots and no blocks.
    pub open spec fn add_function(
        self,
        name: Seq<char>,
        params: Seq<IrType>,
        ret: IrType,
        variadic: bool,
    ) -> ModuleView {
        ModuleView {
            functions: self.functions.push(
                FunctionView {
                    name,
                    params,
                    ret,
                    variadic,
                    slots: Seq::empty(),
                    blocks: Seq::empty(),
                },
            ),
            ..self
        }
    }

    /// The module with one more block, which is empty, at the end of a function.
    pub open spec fn add_block(self, func: int, label: BlockLabel) -> ModuleView {
        let f = self.functions[func];
        ModuleView {
            functions: self.functions.update(
                func,
                FunctionView { blocks: f.blocks.push(BlockView { label, instrs: Seq::empty() }), ..f },
            ),
            ..self
        }
    }

    /// The module with one more slot in a function.
    pub open spec fn add_slot(self, func: int, slot: SlotView) -> ModuleView {
        let f = self.functions[func];
        ModuleView {
            functions: self.functions.update(func, FunctionView { slots: f.slots.push(slot), ..f }),
            ..self
        }
    }

    /// The module with one more instruction at the end of a block.
    pub open spec fn emit(self, at: BlockRef, instr: InstrView) -> ModuleView {
        let f = self.functions[at.func as int];
        let b = f.blocks[at.block as int];
        ModuleView {
            functions: self.functions.update(
                at.func as int,
                FunctionView {
                    blocks: f.blocks.update(
                        at.block as int,
                        BlockView { instrs: b.instrs.push(instr), ..b },
                    ),
                    ..f
                },
            ),
            ..self
        }
    }

    /// The module with one more global.
    pub open spec fn add_global(self, global: GlobalView) -> ModuleView {
        ModuleView { globals: self.globals.push(global), ..self }
    }

    /// The module with one more float constant.
    pub open spec fn add_constant(self, text: Seq<char>) -> ModuleView {
        ModuleView { constants: self.constants.push(text), ..self }
    }
}

/// Adding to a module keeps what it holds: a new function, block, slot,
/// instruction, global or constant goes behind those that are there.
pub proof fn lemma_adding_keeps(
    m: ModuleView,
    at: BlockRef,
    instr: InstrView,
    label: BlockLabel,
    slot: SlotView,
    global: GlobalView,
    text: Seq<char>,
    name: Seq<char>,
    params: Seq<IrType>,
    ret: IrType,
    variadic: bool,
)
    ensures
        m.keeps(m),
        m.has_block(at) ==> m.emit(at, instr).keeps(m),
        m.has_function(at.func) ==> m.add_block(at.func as int, label).keeps(m),
        m.has_function(at.func) ==> m.add_slot(at.func as int, slot).keeps(m),
        m.add_function(name, params, ret, variadic).keeps(m),
        m.add_global(global).keeps(m),
        m.add_constant(text).keeps(m),
{
}

impl IrType {
    pub open spec fn kind_spec(self) -> ValueKind {
        match self {
            IrType::F64 => ValueKind::Float,
            IrType::Ptr => ValueKind::Pointer,
            _ => ValueKind::Int,
        }
    }

    /// Whether values of the type are floats, integers or pointers.
    pub fn kind(self) -> (k: ValueKind)
        ensures
            k == self.kind_spec(),
    {
        match self {
            IrType::F64 => ValueKind::Float,
            IrType::Ptr => ValueKind::Pointer,
            _ => ValueKind::Int,
        }
    }
}

impl Value {
    /// The type of the value. Addresses are pointers; parameters are floats.
    pub open spec fn ty_spec(self) -> IrType {
        match self {
            Value::FloatZero => IrType::F64,
            Value::Float(_) => IrType::F64,
            Value::Int { ty, value } => ty,
            Value::Null => IrType::Ptr,
            Value::Global(_) => IrType::Ptr,
            Value::Slot { func, index } => IrType::Ptr,
            Value::Param { func, index } => IrType::F64,
            Value::Result { at, index, ty } => ty,
        }
    }

    pub open spec fn kind_spec(self) -> ValueKind {
        self.ty_spec().kind_spec()
    }

    /// The type of the value.
    pub fn ty(self) -> (t: IrType)
        ensures
            t == self.ty_spec(),
    {
        match self {
            Value::FloatZero => IrType::F64,
            Value::Float(_) => IrType::F64,
            Value::Int { ty, value } => ty,
            Value::Null => IrType::Ptr,
            Value::Global(_) => IrType::Ptr,
            Value::Slot { func, index } => IrType::Ptr,
            Value::Param { func, index } => IrType::F64,
            Value::Result { at, index, ty } => ty,
        }
    }

    /// Whether the value is a float, an integer or a pointer.
    pub fn kind(self) -> (k: ValueKind)
        ensures
            k == self.kind_spec(),
    {
        self.ty().kind()
    }
}

impl BinaryOp {
    /// The type of what the operator gives for operands of type `operand`.
    pub open spec fn result_type_spec(self, operand: IrType) -> IrType {
        match self {
            BinaryOp::FloatNotEqual => IrType::Bool,
            BinaryOp::IntEqual => IrType::Bool,
            _ => operand,
        }
    }

    /// The type of what the operator gives for operands of type `operand`.
    pub fn result_type(self, operand: IrType) -> (t: IrType)
        ensures
            t == self.result_type_spec(operand),
    {
        match self {
            BinaryOp::FloatNotEqual => IrType::Bool,
            BinaryOp::IntEqual => IrType::Bool,
            _ => operand,
        }
    }
}

impl Instr {
    /// Whether the instruction ends a basic block.
    pub fn is_terminator(&self) -> (r: bool)
        ensures
            r == self@.is_terminator(),
    {
        match self {
            Instr::Br { .. } => true,
            Instr::CondBr { .. } => true,
            Instr::Ret { .. } => true,
            _ => false,
        }
    }
}

impl Block {
    /// Whether the last instruction is a terminator.
    pub fn is_terminated(&self) -> (r: bool)
        ensures
            r == self@.is_terminated(),
    {
        let n = self.instrs.len();
        if n == 0 {
            false
        } else {
            assert(self@.instrs.last() == self.instrs@[n - 1]@);
            self.instrs[n - 1].is_terminator()
        }
    }

    /// Whether the last instruction is a terminator and no other is.
    pub fn is_well_formed(&self) -> (r: bool)
        ensures
            r == self@.is_well_formed(),
    {
        if !self.is_terminated() {
            return false;
        }
        let n = self.instrs.len();
        let mut i: usize = 0;
        while i < n - 1
            invariant
                n == self.instrs.len(),
                n > 0,
                i <= n - 1,
                forall|j: int| 0 <= j < i ==> !(#[trigger] self@.instrs[j]).is_terminator(),
            decreases n - i,
        {
            if self.instrs[i].is_terminator() {
                assert(self@.instrs[i as int] == self.instrs@[i as int]@);
                return false;
            }
            assert(self@.instrs[i as int] == self.instrs@[i as int]@);
            i += 1;
        }
        true
    }
}

impl Function {
    /// Whether every block is well formed: the structural check that a
    /// finished function has to pass.
    pub fn verify(&self) -> (r: bool)
        ensures
            r == self@.is_well_formed(),
    {
        let mut b: usize = 0;
        while b < self.blocks.len()
            invariant
                b <= self.blocks.len(),
                forall|j: int| 0 <= j < b ==> (#[trigger] self@.blocks[j]).is_well_formed(),
            decreases self.blocks.len() - b,
        {
            assert(self@.blocks[b as int] == self.blocks@[b as int]@);
            if !self.blocks[b].is_well_formed() {
                return false;
            }
            b += 1;
        }
        true
    }
}

impl Module {
    /// An empty module.
    pub fn new(name: &str) -> (m: Module)
        ensures
            m@ == (ModuleView {
                name: name@,
                functions: Seq::empty(),
                globals: Seq::empty(),
                constants: Seq::empty(),
            }),
    {
        let m = Module {
            name: String::from_str(name),
            functions: Vec::new(),
            globals: Vec::new(),
            constants: Vec::new(),
        };
        assert(m@.functions =~= Seq::empty());
        assert(m@.globals =~= Seq::empty());
        assert(m@.constants =~= Seq::empty());
        m
    }

    /// The first function of the given name, if there is one.
    pub fn find_function(&self, name: &str) -> (r: Option<usize>)
        ensures
            r matches Some(i) ==> i < self@.functions.len() && self@.find_function(name@) == Some(
                i as int,
            ),
            r is None ==> self@.find_function(name@) is None,
    {
        let ghost names = self@.function_names();
        let mut i: usize = 0;
        while i < self.functions.len()
            invariant
                i <= self.functions.len(),
                names == self@.function_names(),
                first_named(names, name@, 0) == first_named(names, name@, i as int),
            decreases self.functions.len() - i,
        {
            assert(names[i as int] == self.functions@[i as int].name@);
            if str_eq(self.functions[i].name.as_str(), name) {
                return Some(i);
            }
            i += 1;
        }
        None
    }

    /// Whether `at` is a block of the module.
    pub fn has_block(&self, at: BlockRef) -> (r: bool)
        ensures
            r == self@.has_block(at),
    {
        at.func < self.functions.len() && at.block < self.functions[at.func].blocks.len()
    }

    /// Adds a function without slots and blocks, and gives its index.
    pub fn add_function(&mut self, name: String, params: Vec<IrType>, ret: IrType, variadic: bool) -> (index:
        usize)
        ensures
            final(self)@ == old(self)@.add_function(name@, params@, ret, variadic),
            index == old(self)@.functions.len(),
    {
        let index = self.functions.len();
        let f = Function { name, params, ret, variadic, slots: Vec::new(), blocks: Vec::new() };
        assert(f@.slots =~= Seq::empty());
        assert(f@.blocks =~= Seq::empty());
        self.functions.push(f);
        assert(self@.functions =~= old(self)@.functions.push(f@));
        index
    }

    /// Adds an empty block at the end of a function, and gives its index.
    pub fn add_block(&mut self, func: usize, label: BlockLabel) -> (index: usize)
        requires
            func < old(self)@.functions.len(),
        ensures
            final(self)@ == old(self)@.add_block(func as int, label),
            index == old(self)@.functions[func as int].blocks.len(),
    {
        let index = self.functions[func].blocks.len();
        let b = Block { label, instrs: Vec::new() };
        assert(b@.instrs =~= Seq::empty());
        self.functions[func].blocks.push(b);
        proof {
            let f0 = old(self)@.functions[func as int];
            assert(self.functions@[func as int]@.blocks =~= f0.blocks.push(b@));
            assert(self.functions@[func as int]@.slots =~= f0.slots);
            assert(self@.functions =~= old(self)@.add_block(func as int, label).functions);
        }
        index
    }

    /// Adds a slot to a function, and gives its index.
    pub fn add_slot(&mut self, func: usize, slot: Slot) -> (index: usize)
        requires
            func < old(self)@.functions.len(),
        ensures
            final(self)@ == old(self)@.add_slot(func as int, slot@),
            index == old(self)@.functions[func as int].slots.len(),
    {
        let index = self.functions[func].slots.len();
        self.functions[func].slots.push(slot);
        proof {
            let f0 = old(self)@.functions[func as int];
            assert(self.functions@[func as int]@.slots =~= f0.slots.push(slot@));
            assert(self.functions@[func as int]@.blocks =~= f0.blocks);
            assert(self@.functions =~= old(self)@.add_slot(func as int, slot@).functions);
        }
        index
    }

    /// Adds an instruction at the end of a block, and gives its index.
    pub fn emit(&mut self, at: BlockRef, instr: Instr) -> (index: usize)
        requires
            old(self)@.has_block(at),
        ensures
            final(self)@ == old(self)@.emit(at, instr@),
            index == old(self)@.functions[at.func as int].blocks[at.block as int].instrs.len(),
    {
        let index = self.functions[at.func].blocks[at.block].instrs.len();
        self.functions[at.func].blocks[at.block].instrs.push(instr);
        proof {
            let f0 = old(self)@.functions[at.func as int];
            let b0 = f0.blocks[at.block as int];
            let f1 = self.functions@[at.func as int]@;
            assert(self.functions@[at.func as int].blocks@[at.block as int]@.instrs
                =~= b0.instrs.push(instr@));
            assert(f1.blocks =~= f0.blocks.update(
                at.block as int,
                BlockView { instrs: b0.instrs.push(instr@), ..b0 },
            ));
            assert(f1.slots =~= f0.slots);
            assert(self@.functions =~= old(self)@.emit(at, instr@).functions);
        }
        index
    }

    /// Adds a global, and gives its index.
    pub fn add_global(&mut self, global: Global) -> (index: usize)
        ensures
            final(self)@ == old(self)@.add_global(global@),
            index == old(self)@.globals.len(),
    {
        let index = self.globals.len();
        self.globals.push(global);
        assert(self@.globals =~= old(self)@.globals.push(global@));
        assert(self@.functions =~= old(self)@.functions);
        assert(self@.constants =~= old(self)@.constants);
        index
    }

    /// Adds the text of a float constant, and gives its index.
    pub fn add_constant(&mut self, text: String) -> (index: usize)
        ensures
            final(self)@ == old(self)@.add_constant(text@),
            index == old(self)@.constants.len(),
    {
        let index = self.constants.len();
        self.constants.push(text);
        assert(self@.constants =~= old(self)@.constants.push(text@));
        assert(self@.functions =~= old(self)@.functions);
        assert(self@.globals =~= old(self)@.globals);
        index
    }
}

} // verus!

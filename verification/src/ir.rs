//! The structured intermediate representation this stage emits: types,
//! literal operands, instructions, containers and processes.

use vstd::prelude::*;

verus! {

/// An IR type.
#[derive(Clone, Copy, PartialEq, Eq, Structural, Debug)]
pub enum IrType {
    /// The empty type: no representable value.
    Void,
    /// A two's-complement integer of the given bit width.
    Int { width: usize },
    /// An enumerated type with the given number of distinct values.
    Enum { cardinality: usize },
}

/// An IR literal operand.
#[derive(Clone, Copy, PartialEq, Eq, Structural, Debug)]
pub enum IrValue {
    /// An integer literal carrying its type width. A width of zero is the
    /// placeholder for the value of the null type.
    ConstInt { width: usize, value: i128 },
}

/// The payload of one instruction.
#[derive(PartialEq, Eq, Debug)]
pub enum InstKind {
    /// A signal with its type and initial value.
    Signal { ty: IrType, init: IrValue },
    /// An instantiation of a process registered in the module-wide store,
    /// referenced by its handle, with its actual input and output operands.
    /// Both lists stay empty in this stage.
    Instance { unit: usize, inputs: Vec<IrValue>, outputs: Vec<IrValue> },
}

/// One instruction, optionally named.
#[derive(PartialEq, Eq, Debug)]
pub struct Inst {
    pub name: Option<String>,
    pub kind: InstKind,
}

/// The position at which an instruction is inserted into a container.
/// This stage only ever appends at the end of the list.
#[derive(Clone, Copy, PartialEq, Eq, Structural, Debug)]
pub enum InstPosition {
    End,
}

/// A container (an entity or block-like scope): a name and the ordered
/// sequence of its instructions. The name derives default names for nested
/// constructs.
#[derive(PartialEq, Eq, Debug)]
pub struct Entity {
    pub name: String,
    pub insts: Vec<Inst>,
}

/// A process: a unit of behaviour owned by the module-wide store. Its
/// interface stays empty in this stage.
#[derive(PartialEq, Eq, Debug)]
pub struct Process {
    pub name: String,
}

/// The module-wide process store: append-only during lowering. A handle
/// into it is the index at which a process was registered.
#[derive(PartialEq, Eq, Debug)]
pub struct Module {
    pub procs: Vec<Process>,
}

/// The mathematical shadow of an instruction's payload.
#[verifier::ext_equal]
pub ghost enum InstKindView {
    Signal { ty: IrType, init: IrValue },
    Instance { unit: int, inputs: Seq<IrValue>, outputs: Seq<IrValue> },
}

/// The mathematical shadow of an instruction: its name as a character
/// sequence and its payload.
#[verifier::ext_equal]
pub ghost struct InstView {
    pub name: Option<Seq<char>>,
    pub kind: InstKindView,
}

/// The name of an optionally named construct, as a character sequence.
pub open spec fn opt_name_view(o: Option<String>) -> Option<Seq<char>> {
    match o {
        Some(s) => Some(s@),
        None => None,
    }
}

impl View for Inst {
    type V = InstView;

    open spec fn view(&self) -> InstView {
        InstView {
            name: opt_name_view(self.name),
            kind: match self.kind {
                InstKind::Signal { ty, init } => InstKindView::Signal { ty, init },
                InstKind::Instance { unit, inputs, outputs } => InstKindView::Instance {
                    unit: unit as int,
                    inputs: inputs@,
                    outputs: outputs@,
                },
            },
        }
    }
}

/// The instructions of a container, as their mathematical shadows, in order.
pub open spec fn insts_view(s: Seq<Inst>) -> Seq<InstView> {
    s.map_values(|i: Inst| i@)
}

/// The names of the registered processes, in registration order.
pub open spec fn proc_names(m: Module) -> Seq<Seq<char>> {
    m.procs@.map_values(|p: Process| p.name@)
}

/// Appending an instruction appends its shadow.
pub proof fn lemma_insts_view_push(s: Seq<Inst>, i: Inst)
    ensures
        insts_view(s.push(i)) =~= insts_view(s).push(i@),
{
}

/// Registering a process appends its name.
pub proof fn lemma_proc_names_push(m1: Module, m2: Module, p: Process)
    requires
        m2.procs@ == m1.procs@.push(p),
    ensures
        proc_names(m2) =~= proc_names(m1).push(p.name@),
{
}

impl Entity {
    /// A fresh container with the given name and no instructions.
    pub fn new(name: String) -> (e: Entity)
        ensures
            e.name == name,
            e.insts@ =~= Seq::<Inst>::empty(),
    {
        Entity { name, insts: Vec::new() }
    }

    /// Appends an instruction at the requested position; the only position
    /// this stage uses is the end of the list.
    pub fn add_inst(&mut self, inst: Inst, pos: InstPosition)
        ensures
            final(self).name == old(self).name,
            final(self).insts@ == old(self).insts@.push(inst),
    {
        let _ = pos;
        self.insts.push(inst);
    }
}

impl Module {
    /// A fresh module with no processes.
    pub fn new() -> (m: Module)
        ensures
            m.procs@ =~= Seq::<Process>::empty(),
    {
        Module { procs: Vec::new() }
    }

    /// Registers a process and returns the opaque handle that instructions
    /// use to reference it: its index in the store.
    pub fn add_process(&mut self, p: Process) -> (handle: usize)
        ensures
            final(self).procs@ == old(self).procs@.push(p),
            handle == old(self).procs@.len(),
    {
        let handle = self.procs.len();
        self.procs.push(p);
        handle
    }
}

} // verus!

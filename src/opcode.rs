use vstd::prelude::*;

use crate::hashed::Hashed;
use crate::instr_arg::{
    ArgPopsStack, ArgPopsStack1, ArgPopsStackMaybe1, ArgPushesStack, BcInstrArg, FrozenRef, InstrDefData,
    lemma_space_first, spaced,
};
use crate::small_map::SmallMap;
use crate::values::{
    ArgsCompiledValueBc, BcAddr, BcAddrOffset, FrozenStringValue, FrozenValue, FrozenValueTyped,
    LocalSlotId, ModuleSlotId, Span, Symbol,
};

verus! {

/// The tag of an instruction: which operation it performs.
#[derive(Clone, Copy, Debug, PartialEq, Eq, Structural)]
pub enum BcOpcode {
    Const,
    ConstStr,
    ConstOpt,
    ConstU32,
    ListOfConsts,
    SetOfConsts,
    DictOfConsts,
    LoadLocal,
    LoadLocal2,
    StoreLocal,
    LoadModule,
    StoreModule,
    LoadNamed,
    ListNew,
    Unpack,
    Br,
    IfNotBr,
    Goto,
    CallFrozen,
    CallMethod,
    DiscardMaybe,
    Return,
    Profile,
    EndOfBc,
    Nop,
    LoadFrozenRef,
    Def,
}

impl BcOpcode {
    /// The name of the opcode.
    pub open spec fn name_text(self) -> Seq<char> {
        match self {
            BcOpcode::Const => "Const"@,
            BcOpcode::ConstStr => "ConstStr"@,
            BcOpcode::ConstOpt => "ConstOpt"@,
            BcOpcode::ConstU32 => "ConstU32"@,
            BcOpcode::ListOfConsts => "ListOfConsts"@,
            BcOpcode::SetOfConsts => "SetOfConsts"@,
            BcOpcode::DictOfConsts => "DictOfConsts"@,
            BcOpcode::LoadLocal => "LoadLocal"@,
            BcOpcode::LoadLocal2 => "LoadLocal2"@,
            BcOpcode::StoreLocal => "StoreLocal"@,
            BcOpcode::LoadModule => "LoadModule"@,
            BcOpcode::StoreModule => "StoreModule"@,
            BcOpcode::LoadNamed => "LoadNamed"@,
            BcOpcode::ListNew => "ListNew"@,
            BcOpcode::Unpack => "Unpack"@,
            BcOpcode::Br => "Br"@,
            BcOpcode::IfNotBr => "IfNotBr"@,
            BcOpcode::Goto => "Goto"@,
            BcOpcode::CallFrozen => "CallFrozen"@,
            BcOpcode::CallMethod => "CallMethod"@,
            BcOpcode::DiscardMaybe => "DiscardMaybe"@,
            BcOpcode::Return => "Return"@,
            BcOpcode::Profile => "Profile"@,
            BcOpcode::EndOfBc => "EndOfBc"@,
            BcOpcode::Nop => "Nop"@,
            BcOpcode::LoadFrozenRef => "LoadFrozenRef"@,
            BcOpcode::Def => "Def"@,
        }
    }

    /// The name of the opcode.
    pub fn name(self) -> (r: &'static str)
        ensures
            r@ == self.name_text(),
    {
        match self {
            BcOpcode::Const => "Const",
            BcOpcode::ConstStr => "ConstStr",
            BcOpcode::ConstOpt => "ConstOpt",
            BcOpcode::ConstU32 => "ConstU32",
            BcOpcode::ListOfConsts => "ListOfConsts",
            BcOpcode::SetOfConsts => "SetOfConsts",
            BcOpcode::DictOfConsts => "DictOfConsts",
            BcOpcode::LoadLocal => "LoadLocal",
            BcOpcode::LoadLocal2 => "LoadLocal2",
            BcOpcode::StoreLocal => "StoreLocal",
            BcOpcode::LoadModule => "LoadModule",
            BcOpcode::StoreModule => "StoreModule",
            BcOpcode::LoadNamed => "LoadNamed",
            BcOpcode::ListNew => "ListNew",
            BcOpcode::Unpack => "Unpack",
            BcOpcode::Br => "Br",
            BcOpcode::IfNotBr => "IfNotBr",
            BcOpcode::Goto => "Goto",
            BcOpcode::CallFrozen => "CallFrozen",
            BcOpcode::CallMethod => "CallMethod",
            BcOpcode::DiscardMaybe => "DiscardMaybe",
            BcOpcode::Return => "Return",
            BcOpcode::Profile => "Profile",
            BcOpcode::EndOfBc => "EndOfBc",
            BcOpcode::Nop => "Nop",
            BcOpcode::LoadFrozenRef => "LoadFrozenRef",
            BcOpcode::Def => "Def",
        }
    }

    /// Append the argument of an instruction of this opcode, as a listing shows it:
    /// the instruction's own argument type says how.
    pub fn fmt_append_arg(self, instr: &BcInstr, f: &mut String)
        requires
            instr.opcode_spec() == self,
        ensures
            final(f)@ == old(f)@ + instr.arg_render(),
            spaced(instr.arg_render()),
    {
        proof {
            instr.lemma_arg_spaced();
        }
        match instr {
            BcInstr::Const(arg) => BcInstrArg::fmt_append(arg, f),
            BcInstr::ConstStr(arg) => BcInstrArg::fmt_append(arg, f),
            BcInstr::ConstOpt(arg) => BcInstrArg::fmt_append(arg, f),
            BcInstr::ConstU32(arg) => BcInstrArg::fmt_append(arg, f),
            BcInstr::ListOfConsts(arg) => BcInstrArg::fmt_append(arg, f),
            BcInstr::SetOfConsts(arg) => BcInstrArg::fmt_append(arg, f),
            BcInstr::DictOfConsts(arg) => BcInstrArg::fmt_append(arg, f),
            BcInstr::LoadLocal(arg) => BcInstrArg::fmt_append(arg, f),
            BcInstr::LoadLocal2(arg) => BcInstrArg::fmt_append(arg, f),
            BcInstr::StoreLocal(arg) => BcInstrArg::fmt_append(arg, f),
            BcInstr::LoadModule(arg) => BcInstrArg::fmt_append(arg, f),
            BcInstr::StoreModule(arg) => BcInstrArg::fmt_append(arg, f),
            BcInstr::LoadNamed(arg) => BcInstrArg::fmt_append(arg, f),
            BcInstr::ListNew(arg) => BcInstrArg::fmt_append(arg, f),
            BcInstr::Unpack(arg) => BcInstrArg::fmt_append(arg, f),
            BcInstr::Br(arg) => BcInstrArg::fmt_append(arg, f),
            BcInstr::IfNotBr(arg) => BcInstrArg::fmt_append(arg, f),
            BcInstr::Goto(arg) => BcInstrArg::fmt_append(arg, f),
            BcInstr::CallFrozen(arg) => BcInstrArg::fmt_append(arg, f),
            BcInstr::CallMethod(arg) => BcInstrArg::fmt_append(arg, f),
            BcInstr::DiscardMaybe(arg) => BcInstrArg::fmt_append(arg, f),
            BcInstr::Return(arg) => BcInstrArg::fmt_append(arg, f),
            BcInstr::Profile(arg) => BcInstrArg::fmt_append(arg, f),
            BcInstr::EndOfBc(arg) => BcInstrArg::fmt_append(arg, f),
            BcInstr::Nop(arg) => BcInstrArg::fmt_append(arg, f),
            BcInstr::LoadFrozenRef(arg) => BcInstrArg::fmt_append(arg, f),
            BcInstr::Def(arg) => BcInstrArg::fmt_append(arg, f),
        }
    }
}

/// An opcode as an argument shows its name.
impl BcInstrArg for BcOpcode {
    open spec fn render(&self) -> Seq<char> {
        " "@ + self.name_text()
    }

    open spec fn pops(&self) -> nat {
        0
    }

    open spec fn pushes(&self) -> nat {
        0
    }

    proof fn lemma_render_spaced(param: &Self) {
        reveal_strlit(" ");
        lemma_space_first(" "@, param.name_text());
    }

    fn fmt_append(param: &Self, f: &mut String) {
        f.append(" ");
        f.append(param.name());
        proof {
            assert(final(f)@ =~= old(f)@ + param.render());
        }
    }

    fn pops_stack(param: &Self) -> (r: u32) {
        0
    }

    fn pushes_stack(param: &Self) -> (r: u32) {
        0
    }
}

/// A decoded instruction: its opcode, with the argument of the type that the opcode takes.
#[derive(Debug)]
pub enum BcInstr {
    Const(FrozenValue),
    ConstStr(FrozenStringValue),
    ConstOpt(Option<FrozenValue>),
    ConstU32(u32),
    ListOfConsts(Vec<FrozenValue>),
    SetOfConsts(Vec<Hashed<FrozenValue>>),
    DictOfConsts(SmallMap<FrozenValue, FrozenValue>),
    LoadLocal(LocalSlotId),
    LoadLocal2([LocalSlotId; 2]),
    StoreLocal((LocalSlotId, ArgPopsStack1)),
    LoadModule(ModuleSlotId),
    StoreModule((ModuleSlotId, ArgPopsStack1)),
    LoadNamed(String),
    ListNew(ArgPopsStack),
    Unpack((ArgPopsStack1, ArgPushesStack)),
    Br(BcAddrOffset),
    IfNotBr((BcAddrOffset, ArgPopsStack1)),
    Goto(BcAddr),
    CallFrozen((FrozenValueTyped, ArgsCompiledValueBc, Span)),
    CallMethod((Symbol, ArgsCompiledValueBc, Span)),
    DiscardMaybe(ArgPopsStackMaybe1),
    Return(ArgPopsStack1),
    Profile(BcOpcode),
    EndOfBc(Vec<(BcAddr, Span)>),
    Nop(()),
    LoadFrozenRef(FrozenRef),
    Def(InstrDefData),
}

impl BcInstr {
    /// The opcode of the instruction.
    pub open spec fn opcode_spec(&self) -> BcOpcode {
        match self {
            BcInstr::Const(_) => BcOpcode::Const,
            BcInstr::ConstStr(_) => BcOpcode::ConstStr,
            BcInstr::ConstOpt(_) => BcOpcode::ConstOpt,
            BcInstr::ConstU32(_) => BcOpcode::ConstU32,
            BcInstr::ListOfConsts(_) => BcOpcode::ListOfConsts,
            BcInstr::SetOfConsts(_) => BcOpcode::SetOfConsts,
            BcInstr::DictOfConsts(_) => BcOpcode::DictOfConsts,
            BcInstr::LoadLocal(_) => BcOpcode::LoadLocal,
            BcInstr::LoadLocal2(_) => BcOpcode::LoadLocal2,
            BcInstr::StoreLocal(_) => BcOpcode::StoreLocal,
            BcInstr::LoadModule(_) => BcOpcode::LoadModule,
            BcInstr::StoreModule(_) => BcOpcode::StoreModule,
            BcInstr::LoadNamed(_) => BcOpcode::LoadNamed,
            BcInstr::ListNew(_) => BcOpcode::ListNew,
            BcInstr::Unpack(_) => BcOpcode::Unpack,
            BcInstr::Br(_) => BcOpcode::Br,
            BcInstr::IfNotBr(_) => BcOpcode::IfNotBr,
            BcInstr::Goto(_) => BcOpcode::Goto,
            BcInstr::CallFrozen(_) => BcOpcode::CallFrozen,
            BcInstr::CallMethod(_) => BcOpcode::CallMethod,
            BcInstr::DiscardMaybe(_) => BcOpcode::DiscardMaybe,
            BcInstr::Return(_) => BcOpcode::Return,
            BcInstr::Profile(_) => BcOpcode::Profile,
            BcInstr::EndOfBc(_) => BcOpcode::EndOfBc,
            BcInstr::Nop(_) => BcOpcode::Nop,
            BcInstr::LoadFrozenRef(_) => BcOpcode::LoadFrozenRef,
            BcInstr::Def(_) => BcOpcode::Def,
        }
    }

    /// What a listing shows of the argument.
    pub open spec fn arg_render(&self) -> Seq<char> {
        match self {
            BcInstr::Const(arg) => arg.render(),
            BcInstr::ConstStr(arg) => arg.render(),
            BcInstr::ConstOpt(arg) => arg.render(),
            BcInstr::ConstU32(arg) => arg.render(),
            BcInstr::ListOfConsts(arg) => arg.render(),
            BcInstr::SetOfConsts(arg) => arg.render(),
            BcInstr::DictOfConsts(arg) => arg.render(),
            BcInstr::LoadLocal(arg) => arg.render(),
            BcInstr::LoadLocal2(arg) => arg.render(),
            BcInstr::StoreLocal(arg) => arg.render(),
            BcInstr::LoadModule(arg) => arg.render(),
            BcInstr::StoreModule(arg) => arg.render(),
            BcInstr::LoadNamed(arg) => arg.render(),
            BcInstr::ListNew(arg) => arg.render(),
            BcInstr::Unpack(arg) => arg.render(),
            BcInstr::Br(arg) => arg.render(),
            BcInstr::IfNotBr(arg) => arg.render(),
            BcInstr::Goto(arg) => arg.render(),
            BcInstr::CallFrozen(arg) => arg.render(),
            BcInstr::CallMethod(arg) => arg.render(),
            BcInstr::DiscardMaybe(arg) => arg.render(),
            BcInstr::Return(arg) => arg.render(),
            BcInstr::Profile(arg) => arg.render(),
            BcInstr::EndOfBc(arg) => arg.render(),
            BcInstr::Nop(arg) => arg.render(),
            BcInstr::LoadFrozenRef(arg) => arg.render(),
            BcInstr::Def(arg) => arg.render(),
        }
    }

    /// How many stack elements the instruction pops beyond what its operands say.
    pub open spec fn arg_pops(&self) -> nat {
        match self {
            BcInstr::Const(arg) => arg.pops(),
            BcInstr::ConstStr(arg) => arg.pops(),
            BcInstr::ConstOpt(arg) => arg.pops(),
            BcInstr::ConstU32(arg) => arg.pops(),
            BcInstr::ListOfConsts(arg) => arg.pops(),
            BcInstr::SetOfConsts(arg) => arg.pops(),
            BcInstr::DictOfConsts(arg) => arg.pops(),
            BcInstr::LoadLocal(arg) => arg.pops(),
            BcInstr::LoadLocal2(arg) => arg.pops(),
            BcInstr::StoreLocal(arg) => arg.pops(),
            BcInstr::LoadModule(arg) => arg.pops(),
            BcInstr::StoreModule(arg) => arg.pops(),
            BcInstr::LoadNamed(arg) => arg.pops(),
            BcInstr::ListNew(arg) => arg.pops(),
            BcInstr::Unpack(arg) => arg.pops(),
            BcInstr::Br(arg) => arg.pops(),
            BcInstr::IfNotBr(arg) => arg.pops(),
            BcInstr::Goto(arg) => arg.pops(),
            BcInstr::CallFrozen(arg) => arg.pops(),
            BcInstr::CallMethod(arg) => arg.pops(),
            BcInstr::DiscardMaybe(arg) => arg.pops(),
            BcInstr::Return(arg) => arg.pops(),
            BcInstr::Profile(arg) => arg.pops(),
            BcInstr::EndOfBc(arg) => arg.pops(),
            BcInstr::Nop(arg) => arg.pops(),
            BcInstr::LoadFrozenRef(arg) => arg.pops(),
            BcInstr::Def(arg) => arg.pops(),
        }
    }

    /// How many stack elements the instruction pushes beyond what its operands say.
    pub open spec fn arg_pushes(&self) -> nat {
        match self {
            BcInstr::Const(arg) => arg.pushes(),
            BcInstr::ConstStr(arg) => arg.pushes(),
            BcInstr::ConstOpt(arg) => arg.pushes(),
            BcInstr::ConstU32(arg) => arg.pushes(),
            BcInstr::ListOfConsts(arg) => arg.pushes(),
            BcInstr::SetOfConsts(arg) => arg.pushes(),
            BcInstr::DictOfConsts(arg) => arg.pushes(),
            BcInstr::LoadLocal(arg) => arg.pushes(),
            BcInstr::LoadLocal2(arg) => arg.pushes(),
            BcInstr::StoreLocal(arg) => arg.pushes(),
            BcInstr::LoadModule(arg) => arg.pushes(),
            BcInstr::StoreModule(arg) => arg.pushes(),
            BcInstr::LoadNamed(arg) => arg.pushes(),
            BcInstr::ListNew(arg) => arg.pushes(),
            BcInstr::Unpack(arg) => arg.pushes(),
            BcInstr::Br(arg) => arg.pushes(),
            BcInstr::IfNotBr(arg) => arg.pushes(),
            BcInstr::Goto(arg) => arg.pushes(),
            BcInstr::CallFrozen(arg) => arg.pushes(),
            BcInstr::CallMethod(arg) => arg.pushes(),
            BcInstr::DiscardMaybe(arg) => arg.pushes(),
            BcInstr::Return(arg) => arg.pushes(),
            BcInstr::Profile(arg) => arg.pushes(),
            BcInstr::EndOfBc(arg) => arg.pushes(),
            BcInstr::Nop(arg) => arg.pushes(),
            BcInstr::LoadFrozenRef(arg) => arg.pushes(),
            BcInstr::Def(arg) => arg.pushes(),
        }
    }

    /// The text of an instruction's argument is empty or starts with a space, so a
    /// listing line is the opcode's name followed by space-led fragments.
    pub proof fn lemma_arg_spaced(&self)
        ensures
            spaced(self.arg_render()),
    {
        match self {
            BcInstr::Const(arg) => BcInstrArg::lemma_render_spaced(arg),
            BcInstr::ConstStr(arg) => BcInstrArg::lemma_render_spaced(arg),
            BcInstr::ConstOpt(arg) => BcInstrArg::lemma_render_spaced(arg),
            BcInstr::ConstU32(arg) => BcInstrArg::lemma_render_spaced(arg),
            BcInstr::ListOfConsts(arg) => BcInstrArg::lemma_render_spaced(arg),
            BcInstr::SetOfConsts(arg) => BcInstrArg::lemma_render_spaced(arg),
            BcInstr::DictOfConsts(arg) => BcInstrArg::lemma_render_spaced(arg),
            BcInstr::LoadLocal(arg) => BcInstrArg::lemma_render_spaced(arg),
            BcInstr::LoadLocal2(arg) => BcInstrArg::lemma_render_spaced(arg),
            BcInstr::StoreLocal(arg) => BcInstrArg::lemma_render_spaced(arg),
            BcInstr::LoadModule(arg) => BcInstrArg::lemma_render_spaced(arg),
            BcInstr::StoreModule(arg) => BcInstrArg::lemma_render_spaced(arg),
            BcInstr::LoadNamed(arg) => BcInstrArg::lemma_render_spaced(arg),
            BcInstr::ListNew(arg) => BcInstrArg::lemma_render_spaced(arg),
            BcInstr::Unpack(arg) => BcInstrArg::lemma_render_spaced(arg),
            BcInstr::Br(arg) => BcInstrArg::lemma_render_spaced(arg),
            BcInstr::IfNotBr(arg) => BcInstrArg::lemma_render_spaced(arg),
            BcInstr::Goto(arg) => BcInstrArg::lemma_render_spaced(arg),
            BcInstr::CallFrozen(arg) => BcInstrArg::lemma_render_spaced(arg),
            BcInstr::CallMethod(arg) => BcInstrArg::lemma_render_spaced(arg),
            BcInstr::DiscardMaybe(arg) => BcInstrArg::lemma_render_spaced(arg),
            BcInstr::Return(arg) => BcInstrArg::lemma_render_spaced(arg),
            BcInstr::Profile(arg) => BcInstrArg::lemma_render_spaced(arg),
            BcInstr::EndOfBc(arg) => BcInstrArg::lemma_render_spaced(arg),
            BcInstr::Nop(arg) => BcInstrArg::lemma_render_spaced(arg),
            BcInstr::LoadFrozenRef(arg) => BcInstrArg::lemma_render_spaced(arg),
            BcInstr::Def(arg) => BcInstrArg::lemma_render_spaced(arg),
        }
    }

    /// The opcode of the instruction.
    pub fn opcode(&self) -> (r: BcOpcode)
        ensures
            r == self.opcode_spec(),
    {
        match self {
            BcInstr::Const(_) => BcOpcode::Const,
            BcInstr::ConstStr(_) => BcOpcode::ConstStr,
            BcInstr::ConstOpt(_) => BcOpcode::ConstOpt,
            BcInstr::ConstU32(_) => BcOpcode::ConstU32,
            BcInstr::ListOfConsts(_) => BcOpcode::ListOfConsts,
            BcInstr::SetOfConsts(_) => BcOpcode::SetOfConsts,
            BcInstr::DictOfConsts(_) => BcOpcode::DictOfConsts,
            BcInstr::LoadLocal(_) => BcOpcode::LoadLocal,
            BcInstr::LoadLocal2(_) => BcOpcode::LoadLocal2,
            BcInstr::StoreLocal(_) => BcOpcode::StoreLocal,
            BcInstr::LoadModule(_) => BcOpcode::LoadModule,
            BcInstr::StoreModule(_) => BcOpcode::StoreModule,
            BcInstr::LoadNamed(_) => BcOpcode::LoadNamed,
            BcInstr::ListNew(_) => BcOpcode::ListNew,
            BcInstr::Unpack(_) => BcOpcode::Unpack,
            BcInstr::Br(_) => BcOpcode::Br,
            BcInstr::IfNotBr(_) => BcOpcode::IfNotBr,
            BcInstr::Goto(_) => BcOpcode::Goto,
            BcInstr::CallFrozen(_) => BcOpcode::CallFrozen,
            BcInstr::CallMethod(_) => BcOpcode::CallMethod,
            BcInstr::DiscardMaybe(_) => BcOpcode::DiscardMaybe,
            BcInstr::Return(_) => BcOpcode::Return,
            BcInstr::Profile(_) => BcOpcode::Profile,
            BcInstr::EndOfBc(_) => BcOpcode::EndOfBc,
            BcInstr::Nop(_) => BcOpcode::Nop,
            BcInstr::LoadFrozenRef(_) => BcOpcode::LoadFrozenRef,
            BcInstr::Def(_) => BcOpcode::Def,
        }
    }

    /// How many additional stack elements the instruction pops.
    pub fn pops_stack(&self) -> (r: u32)
        requires
            self.arg_pops() <= u32::MAX,
        ensures
            r == self.arg_pops(),
    {
        match self {
            BcInstr::Const(arg) => BcInstrArg::pops_stack(arg),
            BcInstr::ConstStr(arg) => BcInstrArg::pops_stack(arg),
            BcInstr::ConstOpt(arg) => BcInstrArg::pops_stack(arg),
            BcInstr::ConstU32(arg) => BcInstrArg::pops_stack(arg),
            BcInstr::ListOfConsts(arg) => BcInstrArg::pops_stack(arg),
            BcInstr::SetOfConsts(arg) => BcInstrArg::pops_stack(arg),
            BcInstr::DictOfConsts(arg) => BcInstrArg::pops_stack(arg),
            BcInstr::LoadLocal(arg) => BcInstrArg::pops_stack(arg),
            BcInstr::LoadLocal2(arg) => BcInstrArg::pops_stack(arg),
            BcInstr::StoreLocal(arg) => BcInstrArg::pops_stack(arg),
            BcInstr::LoadModule(arg) => BcInstrArg::pops_stack(arg),
            BcInstr::StoreModule(arg) => BcInstrArg::pops_stack(arg),
            BcInstr::LoadNamed(arg) => BcInstrArg::pops_stack(arg),
            BcInstr::ListNew(arg) => BcInstrArg::pops_stack(arg),
            BcInstr::Unpack(arg) => BcInstrArg::pops_stack(arg),
            BcInstr::Br(arg) => BcInstrArg::pops_stack(arg),
            BcInstr::IfNotBr(arg) => BcInstrArg::pops_stack(arg),
            BcInstr::Goto(arg) => BcInstrArg::pops_stack(arg),
            BcInstr::CallFrozen(arg) => BcInstrArg::pops_stack(arg),
            BcInstr::CallMethod(arg) => BcInstrArg::pops_stack(arg),
            BcInstr::DiscardMaybe(arg) => BcInstrArg::pops_stack(arg),
            BcInstr::Return(arg) => BcInstrArg::pops_stack(arg),
            BcInstr::Profile(arg) => BcInstrArg::pops_stack(arg),
            BcInstr::EndOfBc(arg) => BcInstrArg::pops_stack(arg),
            BcInstr::Nop(arg) => BcInstrArg::pops_stack(arg),
            BcInstr::LoadFrozenRef(arg) => BcInstrArg::pops_stack(arg),
            BcInstr::Def(arg) => BcInstrArg::pops_stack(arg),
        }
    }

    /// How many additional stack elements the instruction pushes.
    pub fn pushes_stack(&self) -> (r: u32)
        requires
            self.arg_pushes() <= u32::MAX,
        ensures
            r == self.arg_pushes(),
    {
        match self {
            BcInstr::Const(arg) => BcInstrArg::pushes_stack(arg),
            BcInstr::ConstStr(arg) => BcInstrArg::pushes_stack(arg),
            BcInstr::ConstOpt(arg) => BcInstrArg::pushes_stack(arg),
            BcInstr::ConstU32(arg) => BcInstrArg::pushes_stack(arg),
            BcInstr::ListOfConsts(arg) => BcInstrArg::pushes_stack(arg),
            BcInstr::SetOfConsts(arg) => BcInstrArg::pushes_stack(arg),
            BcInstr::DictOfConsts(arg) => BcInstrArg::pushes_stack(arg),
            BcInstr::LoadLocal(arg) => BcInstrArg::pushes_stack(arg),
            BcInstr::LoadLocal2(arg) => BcInstrArg::pushes_stack(arg),
            BcInstr::StoreLocal(arg) => BcInstrArg::pushes_stack(arg),
            BcInstr::LoadModule(arg) => BcInstrArg::pushes_stack(arg),
            BcInstr::StoreModule(arg) => BcInstrArg::pushes_stack(arg),
            BcInstr::LoadNamed(arg) => BcInstrArg::pushes_stack(arg),
            BcInstr::ListNew(arg) => BcInstrArg::pushes_stack(arg),
            BcInstr::Unpack(arg) => BcInstrArg::pushes_stack(arg),
            BcInstr::Br(arg) => BcInstrArg::pushes_stack(arg),
            BcInstr::IfNotBr(arg) => BcInstrArg::pushes_stack(arg),
            BcInstr::Goto(arg) => BcInstrArg::pushes_stack(arg),
            BcInstr::CallFrozen(arg) => BcInstrArg::pushes_stack(arg),
            BcInstr::CallMethod(arg) => BcInstrArg::pushes_stack(arg),
            BcInstr::DiscardMaybe(arg) => BcInstrArg::pushes_stack(arg),
            BcInstr::Return(arg) => BcInstrArg::pushes_stack(arg),
            BcInstr::Profile(arg) => BcInstrArg::pushes_stack(arg),
            BcInstr::EndOfBc(arg) => BcInstrArg::pushes_stack(arg),
            BcInstr::Nop(arg) => BcInstrArg::pushes_stack(arg),
            BcInstr::LoadFrozenRef(arg) => BcInstrArg::pushes_stack(arg),
            BcInstr::Def(arg) => BcInstrArg::pushes_stack(arg),
        }
    }

    /// The listing line of the instruction: the opcode's name, then what the
    /// argument shows.
    pub fn fmt_instr(&self, f: &mut String)
        ensures
            final(f)@ == old(f)@ + self.opcode_spec().name_text() + self.arg_render(),
    {
        let op = self.opcode();
        f.append(op.name());
        op.fmt_append_arg(self, f);
        proof {
            assert(final(f)@ =~= old(f)@ + self.opcode_spec().name_text() + self.arg_render());
        }
    }

    /// The listing line of the instruction, as a new string.
    pub fn to_listing(&self) -> (r: String)
        ensures
            r@ == self.opcode_spec().name_text() + self.arg_render(),
    {
        let mut f = String::new();
        self.fmt_instr(&mut f);
        proof {
            assert(f@ =~= self.opcode_spec().name_text() + self.arg_render());
        }
        f
    }
}

} // verus!

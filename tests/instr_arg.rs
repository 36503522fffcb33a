use starlark::hashed::Hashed;
use starlark::instr_arg::{
    ArgPopsStack, ArgPopsStack1, ArgPopsStackMaybe1, ArgPushesStack, BcInstrArg, FrozenRef, InstrDefData,
};
use starlark::opcode::{BcInstr, BcOpcode};
use starlark::small_map::SmallMap;
use starlark::values::{
    ArgsCompiledValueBc, BcAddr, BcAddrOffset, FrozenStringValue, FrozenValue, FrozenValueTyped,
    LocalSlotId, ModuleSlotId, Span, Symbol,
};

fn render<A: BcInstrArg>(a: &A) -> String {
    let mut s = String::new();
    A::fmt_append(a, &mut s);
    s
}

fn int_value(n: u32) -> FrozenValue {
    FrozenValue::new(n.to_string(), String::from("int"))
}

#[test]
fn unit_renders_nothing() {
    assert_eq!(render(&()), "");
    assert_eq!(<() as BcInstrArg>::pops_stack(&()), 0);
    assert_eq!(<() as BcInstrArg>::pushes_stack(&()), 0);
}

#[test]
fn slots_addresses_and_spans() {
    assert_eq!(render(&17u32), " 17");
    assert_eq!(render(&0u32), " 0");
    assert_eq!(render(&LocalSlotId(3)), " l3");
    assert_eq!(render(&ModuleSlotId(7)), " m7");
    assert_eq!(render(&Span::new(12, 18)), " 12:18");
    assert_eq!(render(&BcAddrOffset(40)), " +40");
    assert_eq!(render(&BcAddr(4294967295)), " 4294967295");
    assert_eq!(render(&Symbol::new("append")), " append");
    assert_eq!(render(&vec![(BcAddr(1), Span::new(0, 1))]), " spans");
}

#[test]
fn stack_count_wrappers() {
    assert_eq!(render(&ArgPopsStack(4)), " 4");
    assert_eq!(ArgPopsStack::pops_stack(&ArgPopsStack(4)), 4);
    assert_eq!(ArgPopsStack::pushes_stack(&ArgPopsStack(4)), 0);
    assert_eq!(render(&ArgPushesStack(2)), " 2");
    assert_eq!(ArgPushesStack::pushes_stack(&ArgPushesStack(2)), 2);
    assert_eq!(ArgPushesStack::pops_stack(&ArgPushesStack(2)), 0);
    assert_eq!(render(&ArgPopsStack1), "");
    assert_eq!(ArgPopsStack1::pops_stack(&ArgPopsStack1), 1);
    assert_eq!(render(&ArgPopsStackMaybe1(true)), " 1");
    assert_eq!(render(&ArgPopsStackMaybe1(false)), " 0");
    assert_eq!(ArgPopsStackMaybe1::pops_stack(&ArgPopsStackMaybe1(true)), 1);
    assert_eq!(ArgPopsStackMaybe1::pops_stack(&ArgPopsStackMaybe1(false)), 0);
}

#[test]
fn composite_sums_counts_and_concatenates() {
    let triple = (LocalSlotId(3), int_value(5), ArgPopsStack(2));
    assert_eq!(render(&triple), " l3 5 2");
    assert_eq!(BcInstrArg::pops_stack(&triple), 2);
    assert_eq!(BcInstrArg::pushes_stack(&triple), 0);
    let pair = (ArgPopsStack1, ArgPushesStack(3));
    assert_eq!(render(&pair), " 3");
    assert_eq!(BcInstrArg::pops_stack(&pair), 1);
    assert_eq!(BcInstrArg::pushes_stack(&pair), 3);
    let quad = (ArgPopsStack(1), ArgPopsStack(2), ArgPushesStack(5), ModuleSlotId(9));
    assert_eq!(render(&quad), " 1 2 5 m9");
    assert_eq!(BcInstrArg::pops_stack(&quad), 3);
    assert_eq!(BcInstrArg::pushes_stack(&quad), 5);
}

#[test]
fn arrays_sum_counts_and_concatenate() {
    let arr = [ArgPopsStack(1), ArgPopsStack(2), ArgPopsStack(4)];
    assert_eq!(render(&arr), " 1 2 4");
    assert_eq!(BcInstrArg::pops_stack(&arr), 7);
    assert_eq!(BcInstrArg::pushes_stack(&arr), 0);
    let slots = [LocalSlotId(1), LocalSlotId(2)];
    assert_eq!(render(&slots), " l1 l2");
    let empty: [LocalSlotId; 0] = [];
    assert_eq!(render(&empty), "");
}

#[test]
fn long_values_show_their_type() {
    let at_bound = FrozenValue::new("x".repeat(100), String::from("string"));
    assert_eq!(render(&at_bound), format!(" {}", "x".repeat(100)));
    let over = FrozenValue::new("x".repeat(101), String::from("dict"));
    assert_eq!(render(&over), " <dict>");
    assert_eq!(render(&FrozenValueTyped(over.clone())), " <dict>");
    assert_eq!(render(&FrozenStringValue(at_bound.clone())), format!(" {}", "x".repeat(100)));
}

#[test]
fn optional_values() {
    assert_eq!(render(&None::<FrozenValue>), " ()");
    assert_eq!(render(&Some(int_value(8))), " 8");
}

#[test]
fn strings_show_quoted() {
    assert_eq!(render(&String::from("a\nb")), " \"a\\nb\"");
    assert_eq!(render(&String::from("x")), " \"x\"");
    assert_eq!(BcInstr::LoadNamed(String::from("foo")).to_listing(), "LoadNamed \"foo\"");
}

#[test]
fn literal_lists_and_dicts() {
    assert_eq!(render(&vec![int_value(1), int_value(2), int_value(3)]), " [1, 2, 3]");
    assert_eq!(render(&Vec::<FrozenValue>::new()), " []");
    assert_eq!(render(&vec![Hashed::new_unchecked(starlark::hash_value::StarlarkHashValue(1), int_value(4))]), " [4]");
    let mut d: SmallMap<FrozenValue, FrozenValue> = SmallMap::new();
    assert_eq!(render(&d), " {}");
    d.insert(int_value(1), int_value(10));
    d.insert(int_value(2), FrozenValue::new("y".repeat(101), String::from("list")));
    d.insert(int_value(1), int_value(11));
    assert_eq!(render(&d), " {1: 11, 2: <list>}");
    assert_eq!(BcInstr::DictOfConsts(d).to_listing(), "DictOfConsts {1: 11, 2: <list>}");
    let set = vec![Hashed::new(int_value(5)), Hashed::new(int_value(6))];
    assert_eq!(BcInstr::SetOfConsts(set).to_listing(), "SetOfConsts [5, 6]");
}

#[test]
fn call_arguments_pop_their_values() {
    let a = ArgsCompiledValueBc { pos_named: 2, args: true, kwargs: false };
    assert_eq!(render(&a), " {2 *args}");
    assert_eq!(BcInstrArg::pops_stack(&a), 3);
    let b = ArgsCompiledValueBc { pos_named: 0, args: true, kwargs: true };
    assert_eq!(render(&b), " {0 *args **kwargs}");
    assert_eq!(BcInstrArg::pops_stack(&b), 2);
    assert_eq!(BcInstrArg::pushes_stack(&b), 0);
}

#[test]
fn opcode_dispatch_formats_argument() {
    let instr = BcInstr::LoadLocal(LocalSlotId(3));
    assert_eq!(instr.opcode(), BcOpcode::LoadLocal);
    let mut s = String::new();
    instr.opcode().fmt_append_arg(&instr, &mut s);
    assert_eq!(s, " l3");
    assert_eq!(instr.to_listing(), "LoadLocal l3");
    let store = BcInstr::StoreModule((ModuleSlotId(7), ArgPopsStack1));
    assert_eq!(store.to_listing(), "StoreModule m7");
    assert_eq!(store.pops_stack(), 1);
    assert_eq!(store.pushes_stack(), 0);
    let call = BcInstr::CallMethod((
        Symbol::new("get"),
        ArgsCompiledValueBc { pos_named: 1, args: false, kwargs: true },
        Span::new(12, 18),
    ));
    assert_eq!(call.to_listing(), "CallMethod get {1 **kwargs} 12:18");
    assert_eq!(call.pops_stack(), 2);
    assert_eq!(BcInstr::Profile(BcOpcode::Br).to_listing(), "Profile Br");
    assert_eq!(BcInstr::Nop(()).to_listing(), "Nop");
    assert_eq!(BcInstr::Unpack((ArgPopsStack1, ArgPushesStack(3))).pushes_stack(), 3);
    assert_eq!(BcOpcode::DictOfConsts.name(), "DictOfConsts");
}

#[test]
fn every_fragment_starts_with_a_space() {
    assert_eq!(BcInstr::DiscardMaybe(ArgPopsStackMaybe1(true)).to_listing(), "DiscardMaybe 1");
    assert_eq!(BcInstr::DiscardMaybe(ArgPopsStackMaybe1(false)).to_listing(), "DiscardMaybe 0");
    assert_eq!(BcInstr::DiscardMaybe(ArgPopsStackMaybe1(true)).pops_stack(), 1);
    let mut s = String::new();
    BcOpcode::LoadNamed.fmt_append_arg(&BcInstr::LoadNamed(String::from("x")), &mut s);
    assert_eq!(s, " \"x\"");
}

#[test]
fn frozen_refs_and_definitions_show_their_text() {
    assert_eq!(render(&FrozenRef(String::from("<function f>"))), " <function f>");
    assert_eq!(render(&InstrDefData(String::from("Def { name: f }"))), " Def { name: f }");
    assert_eq!(BcInstr::LoadFrozenRef(FrozenRef(String::from("g"))).to_listing(), "LoadFrozenRef g");
    assert_eq!(BcInstr::Def(InstrDefData(String::from("d"))).to_listing(), "Def d");
    assert_eq!(BcInstr::Def(InstrDefData(String::from("d"))).pops_stack(), 0);
}

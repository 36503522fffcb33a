use vstd::prelude::*;

use crate::hashed::Hashed;
use crate::small_map::SmallMap;
use crate::text::{decimal, push_decimal, push_flag};
use crate::values::{
    ArgsCompiledValueBc, BcAddr, BcAddrOffset, FrozenStringValue, FrozenValue, FrozenValueTyped,
    LocalSlotId, ModuleSlotId, Span, Symbol,
};
use crate::vec_map::Entry;

verus! {

/// The quoted, escaped form in which Rust's `Debug` shows a string.
pub uninterp spec fn debug_text(s: Seq<char>) -> Seq<char>;

/// Relies on `<str as Debug>::fmt`: the quoted, escaped form of a string, which
/// depends on its characters alone.
#[verifier::external_body]
fn debug_str(s: &str) -> (r: String)
    ensures
        r@ == debug_text(s@),
{
    format!("{:?}", s)
}


/// Whether a text is empty or starts with a space: the shape of every argument's text.
pub open spec fn spaced(t: Seq<char>) -> bool {
    t.len() == 0 || t[0] == ' '
}

/// Texts of that shape, one after the other, keep it.
pub proof fn lemma_spaced_concat(a: Seq<char>, b: Seq<char>)
    requires
        spaced(a),
        spaced(b),
    ensures
        spaced(a + b),
{
    if a.len() == 0 {
        assert(a + b =~= b);
    }
}

/// A text that starts with a space keeps it, whatever follows.
pub proof fn lemma_space_first(a: Seq<char>, b: Seq<char>)
    requires
        a.len() > 0,
        a[0] == ' ',
    ensures
        spaced(a + b),
{
}

/// The fixed argument of an instruction.
pub trait BcInstrArg {
    /// What a listing shows of the argument: a space, then the argument; or nothing
    /// where the argument carries nothing to show.
    spec fn render(&self) -> Seq<char>;

    /// How many stack elements the instruction pops beyond what its operands say.
    spec fn pops(&self) -> nat;

    /// How many stack elements the instruction pushes beyond what its operands say.
    spec fn pushes(&self) -> nat;

    /// What a listing shows of the argument is empty or starts with a space.
    proof fn lemma_render_spaced(param: &Self)
        ensures
            spaced(param.render()),
    ;

    /// Append what a listing shows of the argument.
    fn fmt_append(param: &Self, f: &mut String)
        ensures
            final(f)@ == old(f)@ + param.render(),
    ;

    /// How many additional stack elements the instruction pops.
    fn pops_stack(param: &Self) -> (r: u32)
        requires
            param.pops() <= u32::MAX,
        ensures
            r == param.pops(),
    ;

    /// How many additional stack elements the instruction pushes.
    fn pushes_stack(param: &Self) -> (r: u32)
        requires
            param.pushes() <= u32::MAX,
        ensures
            r == param.pushes(),
    ;
}

impl BcInstrArg for () {
    open spec fn render(&self) -> Seq<char> {
        Seq::empty()
    }

    open spec fn pops(&self) -> nat {
        0
    }

    open spec fn pushes(&self) -> nat {
        0
    }

    proof fn lemma_render_spaced(param: &Self) {
        
    }

    fn fmt_append(param: &Self, f: &mut String) {
        proof {
            assert(final(f)@ =~= old(f)@ + param.render());
        }
    }

    fn pops_stack(param: &Self) -> (r: u32) {
        0
    }

    fn pushes_stack(param: &Self) -> (r: u32) {
        0
    }
}

impl BcInstrArg for u32 {
    open spec fn render(&self) -> Seq<char> {
        " "@ + decimal(*self as nat)
    }

    open spec fn pops(&self) -> nat {
        0
    }

    open spec fn pushes(&self) -> nat {
        0
    }

    proof fn lemma_render_spaced(param: &Self) {
        reveal_strlit(" ");
        lemma_space_first(" "@, decimal(*param as nat));
    }

    fn fmt_append(param: &Self, f: &mut String) {
        f.append(" ");
        push_decimal(f, *param);
        proof {
            assert(final(f)@ =~= old(f)@ + param.render());
        }
    }

    fn pops_stack(param: &Self) -> (r: u32) {
        0
    }

    fn pushes_stack(param: &Self) -> (r: u32) {
        0
    }
}

impl<A: BcInstrArg, B: BcInstrArg> BcInstrArg for (A, B) {
    open spec fn render(&self) -> Seq<char> {
        self.0.render() + self.1.render()
    }

    open spec fn pops(&self) -> nat {
        self.0.pops() + self.1.pops()
    }

    open spec fn pushes(&self) -> nat {
        self.0.pushes() + self.1.pushes()
    }

    proof fn lemma_render_spaced(param: &Self) {
        A::lemma_render_spaced(&param.0);
        B::lemma_render_spaced(&param.1);
        lemma_spaced_concat(param.0.render(), param.1.render());
    }

    fn fmt_append(param: &Self, f: &mut String) {
        A::fmt_append(&param.0, f);
        B::fmt_append(&param.1, f);
        proof {
            assert(final(f)@ =~= old(f)@ + param.render());
        }
    }

    fn pops_stack(param: &Self) -> (r: u32) {
        A::pops_stack(&param.0) + B::pops_stack(&param.1)
    }

    fn pushes_stack(param: &Self) -> (r: u32) {
        A::pushes_stack(&param.0) + B::pushes_stack(&param.1)
    }
}

impl<A: BcInstrArg, B: BcInstrArg, C: BcInstrArg> BcInstrArg for (A, B, C) {
    open spec fn render(&self) -> Seq<char> {
        self.0.render() + self.1.render() + self.2.render()
    }

    open spec fn pops(&self) -> nat {
        self.0.pops() + self.1.pops() + self.2.pops()
    }

    open spec fn pushes(&self) -> nat {
        self.0.pushes() + self.1.pushes() + self.2.pushes()
    }

    proof fn lemma_render_spaced(param: &Self) {
        A::lemma_render_spaced(&param.0);
        B::lemma_render_spaced(&param.1);
        C::lemma_render_spaced(&param.2);
        lemma_spaced_concat(param.0.render(), param.1.render());
        lemma_spaced_concat(param.0.render() + param.1.render(), param.2.render());
    }

    fn fmt_append(param: &Self, f: &mut String) {
        A::fmt_append(&param.0, f);
        B::fmt_append(&param.1, f);
        C::fmt_append(&param.2, f);
        proof {
            assert(final(f)@ =~= old(f)@ + param.render());
        }
    }

    fn pops_stack(param: &Self) -> (r: u32) {
        A::pops_stack(&param.0) + B::pops_stack(&param.1) + C::pops_stack(&param.2)
    }

    fn pushes_stack(param: &Self) -> (r: u32) {
        A::pushes_stack(&param.0) + B::pushes_stack(&param.1) + C::pushes_stack(&param.2)
    }
}

impl<A: BcInstrArg, B: BcInstrArg, C: BcInstrArg, D: BcInstrArg> BcInstrArg for (A, B, C, D) {
    open spec fn render(&self) -> Seq<char> {
        self.0.render() + self.1.render() + self.2.render() + self.3.render()
    }

    open spec fn pops(&self) -> nat {
        self.0.pops() + self.1.pops() + self.2.pops() + self.3.pops()
    }

    open spec fn pushes(&self) -> nat {
        self.0.pushes() + self.1.pushes() + self.2.pushes() + self.3.pushes()
    }

    proof fn lemma_render_spaced(param: &Self) {
        A::lemma_render_spaced(&param.0);
        B::lemma_render_spaced(&param.1);
        C::lemma_render_spaced(&param.2);
        D::lemma_render_spaced(&param.3);
        lemma_spaced_concat(param.0.render(), param.1.render());
        lemma_spaced_concat(param.0.render() + param.1.render(), param.2.render());
        lemma_spaced_concat(param.0.render() + param.1.render() + param.2.render(), param.3.render());
    }

    fn fmt_append(param: &Self, f: &mut String) {
        A::fmt_append(&param.0, f);
        B::fmt_append(&param.1, f);
        C::fmt_append(&param.2, f);
        D::fmt_append(&param.3, f);
        proof {
            assert(final(f)@ =~= old(f)@ + param.render());
        }
    }

    fn pops_stack(param: &Self) -> (r: u32) {
        A::pops_stack(&param.0) + B::pops_stack(&param.1) + C::pops_stack(&param.2)
            + D::pops_stack(&param.3)
    }

    fn pushes_stack(param: &Self) -> (r: u32) {
        A::pushes_stack(&param.0) + B::pushes_stack(&param.1) + C::pushes_stack(&param.2)
            + D::pushes_stack(&param.3)
    }
}

/// A composite argument shows its parts one after the other, in order, and pops and
/// pushes as many values as its parts do together.
pub proof fn lemma_composite_args<A: BcInstrArg, B: BcInstrArg, C: BcInstrArg>(pair: (A, B), triple: (A, B, C))
    ensures
        pair.render() == pair.0.render() + pair.1.render(),
        pair.pops() == pair.0.pops() + pair.1.pops(),
        pair.pushes() == pair.0.pushes() + pair.1.pushes(),
        triple.render() == triple.0.render() + triple.1.render() + triple.2.render(),
        triple.pops() == triple.0.pops() + triple.1.pops() + triple.2.pops(),
        triple.pushes() == triple.0.pushes() + triple.1.pushes() + triple.2.pushes(),
{
}

/// What a listing shows of a sequence of arguments: each in turn.
pub open spec fn render_all<A: BcInstrArg>(s: Seq<A>) -> Seq<char>
    decreases s.len(),
{
    if s.len() == 0 {
        Seq::empty()
    } else {
        render_all(s.drop_last()) + s.last().render()
    }
}

/// The sum of a sequence of counts.
pub open spec fn sum_counts(s: Seq<nat>) -> nat
    decreases s.len(),
{
    if s.len() == 0 {
        0
    } else {
        sum_counts(s.drop_last()) + s.last()
    }
}

/// The additional pops of each argument of a sequence.
pub open spec fn pops_each<A: BcInstrArg>(s: Seq<A>) -> Seq<nat> {
    s.map_values(|a: A| a.pops())
}

/// The additional pushes of each argument of a sequence.
pub open spec fn pushes_each<A: BcInstrArg>(s: Seq<A>) -> Seq<nat> {
    s.map_values(|a: A| a.pushes())
}

/// A sum over a prefix is at most the sum over a longer prefix.
proof fn lemma_sum_prefix(s: Seq<nat>, i: int, j: int)
    requires
        0 <= i <= j <= s.len(),
    ensures
        sum_counts(s.subrange(0, i)) <= sum_counts(s.subrange(0, j)),
    decreases j - i,
{
    if i < j {
        lemma_sum_prefix(s, i, j - 1);
        assert(s.subrange(0, j).drop_last() =~= s.subrange(0, j - 1));
    }
}

/// Every text of a sequence of arguments is empty or starts with a space, and so
/// is their concatenation.
proof fn lemma_render_all_spaced<A: BcInstrArg>(s: Seq<A>)
    ensures
        spaced(render_all(s)),
    decreases s.len(),
{
    if s.len() > 0 {
        lemma_render_all_spaced(s.drop_last());
        A::lemma_render_spaced(&s.last());
        lemma_spaced_concat(render_all(s.drop_last()), s.last().render());
    }
}

/// Sum counts over an array of arguments, one element at a time.
fn sum_array<A: BcInstrArg, const N: usize>(param: &[A; N], pops: bool) -> (r: u32)
    requires
        pops ==> sum_counts(pops_each(param@)) <= u32::MAX,
        !pops ==> sum_counts(pushes_each(param@)) <= u32::MAX,
    ensures
        pops ==> r == sum_counts(pops_each(param@)),
        !pops ==> r == sum_counts(pushes_each(param@)),
{
    let ghost counts = if pops {
        pops_each(param@)
    } else {
        pushes_each(param@)
    };
    let mut total: u32 = 0;
    let mut i: usize = 0;
    while i < N
        invariant
            i <= N,
            N == param@.len(),
            counts.len() == N,
            counts == if pops {
                pops_each(param@)
            } else {
                pushes_each(param@)
            },
            sum_counts(counts) <= u32::MAX,
            total == sum_counts(counts.subrange(0, i as int)),
        decreases N - i,
    {
        let a = &param[i];
        proof {
            lemma_sum_prefix(counts, i + 1, N as int);
            assert(counts.subrange(0, N as int) =~= counts);
            assert(counts.subrange(0, i + 1).drop_last() =~= counts.subrange(0, i as int));
        }
        let c = if pops {
            A::pops_stack(a)
        } else {
            A::pushes_stack(a)
        };
        total = total + c;
        i = i + 1;
    }
    proof {
        assert(counts.subrange(0, N as int) =~= counts);
    }
    total
}

impl<A: BcInstrArg, const N: usize> BcInstrArg for [A; N] {
    open spec fn render(&self) -> Seq<char> {
        render_all(self@)
    }

    open spec fn pops(&self) -> nat {
        sum_counts(pops_each(self@))
    }

    open spec fn pushes(&self) -> nat {
        sum_counts(pushes_each(self@))
    }

    proof fn lemma_render_spaced(param: &Self) {
        lemma_render_all_spaced(param@);
    }

    fn fmt_append(param: &Self, f: &mut String) {
        let mut i: usize = 0;
        while i < N
            invariant
                i <= N,
                N == param@.len(),
                f@ == old(f)@ + render_all(param@.subrange(0, i as int)),
            decreases N - i,
        {
            proof {
                assert(param@.subrange(0, i + 1).drop_last() =~= param@.subrange(0, i as int));
            }
            A::fmt_append(&param[i], f);
            i = i + 1;
            proof {
                assert(f@ =~= old(f)@ + render_all(param@.subrange(0, i as int)));
            }
        }
        proof {
            assert(param@.subrange(0, N as int) =~= param@);
        }
    }

    fn pops_stack(param: &Self) -> (r: u32) {
        sum_array(param, true)
    }

    fn pushes_stack(param: &Self) -> (r: u32) {
        sum_array(param, false)
    }
}

impl BcInstrArg for BcAddrOffset {
    open spec fn render(&self) -> Seq<char> {
        " +"@ + decimal(self.0 as nat)
    }

    open spec fn pops(&self) -> nat {
        0
    }

    open spec fn pushes(&self) -> nat {
        0
    }

    proof fn lemma_render_spaced(param: &Self) {
        reveal_strlit(" +");
        assert(param.render()[0] == ' ');
    }

    fn fmt_append(param: &Self, f: &mut String) {
        f.append(" +");
        push_decimal(f, param.0);
        proof {
            assert(final(f)@ =~= old(f)@ + param.render());
        }
    }

    fn pops_stack(param: &Self) -> (r: u32) {
        0
    }

    fn pushes_stack(param: &Self) -> (r: u32) {
        0
    }
}

impl BcInstrArg for BcAddr {
    open spec fn render(&self) -> Seq<char> {
        " "@ + decimal(self.0 as nat)
    }

    open spec fn pops(&self) -> nat {
        0
    }

    open spec fn pushes(&self) -> nat {
        0
    }

    proof fn lemma_render_spaced(param: &Self) {
        reveal_strlit(" ");
        assert(param.render()[0] == ' ');
    }

    fn fmt_append(param: &Self, f: &mut String) {
        f.append(" ");
        push_decimal(f, param.0);
        proof {
            assert(final(f)@ =~= old(f)@ + param.render());
        }
    }

    fn pops_stack(param: &Self) -> (r: u32) {
        0
    }

    fn pushes_stack(param: &Self) -> (r: u32) {
        0
    }
}

impl BcInstrArg for FrozenValue {
    open spec fn render(&self) -> Seq<char> {
        " "@ + self.spec_truncated()
    }

    open spec fn pops(&self) -> nat {
        0
    }

    open spec fn pushes(&self) -> nat {
        0
    }

    proof fn lemma_render_spaced(param: &Self) {
        reveal_strlit(" ");
        assert(param.render()[0] == ' ');
    }

    fn fmt_append(param: &Self, f: &mut String) {
        f.append(" ");
        param.fmt_truncated(f);
        proof {
            assert(final(f)@ =~= old(f)@ + param.render());
        }
    }

    fn pops_stack(param: &Self) -> (r: u32) {
        0
    }

    fn pushes_stack(param: &Self) -> (r: u32) {
        0
    }
}

impl BcInstrArg for Option<FrozenValue> {
    open spec fn render(&self) -> Seq<char> {
        match self {
            None => " ()"@,
            Some(v) => " "@ + v.spec_truncated(),
        }
    }

    open spec fn pops(&self) -> nat {
        0
    }

    open spec fn pushes(&self) -> nat {
        0
    }

    proof fn lemma_render_spaced(param: &Self) {
        reveal_strlit(" ()");
        reveal_strlit(" ");
        match param {
            None => {},
            Some(v) => lemma_space_first(" "@, v.spec_truncated()),
        }
    }

    fn fmt_append(param: &Self, f: &mut String) {
        match param {
            None => f.append(" ()"),
            Some(v) => {
                f.append(" ");
                v.fmt_truncated(f);
            },
        }
        proof {
            assert(final(f)@ =~= old(f)@ + param.render());
        }
    }

    fn pops_stack(param: &Self) -> (r: u32) {
        0
    }

    fn pushes_stack(param: &Self) -> (r: u32) {
        0
    }
}

impl BcInstrArg for FrozenStringValue {
    open spec fn render(&self) -> Seq<char> {
        " "@ + self.0.spec_truncated()
    }

    open spec fn pops(&self) -> nat {
        0
    }

    open spec fn pushes(&self) -> nat {
        0
    }

    proof fn lemma_render_spaced(param: &Self) {
        reveal_strlit(" ");
        assert(param.render()[0] == ' ');
    }

    fn fmt_append(param: &Self, f: &mut String) {
        f.append(" ");
        param.unpack().fmt_truncated(f);
        proof {
            assert(final(f)@ =~= old(f)@ + param.render());
        }
    }

    fn pops_stack(param: &Self) -> (r: u32) {
        0
    }

    fn pushes_stack(param: &Self) -> (r: u32) {
        0
    }
}

/// A string shows in its quoted form.
impl BcInstrArg for String {
    open spec fn render(&self) -> Seq<char> {
        " "@ + debug_text(self@)
    }

    open spec fn pops(&self) -> nat {
        0
    }

    open spec fn pushes(&self) -> nat {
        0
    }

    proof fn lemma_render_spaced(param: &Self) {
        reveal_strlit(" ");
        assert(param.render()[0] == ' ');
    }

    fn fmt_append(param: &Self, f: &mut String) {
        let d = debug_str(param.as_str());
        f.append(" ");
        f.append(d.as_str());
        proof {
            assert(final(f)@ =~= old(f)@ + param.render());
        }
    }

    fn pops_stack(param: &Self) -> (r: u32) {
        0
    }

    fn pushes_stack(param: &Self) -> (r: u32) {
        0
    }
}

impl BcInstrArg for FrozenValueTyped {
    open spec fn render(&self) -> Seq<char> {
        " "@ + self.0.spec_truncated()
    }

    open spec fn pops(&self) -> nat {
        0
    }

    open spec fn pushes(&self) -> nat {
        0
    }

    proof fn lemma_render_spaced(param: &Self) {
        reveal_strlit(" ");
        assert(param.render()[0] == ' ');
    }

    fn fmt_append(param: &Self, f: &mut String) {
        f.append(" ");
        param.to_frozen_value().fmt_truncated(f);
        proof {
            assert(final(f)@ =~= old(f)@ + param.render());
        }
    }

    fn pops_stack(param: &Self) -> (r: u32) {
        0
    }

    fn pushes_stack(param: &Self) -> (r: u32) {
        0
    }
}

impl BcInstrArg for LocalSlotId {
    open spec fn render(&self) -> Seq<char> {
        " l"@ + decimal(self.0 as nat)
    }

    open spec fn pops(&self) -> nat {
        0
    }

    open spec fn pushes(&self) -> nat {
        0
    }

    proof fn lemma_render_spaced(param: &Self) {
        reveal_strlit(" l");
        assert(param.render()[0] == ' ');
    }

    fn fmt_append(param: &Self, f: &mut String) {
        f.append(" l");
        push_decimal(f, param.0);
        proof {
            assert(final(f)@ =~= old(f)@ + param.render());
        }
    }

    fn pops_stack(param: &Self) -> (r: u32) {
        0
    }

    fn pushes_stack(param: &Self) -> (r: u32) {
        0
    }
}

impl BcInstrArg for ModuleSlotId {
    open spec fn render(&self) -> Seq<char> {
        " m"@ + decimal(self.0 as nat)
    }

    open spec fn pops(&self) -> nat {
        0
    }

    open spec fn pushes(&self) -> nat {
        0
    }

    proof fn lemma_render_spaced(param: &Self) {
        reveal_strlit(" m");
        assert(param.render()[0] == ' ');
    }

    fn fmt_append(param: &Self, f: &mut String) {
        f.append(" m");
        push_decimal(f, param.0);
        proof {
            assert(final(f)@ =~= old(f)@ + param.render());
        }
    }

    fn pops_stack(param: &Self) -> (r: u32) {
        0
    }

    fn pushes_stack(param: &Self) -> (r: u32) {
        0
    }
}

impl BcInstrArg for Span {
    open spec fn render(&self) -> Seq<char> {
        " "@ + decimal(self.spec_begin() as nat) + ":"@ + decimal(self.spec_end() as nat)
    }

    open spec fn pops(&self) -> nat {
        0
    }

    open spec fn pushes(&self) -> nat {
        0
    }

    proof fn lemma_render_spaced(param: &Self) {
        reveal_strlit(" ");
        assert(param.render()[0] == ' ');
    }

    fn fmt_append(param: &Self, f: &mut String) {
        f.append(" ");
        push_decimal(f, param.begin());
        f.append(":");
        push_decimal(f, param.end());
        proof {
            assert(final(f)@ =~= old(f)@ + param.render());
        }
    }

    fn pops_stack(param: &Self) -> (r: u32) {
        0
    }

    fn pushes_stack(param: &Self) -> (r: u32) {
        0
    }
}

/// A reference to a frozen object, as far as this layer reads it: its display text.
#[derive(Clone, Debug)]
pub struct FrozenRef(pub String);

/// The data of a function definition, as far as this layer reads it: its debug text.
#[derive(Clone, Debug)]
pub struct InstrDefData(pub String);

impl BcInstrArg for FrozenRef {
    open spec fn render(&self) -> Seq<char> {
        " "@ + self.0@
    }

    open spec fn pops(&self) -> nat {
        0
    }

    open spec fn pushes(&self) -> nat {
        0
    }

    proof fn lemma_render_spaced(param: &Self) {
        reveal_strlit(" ");
        assert(param.render()[0] == ' ');
    }

    fn fmt_append(param: &Self, f: &mut String) {
        f.append(" ");
        f.append(param.0.as_str());
        proof {
            assert(final(f)@ =~= old(f)@ + param.render());
        }
    }

    fn pops_stack(param: &Self) -> (r: u32) {
        0
    }

    fn pushes_stack(param: &Self) -> (r: u32) {
        0
    }
}

impl BcInstrArg for InstrDefData {
    open spec fn render(&self) -> Seq<char> {
        " "@ + self.0@
    }

    open spec fn pops(&self) -> nat {
        0
    }

    open spec fn pushes(&self) -> nat {
        0
    }

    proof fn lemma_render_spaced(param: &Self) {
        reveal_strlit(" ");
        assert(param.render()[0] == ' ');
    }

    fn fmt_append(param: &Self, f: &mut String) {
        f.append(" ");
        f.append(param.0.as_str());
        proof {
            assert(final(f)@ =~= old(f)@ + param.render());
        }
    }

    fn pops_stack(param: &Self) -> (r: u32) {
        0
    }

    fn pushes_stack(param: &Self) -> (r: u32) {
        0
    }
}

/// The instruction pushes this many values by hand.
#[derive(Clone, Copy, Debug, PartialEq, Eq, Structural)]
pub struct ArgPushesStack(pub u32);

/// The instruction pops this many values by hand.
#[derive(Clone, Copy, Debug, PartialEq, Eq, Structural)]
pub struct ArgPopsStack(pub u32);

/// The instruction pops one value by hand.
#[derive(Clone, Copy, Debug, PartialEq, Eq, Structural)]
pub struct ArgPopsStack1;

/// The instruction pops one value by hand where the flag is set.
#[derive(Clone, Copy, Debug, PartialEq, Eq, Structural)]
pub struct ArgPopsStackMaybe1(pub bool);

impl BcInstrArg for ArgPushesStack {
    open spec fn render(&self) -> Seq<char> {
        self.0.render()
    }

    open spec fn pops(&self) -> nat {
        0
    }

    open spec fn pushes(&self) -> nat {
        self.0 as nat
    }

    proof fn lemma_render_spaced(param: &Self) {
        u32::lemma_render_spaced(&param.0);
    }

    fn fmt_append(param: &Self, f: &mut String) {
        u32::fmt_append(&param.0, f);
        proof {
            assert(final(f)@ =~= old(f)@ + param.render());
        }
    }

    fn pops_stack(param: &Self) -> (r: u32) {
        0
    }

    fn pushes_stack(param: &Self) -> (r: u32) {
        param.0
    }
}

impl BcInstrArg for ArgPopsStack {
    open spec fn render(&self) -> Seq<char> {
        self.0.render()
    }

    open spec fn pops(&self) -> nat {
        self.0 as nat
    }

    open spec fn pushes(&self) -> nat {
        0
    }

    proof fn lemma_render_spaced(param: &Self) {
        u32::lemma_render_spaced(&param.0);
    }

    fn fmt_append(param: &Self, f: &mut String) {
        u32::fmt_append(&param.0, f);
        proof {
            assert(final(f)@ =~= old(f)@ + param.render());
        }
    }

    fn pops_stack(param: &Self) -> (r: u32) {
        param.0
    }

    fn pushes_stack(param: &Self) -> (r: u32) {
        0
    }
}

impl BcInstrArg for ArgPopsStack1 {
    open spec fn render(&self) -> Seq<char> {
        Seq::empty()
    }

    open spec fn pops(&self) -> nat {
        1
    }

    open spec fn pushes(&self) -> nat {
        0
    }

    proof fn lemma_render_spaced(param: &Self) {
        
    }

    fn fmt_append(param: &Self, f: &mut String) {

        proof {
            assert(final(f)@ =~= old(f)@ + param.render());
        }
    }

    fn pops_stack(param: &Self) -> (r: u32) {
        1
    }

    fn pushes_stack(param: &Self) -> (r: u32) {
        0
    }
}

/// The flag shows as `1` or `0`.
impl BcInstrArg for ArgPopsStackMaybe1 {
    open spec fn render(&self) -> Seq<char> {
        " "@ + if self.0 {
            "1"@
        } else {
            "0"@
        }
    }

    open spec fn pops(&self) -> nat {
        if self.0 {
            1
        } else {
            0
        }
    }

    open spec fn pushes(&self) -> nat {
        0
    }

    proof fn lemma_render_spaced(param: &Self) {
        reveal_strlit(" ");
        assert(param.render()[0] == ' ');
    }

    fn fmt_append(param: &Self, f: &mut String) {
        f.append(" ");
        push_flag(f, param.0);
        proof {
            assert(final(f)@ =~= old(f)@ + param.render());
        }
    }

    fn pops_stack(param: &Self) -> (r: u32) {
        if param.0 {
            1
        } else {
            0
        }
    }

    fn pushes_stack(param: &Self) -> (r: u32) {
        0
    }
}

/// A table of spans shows as a placeholder.
impl BcInstrArg for Vec<(BcAddr, Span)> {
    open spec fn render(&self) -> Seq<char> {
        " spans"@
    }

    open spec fn pops(&self) -> nat {
        0
    }

    open spec fn pushes(&self) -> nat {
        0
    }

    proof fn lemma_render_spaced(param: &Self) {
        reveal_strlit(" spans");
        assert(param.render()[0] == ' ');
    }

    fn fmt_append(param: &Self, f: &mut String) {
        f.append(" spans");
        proof {
            assert(final(f)@ =~= old(f)@ + param.render());
        }
    }

    fn pops_stack(param: &Self) -> (r: u32) {
        0
    }

    fn pushes_stack(param: &Self) -> (r: u32) {
        0
    }
}

impl BcInstrArg for Symbol {
    open spec fn render(&self) -> Seq<char> {
        " "@ + self.spec_str()
    }

    open spec fn pops(&self) -> nat {
        0
    }

    open spec fn pushes(&self) -> nat {
        0
    }

    proof fn lemma_render_spaced(param: &Self) {
        reveal_strlit(" ");
        assert(param.render()[0] == ' ');
    }

    fn fmt_append(param: &Self, f: &mut String) {
        f.append(" ");
        f.append(param.as_str());
        proof {
            assert(final(f)@ =~= old(f)@ + param.render());
        }
    }

    fn pops_stack(param: &Self) -> (r: u32) {
        0
    }

    fn pushes_stack(param: &Self) -> (r: u32) {
        0
    }
}

/// Texts joined with `", "` between them.
pub open spec fn join_texts(s: Seq<Seq<char>>) -> Seq<char>
    decreases s.len(),
{
    if s.len() == 0 {
        Seq::empty()
    } else if s.len() == 1 {
        s[0]
    } else {
        join_texts(s.drop_last()) + ", "@ + s.last()
    }
}

/// How a listing shows each value of a sequence.
pub open spec fn truncated_each(s: Seq<FrozenValue>) -> Seq<Seq<char>> {
    s.map_values(|v: FrozenValue| v.spec_truncated())
}

/// How a listing shows each key of a sequence of hashed values.
pub open spec fn truncated_keys(s: Seq<Hashed<FrozenValue>>) -> Seq<Seq<char>> {
    s.map_values(|v: Hashed<FrozenValue>| v.spec_key().spec_truncated())
}

/// How a listing shows each entry of a map of values: key, colon, value.
pub open spec fn truncated_entries(s: Seq<Entry<FrozenValue, FrozenValue>>) -> Seq<Seq<char>> {
    s.map_values(|e: Entry<FrozenValue, FrozenValue>| e.1.spec_truncated() + ": "@ + e.2.spec_truncated())
}

/// One step of joining: the join of a prefix one longer.
proof fn lemma_join_step(s: Seq<Seq<char>>, i: int)
    requires
        0 <= i < s.len(),
    ensures
        join_texts(s.subrange(0, i + 1)) == if i == 0 {
            s[0]
        } else {
            join_texts(s.subrange(0, i)) + ", "@ + s[i]
        },
{
    assert(s.subrange(0, i + 1).drop_last() =~= s.subrange(0, i));
}

impl BcInstrArg for Vec<FrozenValue> {
    open spec fn render(&self) -> Seq<char> {
        " ["@ + join_texts(truncated_each(self@)) + "]"@
    }

    open spec fn pops(&self) -> nat {
        0
    }

    open spec fn pushes(&self) -> nat {
        0
    }

    proof fn lemma_render_spaced(param: &Self) {
        reveal_strlit(" [");
        assert(param.render()[0] == ' ');
    }

    fn fmt_append(param: &Self, f: &mut String) {
        let ghost texts = truncated_each(param@);
        f.append(" [");
        let mut i: usize = 0;
        while i < param.len()
            invariant
                i <= param@.len(),
                texts == truncated_each(param@),
                f@ == old(f)@ + " ["@ + join_texts(texts.subrange(0, i as int)),
            decreases param@.len() - i,
        {
            proof {
                lemma_join_step(texts, i as int);
            }
            if i != 0 {
                f.append(", ");
            }
            param[i].fmt_truncated(f);
            i = i + 1;
            proof {
                assert(f@ =~= old(f)@ + " ["@ + join_texts(texts.subrange(0, i as int)));
            }
        }
        f.append("]");
        proof {
            assert(texts.subrange(0, param@.len() as int) =~= texts);
            assert(final(f)@ =~= old(f)@ + param.render());
        }
    }

    fn pops_stack(param: &Self) -> (r: u32) {
        0
    }

    fn pushes_stack(param: &Self) -> (r: u32) {
        0
    }
}

impl BcInstrArg for Vec<Hashed<FrozenValue>> {
    open spec fn render(&self) -> Seq<char> {
        " ["@ + join_texts(truncated_keys(self@)) + "]"@
    }

    open spec fn pops(&self) -> nat {
        0
    }

    open spec fn pushes(&self) -> nat {
        0
    }

    proof fn lemma_render_spaced(param: &Self) {
        reveal_strlit(" [");
        assert(param.render()[0] == ' ');
    }

    fn fmt_append(param: &Self, f: &mut String) {
        let ghost texts = truncated_keys(param@);
        f.append(" [");
        let mut i: usize = 0;
        while i < param.len()
            invariant
                i <= param@.len(),
                texts == truncated_keys(param@),
                f@ == old(f)@ + " ["@ + join_texts(texts.subrange(0, i as int)),
            decreases param@.len() - i,
        {
            proof {
                lemma_join_step(texts, i as int);
            }
            if i != 0 {
                f.append(", ");
            }
            param[i].key().fmt_truncated(f);
            i = i + 1;
            proof {
                assert(f@ =~= old(f)@ + " ["@ + join_texts(texts.subrange(0, i as int)));
            }
        }
        f.append("]");
        proof {
            assert(texts.subrange(0, param@.len() as int) =~= texts);
            assert(final(f)@ =~= old(f)@ + param.render());
        }
    }

    fn pops_stack(param: &Self) -> (r: u32) {
        0
    }

    fn pushes_stack(param: &Self) -> (r: u32) {
        0
    }
}

impl BcInstrArg for SmallMap<FrozenValue, FrozenValue> {
    open spec fn render(&self) -> Seq<char> {
        " {"@ + join_texts(truncated_entries(self@)) + "}"@
    }

    open spec fn pops(&self) -> nat {
        0
    }

    open spec fn pushes(&self) -> nat {
        0
    }

    proof fn lemma_render_spaced(param: &Self) {
        reveal_strlit(" {");
        assert(param.render()[0] == ' ');
    }

    fn fmt_append(param: &Self, f: &mut String) {
        let ghost texts = truncated_entries(param@);
        f.append(" {");
        let mut i: usize = 0;
        while i < param.len()
            invariant
                i <= param@.len(),
                texts == truncated_entries(param@),
                f@ == old(f)@ + " {"@ + join_texts(texts.subrange(0, i as int)),
            decreases param@.len() - i,
        {
            proof {
                lemma_join_step(texts, i as int);
            }
            if i != 0 {
                f.append(", ");
            }
            let (k, v) = param.get_index(i).unwrap();
            k.fmt_truncated(f);
            f.append(": ");
            v.fmt_truncated(f);
            i = i + 1;
            proof {
                assert(f@ =~= old(f)@ + " {"@ + join_texts(texts.subrange(0, i as int)));
            }
        }
        f.append("}");
        proof {
            assert(texts.subrange(0, param@.len() as int) =~= texts);
            assert(final(f)@ =~= old(f)@ + param.render());
        }
    }

    fn pops_stack(param: &Self) -> (r: u32) {
        0
    }

    fn pushes_stack(param: &Self) -> (r: u32) {
        0
    }
}

/// What a listing shows of the shape of a call's arguments, inside braces.
pub open spec fn args_text(a: ArgsCompiledValueBc) -> Seq<char> {
    decimal(a.pos_named as nat) + (if a.args {
        " *args"@
    } else {
        Seq::empty()
    }) + (if a.kwargs {
        " **kwargs"@
    } else {
        Seq::empty()
    })
}

/// A call pops each positional and named argument, and `*args` and `**kwargs` where
/// it passes them.
impl BcInstrArg for ArgsCompiledValueBc {
    open spec fn render(&self) -> Seq<char> {
        " {"@ + args_text(*self) + "}"@
    }

    open spec fn pops(&self) -> nat {
        self.pos_named as nat + (if self.args {
            1nat
        } else {
            0nat
        }) + (if self.kwargs {
            1nat
        } else {
            0nat
        })
    }

    open spec fn pushes(&self) -> nat {
        0
    }

    proof fn lemma_render_spaced(param: &Self) {
        reveal_strlit(" {");
        assert(param.render()[0] == ' ');
    }

    fn fmt_append(param: &Self, f: &mut String) {
        f.append(" {");
        push_decimal(f, param.pos_named);
        if param.args {
            f.append(" *args");
        }
        if param.kwargs {
            f.append(" **kwargs");
        }
        f.append("}");
        proof {
            assert(final(f)@ =~= old(f)@ + param.render());
        }
    }

    fn pops_stack(param: &Self) -> (r: u32) {
        param.pos_named + if param.args {
            1
        } else {
            0
        } + if param.kwargs {
            1
        } else {
            0
        }
    }

    fn pushes_stack(param: &Self) -> (r: u32) {
        0
    }
}

} // verus!

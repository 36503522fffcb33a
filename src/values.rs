use vstd::prelude::*;
use vstd::utf8::encode_utf8;

use crate::equivalent::{byte_words, bytes_equal, hash_bytes, Equivalent, StarlarkHashKey};
use crate::hash_value::StarlarkHashValue;

verus! {

/// Longest textual form of a value that a listing shows in full.
pub const MAX_REPR_LEN: usize = 100;

/// How a listing shows a value: its textual form where that is at most
/// [`MAX_REPR_LEN`] characters long, else its type name in angle brackets.
pub open spec fn truncated_repr(repr: Seq<char>, kind: Seq<char>) -> Seq<char> {
    if repr.len() > MAX_REPR_LEN {
        "<"@ + kind + ">"@
    } else {
        repr
    }
}

/// A handle to a frozen value, as far as this layer reads it: its textual form
/// and the name of its type.
#[derive(Clone, Debug)]
pub struct FrozenValue {
    repr: String,
    kind: String,
}

impl FrozenValue {
    /// The textual form.
    pub closed spec fn spec_repr(&self) -> Seq<char> {
        self.repr@
    }

    /// The type name.
    pub closed spec fn spec_type(&self) -> Seq<char> {
        self.kind@
    }

    /// How a listing shows the value.
    pub open spec fn spec_truncated(&self) -> Seq<char> {
        truncated_repr(self.spec_repr(), self.spec_type())
    }

    /// A value with the given textual form and type name.
    pub fn new(repr: String, kind: String) -> (r: FrozenValue)
        ensures
            r.spec_repr() == repr@,
            r.spec_type() == kind@,
    {
        FrozenValue { repr, kind }
    }

    /// The textual form.
    pub fn to_repr(&self) -> (r: &str)
        ensures
            r@ == self.spec_repr(),
    {
        self.repr.as_str()
    }

    /// The type name.
    pub fn get_type(&self) -> (r: &str)
        ensures
            r@ == self.spec_type(),
    {
        self.kind.as_str()
    }

    /// Append the value as a listing shows it: the textual form, or the type name in
    /// angle brackets where the textual form is longer than [`MAX_REPR_LEN`] characters.
    pub fn fmt_truncated(&self, f: &mut String)
        ensures
            final(f)@ == old(f)@ + self.spec_truncated(),
    {
        if self.repr.as_str().unicode_len() > MAX_REPR_LEN {
            f.append("<");
            f.append(self.kind.as_str());
            f.append(">");
        } else {
            f.append(self.repr.as_str());
        }
        proof {
            assert(final(f)@ =~= old(f)@ + self.spec_truncated());
        }
    }
}

/// A value whose textual form is longer than [`MAX_REPR_LEN`] characters shows as its
/// type name alone, in angle brackets; any other value shows its whole textual form.
pub proof fn lemma_truncation(v: FrozenValue)
    ensures
        v.spec_repr().len() > MAX_REPR_LEN ==> v.spec_truncated() == "<"@ + v.spec_type() + ">"@,
        v.spec_repr().len() <= MAX_REPR_LEN ==> v.spec_truncated() == v.spec_repr(),
{
}

/// Frozen values stand as keys of literal maps: two values are the same key when
/// their textual forms agree.
impl StarlarkHashKey for FrozenValue {
    open spec fn key_words(&self) -> Seq<u32> {
        byte_words(encode_utf8(self.spec_repr()))
    }

    fn hash_key(&self) -> (r: StarlarkHashValue) {
        hash_bytes(self.repr.as_str().as_bytes())
    }
}

impl Equivalent<FrozenValue> for FrozenValue {
    fn equivalent(&self, key: &FrozenValue) -> (r: bool) {
        bytes_equal(self.repr.as_str().as_bytes(), key.repr.as_str().as_bytes())
    }
}

/// A frozen value known to be a string.
#[derive(Clone, Debug)]
pub struct FrozenStringValue(pub FrozenValue);

impl FrozenStringValue {
    /// The value itself.
    pub fn unpack(&self) -> (r: &FrozenValue)
        ensures
            *r == self.0,
    {
        &self.0
    }
}

/// A frozen value known to be of a given kind.
#[derive(Clone, Debug)]
pub struct FrozenValueTyped(pub FrozenValue);

impl FrozenValueTyped {
    /// The value itself.
    pub fn to_frozen_value(&self) -> (r: &FrozenValue)
        ensures
            *r == self.0,
    {
        &self.0
    }
}

/// A slot of a function's local variables.
#[derive(Clone, Copy, Debug, PartialEq, Eq, Structural)]
pub struct LocalSlotId(pub u32);

/// A slot of a module's variables.
#[derive(Clone, Copy, Debug, PartialEq, Eq, Structural)]
pub struct ModuleSlotId(pub u32);

/// An address in a bytecode buffer.
#[derive(Clone, Copy, Debug, PartialEq, Eq, Structural)]
pub struct BcAddr(pub u32);

/// A forward offset between two addresses in a bytecode buffer.
#[derive(Clone, Copy, Debug, PartialEq, Eq, Structural)]
pub struct BcAddrOffset(pub u32);

/// A range of byte offsets in the source.
#[derive(Clone, Copy, Debug, PartialEq, Eq, Structural)]
pub struct Span {
    begin: u32,
    end: u32,
}

impl Span {
    /// First offset.
    pub closed spec fn spec_begin(&self) -> u32 {
        self.begin
    }

    /// Offset just past the end.
    pub closed spec fn spec_end(&self) -> u32 {
        self.end
    }

    /// The range from `begin` to `end`.
    pub fn new(begin: u32, end: u32) -> (r: Span)
        requires
            begin <= end,
        ensures
            r.spec_begin() == begin,
            r.spec_end() == end,
    {
        Span { begin, end }
    }

    /// First offset.
    pub fn begin(&self) -> (r: u32)
        ensures
            r == self.spec_begin(),
    {
        self.begin
    }

    /// Offset just past the end.
    pub fn end(&self) -> (r: u32)
        ensures
            r == self.spec_end(),
    {
        self.end
    }
}

/// An interned identifier.
#[derive(Clone, Debug)]
pub struct Symbol(String);

impl Symbol {
    /// The name.
    pub closed spec fn spec_str(&self) -> Seq<char> {
        self.0@
    }

    /// The symbol of a name.
    pub fn new(s: &str) -> (r: Symbol)
        ensures
            r.spec_str() == s@,
    {
        Symbol(String::from_str(s))
    }

    /// The name.
    pub fn as_str(&self) -> (r: &str)
        ensures
            r@ == self.spec_str(),
    {
        self.0.as_str()
    }
}

/// The shape of the arguments of a compiled call: how many positional and named
/// arguments it passes, and whether it passes `*args` and `**kwargs`.
#[derive(Clone, Copy, Debug, PartialEq, Eq, Structural)]
pub struct ArgsCompiledValueBc {
    pub pos_named: u32,
    pub args: bool,
    pub kwargs: bool,
}

} // verus!

//! Decoder for the Erlang external term format: a one-byte version marker
//! followed by a tag-prefixed, recursively nested payload.
//!
//! The wire format itself is written down as a family of spec functions
//! (`format`), and the executable decoder (`decoding`) is proved to return
//! exactly what those spec functions say, for every input.

use vstd::prelude::*;

pub mod constants;
pub mod conversions;
pub mod decoding;
pub mod format;
pub mod numerical;

use crate::decoding::Decoder;
use crate::format::spec_decode;

verus! {

/// The ways a decode can fail.
#[derive(Debug, Clone, Copy, PartialEq, Eq, Structural)]
pub enum DecodingError {
    /// The tag byte is not in the dispatch table.
    UnrecognizedTag { tag: u8 },
    /// A data type marker byte holds an unknown value.
    UnrecognizedType { value: u8 },
    /// The input ended early, or a text payload was not valid for its encoding.
    DecodingFailure,
    /// A nested term decoded, but is not of the shape its container requires.
    CompoundTypeDecodingFailure,
    /// The leading version byte is not the supported one.
    UnsupportedVersion { version: u8 },
    /// Any other failure.
    Other,
}

pub type DecodingResult = Result<ErlTerm, DecodingError>;

/// A decoded term: one variant of the tagged union is active at a time.
///
/// Compound variants own their children outright; the value is a strict tree.
#[derive(Debug, PartialEq, Eq, Hash)]
pub enum ErlTerm {
    Atom(String),
    SmallInteger(u8),
    Integer(i32),
    BigInteger(BigInteger),
    /// A 64-bit IEEE double, held as its bit pattern (big-endian on the wire).
    Float(u64),
    BitBinary(Vec<u8>, u8),
    Binary(Vec<u8>),
    Pid(ErlPid),
    V3Port(ErlV3Port),
    V4Port(ErlV4Port),
    Tuple(Tuple),
    List(List),
    ImproperList(ImproperList),
    Ref(Ref),
    ExternalFun(ExternalFun),
    InternalFun(InternalFun),
}

/// An interned-style symbolic name.
#[derive(Debug, PartialEq, Eq, Hash, Clone)]
pub struct Atom {
    pub name: String,
}

/// An arbitrary-precision signed integer in sign-magnitude form.
///
/// The magnitude is held least-significant byte first, as on the wire, and is
/// kept normalized: no most-significant zero byte, and zero is never negative.
#[derive(Debug, PartialEq, Eq, Hash, Clone)]
pub struct BigInteger {
    pub negative: bool,
    pub magnitude: Vec<u8>,
}

/// A byte sequence whose final byte carries only `num_of_trailing_bits` bits.
#[derive(Debug, PartialEq, Eq, Hash, Clone)]
pub struct BitBinary {
    pub bytes: Vec<u8>,
    pub num_of_trailing_bits: u8,
}

/// A process identifier.
#[derive(Debug, PartialEq, Eq, Hash, Clone)]
pub struct ErlPid {
    pub node: Atom,
    pub id: u32,
    pub serial: u32,
    pub creation: u32,
}

/// A legacy/local port identifier.
#[derive(Debug, PartialEq, Eq, Hash, Clone)]
pub struct ErlV3Port {
    pub node: Atom,
    pub id: u32,
    pub creation: u32,
}

/// A wide port identifier.
#[derive(Debug, PartialEq, Eq, Hash, Clone)]
pub struct ErlV4Port {
    pub node: Atom,
    pub id: u64,
    pub creation: u32,
}

/// A fixed-arity, order-significant grouping of terms.
#[derive(Debug, PartialEq, Eq, Hash)]
pub struct Tuple {
    pub elements: Vec<ErlTerm>,
}

/// A proper list: its implicit tail is always the empty list.
#[derive(Debug, PartialEq, Eq, Hash)]
pub struct List {
    pub elements: Vec<ErlTerm>,
}

/// A list whose tail is some non-nil term.
#[derive(Debug, PartialEq, Eq, Hash)]
pub struct ImproperList {
    pub elements: Vec<ErlTerm>,
    pub tail: Box<ErlTerm>,
}

/// An opaque multi-word runtime identifier.
#[derive(Debug, PartialEq, Eq, Hash, Clone)]
pub struct Ref {
    pub node: Atom,
    pub creation: u32,
    pub id: Vec<u32>,
}

/// An exported-function reference: module, function name and arity.
#[derive(Debug, PartialEq, Eq, Hash, Clone)]
pub struct ExternalFun {
    pub module: Atom,
    pub function_name: Atom,
    pub arity: u8,
}

/// A closure descriptor with its captured values.
#[derive(Debug, PartialEq, Eq, Hash)]
pub struct InternalFun {
    pub arity: u8,
    pub uniq_beam_md5: [u8; 16],
    pub index: u32,
    pub free_variable_count: u32,
    pub module: Atom,
    pub old_index: i32,
    pub old_uniq_hash: i32,
    pub creator_pid: ErlPid,
    pub free_vars: Vec<ErlTerm>,
}

/// The mathematical value of a decoded term.
pub enum TermV {
    Atom(Seq<char>),
    SmallInteger(u8),
    Integer(i32),
    BigInteger(int),
    Float(u64),
    BitBinary(Seq<u8>, u8),
    Binary(Seq<u8>),
    Pid(PidV),
    V3Port(V3PortV),
    V4Port(V4PortV),
    Tuple(Seq<TermV>),
    List(Seq<TermV>),
    ImproperList(Seq<TermV>, Box<TermV>),
    Ref(RefV),
    ExternalFun(ExternalFunV),
    InternalFun(InternalFunV),
}

/// The mathematical value of a process identifier.
pub struct PidV {
    pub node: Seq<char>,
    pub id: u32,
    pub serial: u32,
    pub creation: u32,
}

/// The mathematical value of a legacy/local port identifier.
pub struct V3PortV {
    pub node: Seq<char>,
    pub id: u32,
    pub creation: u32,
}

/// The mathematical value of a wide port identifier.
pub struct V4PortV {
    pub node: Seq<char>,
    pub id: u64,
    pub creation: u32,
}

/// The mathematical value of a runtime reference.
pub struct RefV {
    pub node: Seq<char>,
    pub creation: u32,
    pub id: Seq<u32>,
}

/// The mathematical value of an exported-function reference.
pub struct ExternalFunV {
    pub module: Seq<char>,
    pub function_name: Seq<char>,
    pub arity: u8,
}

/// The mathematical value of a closure descriptor.
pub struct InternalFunV {
    pub arity: u8,
    pub uniq_beam_md5: Seq<u8>,
    pub index: u32,
    pub free_variable_count: u32,
    pub module: Seq<char>,
    pub old_index: i32,
    pub old_uniq_hash: i32,
    pub creator_pid: PidV,
    pub free_vars: Seq<TermV>,
}

impl DeepView for Atom {
    type V = Seq<char>;

    open spec fn deep_view(&self) -> Seq<char> {
        self.name@
    }
}

impl BigInteger {
    /// The signed integer this value stands for.
    pub open spec fn value(self) -> int {
        if self.negative {
            -(crate::format::le_magnitude_value(self.magnitude@) as int)
        } else {
            crate::format::le_magnitude_value(self.magnitude@) as int
        }
    }

    /// The magnitude carries no most-significant zero byte, and zero is
    /// never marked negative.
    pub open spec fn wf(self) -> bool {
        &&& (self.magnitude@.len() > 0 ==> self.magnitude@.last() != 0)
        &&& (self.magnitude@.len() == 0 ==> !self.negative)
    }
}

impl DeepView for BigInteger {
    type V = int;

    open spec fn deep_view(&self) -> int {
        self.value()
    }
}

impl DeepView for ErlPid {
    type V = PidV;

    open spec fn deep_view(&self) -> PidV {
        PidV {
            node: self.node.deep_view(),
            id: self.id,
            serial: self.serial,
            creation: self.creation,
        }
    }
}

impl DeepView for ErlV3Port {
    type V = V3PortV;

    open spec fn deep_view(&self) -> V3PortV {
        V3PortV { node: self.node.deep_view(), id: self.id, creation: self.creation }
    }
}

impl DeepView for ErlV4Port {
    type V = V4PortV;

    open spec fn deep_view(&self) -> V4PortV {
        V4PortV { node: self.node.deep_view(), id: self.id, creation: self.creation }
    }
}

impl DeepView for Ref {
    type V = RefV;

    open spec fn deep_view(&self) -> RefV {
        RefV { node: self.node.deep_view(), creation: self.creation, id: self.id@ }
    }
}

impl DeepView for ExternalFun {
    type V = ExternalFunV;

    open spec fn deep_view(&self) -> ExternalFunV {
        ExternalFunV {
            module: self.module.deep_view(),
            function_name: self.function_name.deep_view(),
            arity: self.arity,
        }
    }
}

/// The value a term stands for.
pub open spec fn term_view(t: ErlTerm) -> TermV
    decreases t,
{
    match t {
        ErlTerm::Atom(name) => TermV::Atom(name@),
        ErlTerm::SmallInteger(i) => TermV::SmallInteger(i),
        ErlTerm::Integer(i) => TermV::Integer(i),
        ErlTerm::BigInteger(b) => TermV::BigInteger(b.value()),
        ErlTerm::Float(bits) => TermV::Float(bits),
        ErlTerm::BitBinary(bytes, tail) => TermV::BitBinary(bytes@, tail),
        ErlTerm::Binary(bytes) => TermV::Binary(bytes@),
        ErlTerm::Pid(p) => TermV::Pid(p.deep_view()),
        ErlTerm::V3Port(p) => TermV::V3Port(p.deep_view()),
        ErlTerm::V4Port(p) => TermV::V4Port(p.deep_view()),
        ErlTerm::Tuple(tp) => TermV::Tuple(terms_view(tp.elements@)),
        ErlTerm::List(l) => TermV::List(terms_view(l.elements@)),
        ErlTerm::ImproperList(l) => TermV::ImproperList(
            terms_view(l.elements@),
            Box::new(term_view(*l.tail)),
        ),
        ErlTerm::Ref(r) => TermV::Ref(r.deep_view()),
        ErlTerm::ExternalFun(f) => TermV::ExternalFun(f.deep_view()),
        ErlTerm::InternalFun(f) => TermV::InternalFun(
            InternalFunV {
                arity: f.arity,
                uniq_beam_md5: f.uniq_beam_md5@,
                index: f.index,
                free_variable_count: f.free_variable_count,
                module: f.module.deep_view(),
                old_index: f.old_index,
                old_uniq_hash: f.old_uniq_hash,
                creator_pid: f.creator_pid.deep_view(),
                free_vars: terms_view(f.free_vars@),
            },
        ),
    }
}

/// The values a sequence of terms stands for, element by element.
pub open spec fn terms_view(s: Seq<ErlTerm>) -> Seq<TermV>
    decreases s,
{
    if s.len() == 0 {
        Seq::empty()
    } else {
        seq![term_view(s[0])] + terms_view(s.subrange(1, s.len() as int))
    }
}

/// A term sequence's view holds one value per term.
pub proof fn lemma_terms_view_len(s: Seq<ErlTerm>)
    ensures
        terms_view(s).len() == s.len(),
    decreases s.len(),
{
    if s.len() != 0 {
        lemma_terms_view_len(s.subrange(1, s.len() as int));
    }
}

/// Appending one term appends its value to the view.
pub proof fn lemma_terms_view_push(s: Seq<ErlTerm>, t: ErlTerm)
    ensures
        terms_view(s.push(t)) == terms_view(s) + seq![term_view(t)],
    decreases s.len(),
{
    let p = s.push(t);
    if s.len() == 0 {
        assert(p[0] == t);
        assert(p.subrange(1, p.len() as int) =~= Seq::<ErlTerm>::empty());
        assert(terms_view(p.subrange(1, p.len() as int)) =~= Seq::<TermV>::empty());
        assert(terms_view(s) =~= Seq::<TermV>::empty());
        assert(terms_view(p) =~= terms_view(s) + seq![term_view(t)]);
    } else {
        let s1 = s.subrange(1, s.len() as int);
        assert(p[0] == s[0]);
        assert(p.subrange(1, p.len() as int) =~= s1.push(t));
        lemma_terms_view_push(s1, t);
        assert(terms_view(p) == seq![term_view(p[0])] + terms_view(p.subrange(1, p.len() as int)));
        assert(terms_view(s) == seq![term_view(s[0])] + terms_view(s1));
        assert(terms_view(p) =~= terms_view(s) + seq![term_view(t)]);
    }
}

impl DeepView for ErlTerm {
    type V = TermV;

    open spec fn deep_view(&self) -> TermV {
        term_view(*self)
    }
}

impl DeepView for Tuple {
    type V = Seq<TermV>;

    open spec fn deep_view(&self) -> Seq<TermV> {
        terms_view(self.elements@)
    }
}

impl DeepView for List {
    type V = Seq<TermV>;

    open spec fn deep_view(&self) -> Seq<TermV> {
        terms_view(self.elements@)
    }
}

impl Tuple {
    /// A tuple with no elements.
    pub fn empty() -> (r: Self)
        ensures
            r.deep_view() =~= Seq::<TermV>::empty(),
    {
        Tuple { elements: Vec::new() }
    }
}

impl List {
    /// The empty list.
    pub fn nil() -> (r: Self)
        ensures
            r.deep_view() =~= Seq::<TermV>::empty(),
    {
        Self::empty()
    }

    /// Whether this list has no elements.
    pub fn is_nil(&self) -> (r: bool)
        ensures
            r == (self.deep_view().len() == 0),
    {
        self.elements.len() == 0
    }

    /// A list with no elements.
    pub fn empty() -> (r: Self)
        ensures
            r.deep_view() =~= Seq::<TermV>::empty(),
    {
        List { elements: Vec::new() }
    }
}

/// The deep view of a decode's outcome: the term's value on success, the
/// error itself otherwise.
pub open spec fn result_view(r: DecodingResult) -> Result<TermV, DecodingError> {
    match r {
        Ok(t) => Ok(t.deep_view()),
        Err(e) => Err(e),
    }
}

impl ErlTerm {
    /// Decode one term from the given bytes. Trailing unread bytes are
    /// permitted; the first error anywhere in the recursion is returned.
    pub fn decode(input: Vec<u8>) -> (r: DecodingResult)
        ensures
            result_view(r) == spec_decode(input@),
    {
        Decoder::new(input).decode()
    }
}

} // verus!

//! Fallible narrowing from a generic term to one concrete shape.
//!
//! Pure ergonomics around the decoded value: each accessor either hands the
//! requested substructure out, or signals a mismatch.

use vstd::prelude::*;

use crate::format::narrow_to_i32;
use crate::format::narrow_to_u8;
use crate::Atom;
use crate::ErlPid;
use crate::ErlTerm;
use crate::ImproperList;
use crate::InternalFun;
use crate::List;
use crate::TermV;
use crate::Tuple;

verus! {

impl ErlTerm {
    /// The term as an atom, when it is one.
    pub fn try_into_atom(self) -> (r: Result<Atom, ()>)
        ensures
            self.deep_view() matches TermV::Atom(name) ==> (r matches Ok(a) && a.name@ == name),
            !(self.deep_view() matches TermV::Atom(_)) ==> r == Err::<Atom, ()>(()),
    {
        match self {
            ErlTerm::Atom(val) => Ok(Atom { name: val }),
            _ => Err(()),
        }
    }

    /// The term narrowed to an unsigned byte; accepts either integer form,
    /// keeping the low byte of a wide value.
    pub fn try_into_u8(self) -> (r: Result<u8, ()>)
        ensures
            match narrow_to_u8(self.deep_view()) {
                Some(v) => r == Ok::<u8, ()>(v),
                None => r == Err::<u8, ()>(()),
            },
    {
        match self {
            ErlTerm::SmallInteger(val) => Ok(val),
            ErlTerm::Integer(val) => {
                let wide: u64 = if val >= 0 {
                    val as u64
                } else {
                    proof {
                        vstd::arithmetic::div_mod::lemma_mod_multiples_vanish(
                            16777216,
                            val as int,
                            256,
                        );
                    }
                    ((val as i64) + 4294967296) as u64
                };
                Ok((wide % 256) as u8)
            },
            _ => Err(()),
        }
    }

    /// The term narrowed to a signed 32-bit value; accepts either integer
    /// form.
    pub fn try_into_i32(self) -> (r: Result<i32, ()>)
        ensures
            match narrow_to_i32(self.deep_view()) {
                Some(v) => r == Ok::<i32, ()>(v),
                None => r == Err::<i32, ()>(()),
            },
    {
        match self {
            ErlTerm::SmallInteger(val) => Ok(val as i32),
            ErlTerm::Integer(val) => Ok(val),
            _ => Err(()),
        }
    }

    /// The term as a process identifier, when it is one.
    pub fn try_into_pid(self) -> (r: Result<ErlPid, ()>)
        ensures
            self.deep_view() matches TermV::Pid(p) ==> (r matches Ok(pid) && pid.deep_view()
                == p),
            !(self.deep_view() matches TermV::Pid(_)) ==> r == Err::<ErlPid, ()>(()),
    {
        match self {
            ErlTerm::Pid(val) => Ok(val),
            _ => Err(()),
        }
    }

    /// The term as a tuple, when it is one.
    pub fn try_into_tuple(self) -> (r: Result<Tuple, ()>)
        ensures
            self.deep_view() matches TermV::Tuple(es) ==> (r matches Ok(t) && t.deep_view()
                == es),
            !(self.deep_view() matches TermV::Tuple(_)) ==> r == Err::<Tuple, ()>(()),
    {
        match self {
            ErlTerm::Tuple(val) => Ok(Tuple { elements: val.elements }),
            _ => Err(()),
        }
    }

    /// The term as a proper list, when it is one.
    pub fn try_into_list(self) -> (r: Result<List, ()>)
        ensures
            self.deep_view() matches TermV::List(es) ==> (r matches Ok(l) && l.deep_view() == es),
            !(self.deep_view() matches TermV::List(_)) ==> r == Err::<List, ()>(()),
    {
        match self {
            ErlTerm::List(val) => Ok(List { elements: val.elements }),
            _ => Err(()),
        }
    }

    /// The term as an improper list, when it is one.
    pub fn try_into_improper_list(self) -> (r: Result<ImproperList, ()>)
        ensures
            self.deep_view() matches TermV::ImproperList(es, tail) ==> (r matches Ok(l)
                && crate::terms_view(l.elements@) == es && crate::term_view(*l.tail) == *tail),
            !(self.deep_view() matches TermV::ImproperList(_, _)) ==> r == Err::<
                ImproperList,
                (),
            >(()),
    {
        match self {
            ErlTerm::ImproperList(val) => Ok(
                ImproperList { elements: val.elements, tail: val.tail },
            ),
            _ => Err(()),
        }
    }

    /// The term as a closure descriptor, when it is one.
    pub fn try_into_internal_fun(self) -> (r: Result<InternalFun, ()>)
        ensures
            self.deep_view() matches TermV::InternalFun(f) ==> (r matches Ok(v) && (
            ErlTerm::InternalFun(v)).deep_view() == TermV::InternalFun(f)),
            !(self.deep_view() matches TermV::InternalFun(_)) ==> r == Err::<InternalFun, ()>(()),
    {
        match self {
            ErlTerm::InternalFun(val) => Ok(val),
            _ => Err(()),
        }
    }
}

impl From<Atom> for ErlTerm {
    /// An atom, as a term.
    fn from(val: Atom) -> (r: ErlTerm) {
        ErlTerm::Atom(val.name)
    }
}

impl vstd::std_specs::convert::FromSpecImpl<Atom> for ErlTerm {
    open spec fn obeys_from_spec() -> bool {
        true
    }

    open spec fn from_spec(val: Atom) -> ErlTerm {
        ErlTerm::Atom(val.name)
    }
}

impl From<String> for ErlTerm {
    /// A string, as an atom term.
    fn from(val: String) -> (r: ErlTerm) {
        ErlTerm::Atom(val)
    }
}

impl vstd::std_specs::convert::FromSpecImpl<String> for ErlTerm {
    open spec fn obeys_from_spec() -> bool {
        true
    }

    open spec fn from_spec(val: String) -> ErlTerm {
        ErlTerm::Atom(val)
    }
}

impl From<&str> for ErlTerm {
    /// A string slice, as an atom term.
    fn from(val: &str) -> (r: ErlTerm) {
        ErlTerm::Atom(val.to_owned())
    }
}

impl vstd::std_specs::convert::FromSpecImpl<&str> for ErlTerm {
    open spec fn obeys_from_spec() -> bool {
        false
    }

    open spec fn from_spec(val: &str) -> ErlTerm {
        arbitrary()
    }
}

} // verus!

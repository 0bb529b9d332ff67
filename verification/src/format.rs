//! The wire format, written down as spec functions.
//!
//! `spec_decode` says, for every byte sequence, exactly which term (or which
//! error) a decode must produce. The executable decoder is proved against it.
//! A term's encoding is a tag byte followed by a tag-specific payload; all
//! multi-byte integer fields are big-endian except big-integer magnitudes,
//! which are least-significant byte first.

use vstd::prelude::*;

use crate::constants;
use crate::DecodingError;
use crate::ExternalFunV;
use crate::InternalFunV;
use crate::PidV;
use crate::RefV;
use crate::TermV;
use crate::V3PortV;
use crate::V4PortV;

verus! {

/// The characters that the legacy single-byte codepage (an ASCII superset
/// with accented Western characters) assigns to a byte sequence, one
/// character per byte. Named, not written out: only the trusted text
/// wrapper says anything about it.
pub uninterp spec fn win1252_of(bytes: Seq<u8>) -> Seq<char>;

/// The characters a byte sequence holds when read as UTF-8, or `None` when
/// it is not valid UTF-8. Named, not written out: only the trusted text
/// wrapper says anything about it.
pub uninterp spec fn utf8_of(bytes: Seq<u8>) -> Option<Seq<char>>;

/// Big-endian 16-bit value at offset `k`.
pub open spec fn be_u16(s: Seq<u8>, k: int) -> u16 {
    (s[k] * 0x100 + s[k + 1]) as u16
}

/// Big-endian 32-bit value at offset `k`.
pub open spec fn be_u32(s: Seq<u8>, k: int) -> u32 {
    (s[k] * 0x1000000 + s[k + 1] * 0x10000 + s[k + 2] * 0x100 + s[k + 3]) as u32
}

/// Big-endian 64-bit value at offset `k`.
pub open spec fn be_u64(s: Seq<u8>, k: int) -> u64 {
    (s[k] * 0x100000000000000 + s[k + 1] * 0x1000000000000 + s[k + 2] * 0x10000000000
        + s[k + 3] * 0x100000000 + s[k + 4] * 0x1000000 + s[k + 5] * 0x10000 + s[k + 6] * 0x100
        + s[k + 7]) as u64
}

/// Big-endian 32-bit two's-complement value at offset `k`.
pub open spec fn be_i32(s: Seq<u8>, k: int) -> i32 {
    if be_u32(s, k) < 0x80000000 {
        be_u32(s, k) as i32
    } else {
        (be_u32(s, k) - 0x100000000) as i32
    }
}

/// The value of a magnitude held least-significant byte first.
pub open spec fn le_magnitude_value(s: Seq<u8>) -> nat
    decreases s.len(),
{
    if s.len() == 0 {
        0
    } else {
        (s[0] as nat) + 0x100 * le_magnitude_value(s.skip(1))
    }
}

/// A magnitude with the given wire sign byte applied (0 positive, 1 negative).
pub open spec fn signed_value(sign: u8, magnitude: nat) -> int {
    if sign == 1 {
        -(magnitude as int)
    } else {
        magnitude as int
    }
}

/// The low byte of a 32-bit value, as the integer-to-byte narrowing keeps it.
pub open spec fn low_byte(v: i32) -> u8 {
    ((v as int) % 0x100) as u8
}

/// A word read at the head of a suffix is the word at that offset.
pub proof fn lemma_be_u32_skip(s: Seq<u8>, k: int)
    requires
        0 <= k,
        k + 4 <= s.len(),
    ensures
        be_u32(s.skip(k), 0) == be_u32(s, k),
{
    assert(s.skip(k)[0] == s[k]);
    assert(s.skip(k)[1] == s[k + 1]);
    assert(s.skip(k)[2] == s[k + 2]);
    assert(s.skip(k)[3] == s[k + 3]);
}

/// The suffix of `s` from offset `k`, empty when `k` is out of range.
///
/// Recursive decodes report how much they consumed; this keeps the
/// continuation well-defined (and the recursion well-founded) without first
/// proving that the reported amount is in range.
pub open spec fn tail_of(s: Seq<u8>, k: int) -> Seq<u8> {
    if 0 <= k <= s.len() {
        s.skip(k)
    } else {
        Seq::empty()
    }
}

/// Whether a byte is in the tag dispatch table.
pub open spec fn tag_known(tag: u8) -> bool {
    ||| tag == constants::ATOM_EXT
    ||| tag == constants::ATOM_UTF8_EXT
    ||| tag == constants::SMALL_ATOM_UTF8_EXT
    ||| tag == constants::SMALL_INTEGER_EXT
    ||| tag == constants::INTEGER_EXT
    ||| tag == constants::SMALL_BIG_EXT
    ||| tag == constants::LARGE_BIG_EXT
    ||| tag == constants::NEW_FLOAT_EXT
    ||| tag == constants::BINARY_EXT
    ||| tag == constants::BIT_BINARY_EXT
    ||| tag == constants::NEW_PID_EXT
    ||| tag == constants::NEW_PORT_EXT
    ||| tag == constants::V4_PORT_EXT
    ||| tag == constants::SMALL_TUPLE_EXT
    ||| tag == constants::LARGE_TUPLE_EXT
    ||| tag == constants::NIL_EXT
    ||| tag == constants::LIST_EXT
    ||| tag == constants::NEWER_REFERENCE_EXT
    ||| tag == constants::FUN_EXPORT_EXT
    ||| tag == constants::NEW_FUN_EXT
}

/// Decode of a whole input: version byte, then one tagged term. Trailing
/// bytes are permitted and ignored.
pub open spec fn spec_decode(s: Seq<u8>) -> Result<TermV, DecodingError> {
    if s.len() < 1 {
        Err(DecodingError::DecodingFailure)
    } else if s[0] != constants::TERM_FORMAT_VERSION {
        Err(DecodingError::UnsupportedVersion { version: s[0] })
    } else {
        match spec_term(s.skip(1)) {
            Ok((t, _)) => Ok(t),
            Err(e) => Err(e),
        }
    }
}

/// Decode of one tagged term at the head of `s`: the tag byte, then its
/// payload. On success the count of consumed bytes (tag included) is
/// returned beside the term.
pub open spec fn spec_term(s: Seq<u8>) -> Result<(TermV, int), DecodingError>
    decreases s.len(), 0int, 0int,
{
    if s.len() < 1 {
        Err(DecodingError::DecodingFailure)
    } else {
        match spec_tagged(s[0], s.skip(1)) {
            Ok((t, used)) => Ok((t, 1 + used)),
            Err(e) => Err(e),
        }
    }
}

/// Dispatch on a tag byte already read; `s` is the payload that follows it,
/// and the returned count covers the payload only.
pub open spec fn spec_tagged(tag: u8, s: Seq<u8>) -> Result<(TermV, int), DecodingError>
    decreases s.len(), 3int, 0int,
{
    if tag == constants::ATOM_EXT {
        spec_atom_ext(s)
    } else if tag == constants::ATOM_UTF8_EXT {
        spec_atom_utf8_ext(s)
    } else if tag == constants::SMALL_ATOM_UTF8_EXT {
        spec_small_atom_utf8_ext(s)
    } else if tag == constants::SMALL_INTEGER_EXT {
        spec_small_integer(s)
    } else if tag == constants::INTEGER_EXT {
        spec_integer(s)
    } else if tag == constants::SMALL_BIG_EXT {
        spec_small_big_integer(s)
    } else if tag == constants::LARGE_BIG_EXT {
        spec_large_big_integer(s)
    } else if tag == constants::NEW_FLOAT_EXT {
        spec_float(s)
    } else if tag == constants::BINARY_EXT {
        spec_binary(s)
    } else if tag == constants::BIT_BINARY_EXT {
        spec_bit_binary(s)
    } else if tag == constants::NEW_PID_EXT {
        spec_pid(s)
    } else if tag == constants::NEW_PORT_EXT {
        spec_v3_port(s)
    } else if tag == constants::V4_PORT_EXT {
        spec_v4_port(s)
    } else if tag == constants::SMALL_TUPLE_EXT {
        spec_small_tuple(s)
    } else if tag == constants::LARGE_TUPLE_EXT {
        spec_large_tuple(s)
    } else if tag == constants::NIL_EXT {
        Ok((TermV::List(Seq::empty()), 0))
    } else if tag == constants::LIST_EXT {
        spec_list(s)
    } else if tag == constants::NEWER_REFERENCE_EXT {
        spec_newer_reference(s)
    } else if tag == constants::FUN_EXPORT_EXT {
        spec_external_fun(s)
    } else if tag == constants::NEW_FUN_EXT {
        spec_internal_fun(s)
    } else {
        Err(DecodingError::UnrecognizedTag { tag })
    }
}

/// Legacy atom: 2-byte length, then that many codepage bytes. The codepage
/// assigns a character to every byte, so this cannot fail on text.
#[verifier::opaque]
pub open spec fn spec_atom_ext(s: Seq<u8>) -> Result<(TermV, int), DecodingError> {
    if s.len() < 2 {
        Err(DecodingError::DecodingFailure)
    } else {
        let n = be_u16(s, 0) as int;
        if s.len() < 2 + n {
            Err(DecodingError::DecodingFailure)
        } else {
            Ok((TermV::Atom(win1252_of(s.subrange(2, 2 + n))), 2 + n))
        }
    }
}

/// Modern atom: 2-byte length, then that many bytes of required UTF-8.
#[verifier::opaque]
pub open spec fn spec_atom_utf8_ext(s: Seq<u8>) -> Result<(TermV, int), DecodingError> {
    if s.len() < 2 {
        Err(DecodingError::DecodingFailure)
    } else {
        let n = be_u16(s, 0) as int;
        if s.len() < 2 + n {
            Err(DecodingError::DecodingFailure)
        } else {
            match utf8_of(s.subrange(2, 2 + n)) {
                Some(chars) => Ok((TermV::Atom(chars), 2 + n)),
                None => Err(DecodingError::DecodingFailure),
            }
        }
    }
}

/// Modern atom, short form: 1-byte length, then required UTF-8.
#[verifier::opaque]
pub open spec fn spec_small_atom_utf8_ext(s: Seq<u8>) -> Result<(TermV, int), DecodingError> {
    if s.len() < 1 {
        Err(DecodingError::DecodingFailure)
    } else {
        let n = s[0] as int;
        if s.len() < 1 + n {
            Err(DecodingError::DecodingFailure)
        } else {
            match utf8_of(s.subrange(1, 1 + n)) {
                Some(chars) => Ok((TermV::Atom(chars), 1 + n)),
                None => Err(DecodingError::DecodingFailure),
            }
        }
    }
}

/// One unsigned byte.
#[verifier::opaque]
pub open spec fn spec_small_integer(s: Seq<u8>) -> Result<(TermV, int), DecodingError> {
    if s.len() < 1 {
        Err(DecodingError::DecodingFailure)
    } else {
        Ok((TermV::SmallInteger(s[0]), 1))
    }
}

/// 4-byte big-endian signed integer.
#[verifier::opaque]
pub open spec fn spec_integer(s: Seq<u8>) -> Result<(TermV, int), DecodingError> {
    if s.len() < 4 {
        Err(DecodingError::DecodingFailure)
    } else {
        Ok((TermV::Integer(be_i32(s, 0)), 4))
    }
}

/// Big integer, 1-byte length: length, sign byte, then the magnitude bytes
/// least-significant first. A sign byte other than 0 or 1 is a failure.
#[verifier::opaque]
pub open spec fn spec_small_big_integer(s: Seq<u8>) -> Result<(TermV, int), DecodingError> {
    if s.len() < 2 {
        Err(DecodingError::DecodingFailure)
    } else {
        let n = s[0] as int;
        let sign = s[1];
        if s.len() < 2 + n {
            Err(DecodingError::DecodingFailure)
        } else if sign > 1 {
            Err(DecodingError::DecodingFailure)
        } else {
            Ok((
                TermV::BigInteger(signed_value(sign, le_magnitude_value(s.subrange(2, 2 + n)))),
                2 + n,
            ))
        }
    }
}

/// Big integer, 4-byte length; otherwise exactly the 1-byte-length form.
#[verifier::opaque]
pub open spec fn spec_large_big_integer(s: Seq<u8>) -> Result<(TermV, int), DecodingError> {
    if s.len() < 5 {
        Err(DecodingError::DecodingFailure)
    } else {
        let n = be_u32(s, 0) as int;
        let sign = s[4];
        if s.len() < 5 + n {
            Err(DecodingError::DecodingFailure)
        } else if sign > 1 {
            Err(DecodingError::DecodingFailure)
        } else {
            Ok((
                TermV::BigInteger(signed_value(sign, le_magnitude_value(s.subrange(5, 5 + n)))),
                5 + n,
            ))
        }
    }
}

/// 8-byte big-endian IEEE double, kept as its bit pattern.
#[verifier::opaque]
pub open spec fn spec_float(s: Seq<u8>) -> Result<(TermV, int), DecodingError> {
    if s.len() < 8 {
        Err(DecodingError::DecodingFailure)
    } else {
        Ok((TermV::Float(be_u64(s, 0)), 8))
    }
}

/// 4-byte length, then that many raw bytes.
#[verifier::opaque]
pub open spec fn spec_binary(s: Seq<u8>) -> Result<(TermV, int), DecodingError> {
    if s.len() < 4 {
        Err(DecodingError::DecodingFailure)
    } else {
        let n = be_u32(s, 0) as int;
        if s.len() < 4 + n {
            Err(DecodingError::DecodingFailure)
        } else {
            Ok((TermV::Binary(s.subrange(4, 4 + n)), 4 + n))
        }
    }
}

/// 4-byte length, 1-byte trailing-bit count, then the raw bytes; when any
/// bytes are present, the count must be 1 through 8, and the final byte is
/// shifted right so only its significant bits remain.
#[verifier::opaque]
pub open spec fn spec_bit_binary(s: Seq<u8>) -> Result<(TermV, int), DecodingError> {
    if s.len() < 5 {
        Err(DecodingError::DecodingFailure)
    } else {
        let n = be_u32(s, 0) as int;
        let trailing = s[4];
        if s.len() < 5 + n {
            Err(DecodingError::DecodingFailure)
        } else if n == 0 {
            Ok((TermV::BitBinary(Seq::empty(), trailing), 5))
        } else if 1 <= trailing <= 8 {
            let data = s.subrange(5, 5 + n);
            let shifted = data[n - 1] >> ((8 - trailing) as u8);
            Ok((TermV::BitBinary(data.update(n - 1, shifted), trailing), 5 + n))
        } else {
            Err(DecodingError::DecodingFailure)
        }
    }
}

/// Process identifier: a nested term that must be an atom (the node), then
/// id, serial and creation words.
pub open spec fn spec_pid(s: Seq<u8>) -> Result<(TermV, int), DecodingError>
    decreases s.len(), 2int, 0int,
{
    match spec_term(s) {
        Err(e) => Err(e),
        Ok((node, u)) => match node {
            TermV::Atom(name) => {
                let rest = tail_of(s, u);
                if rest.len() < 12 {
                    Err(DecodingError::DecodingFailure)
                } else {
                    Ok((
                        TermV::Pid(
                            PidV {
                                node: name,
                                id: be_u32(rest, 0),
                                serial: be_u32(rest, 4),
                                creation: be_u32(rest, 8),
                            },
                        ),
                        u + 12,
                    ))
                }
            },
            _ => Err(DecodingError::CompoundTypeDecodingFailure),
        },
    }
}

/// Legacy port identifier: node atom, then 32-bit id and creation.
pub open spec fn spec_v3_port(s: Seq<u8>) -> Result<(TermV, int), DecodingError>
    decreases s.len(), 2int, 0int,
{
    match spec_term(s) {
        Err(e) => Err(e),
        Ok((node, u)) => match node {
            TermV::Atom(name) => {
                let rest = tail_of(s, u);
                if rest.len() < 8 {
                    Err(DecodingError::DecodingFailure)
                } else {
                    Ok((
                        TermV::V3Port(
                            V3PortV { node: name, id: be_u32(rest, 0), creation: be_u32(rest, 4) },
                        ),
                        u + 8,
                    ))
                }
            },
            _ => Err(DecodingError::CompoundTypeDecodingFailure),
        },
    }
}

/// Wide port identifier: node atom, then 64-bit id and 32-bit creation.
pub open spec fn spec_v4_port(s: Seq<u8>) -> Result<(TermV, int), DecodingError>
    decreases s.len(), 2int, 0int,
{
    match spec_term(s) {
        Err(e) => Err(e),
        Ok((node, u)) => match node {
            TermV::Atom(name) => {
                let rest = tail_of(s, u);
                if rest.len() < 12 {
                    Err(DecodingError::DecodingFailure)
                } else {
                    Ok((
                        TermV::V4Port(
                            V4PortV { node: name, id: be_u64(rest, 0), creation: be_u32(rest, 8) },
                        ),
                        u + 12,
                    ))
                }
            },
            _ => Err(DecodingError::CompoundTypeDecodingFailure),
        },
    }
}

/// Tuple, 1-byte arity, then that many nested terms in order.
pub open spec fn spec_small_tuple(s: Seq<u8>) -> Result<(TermV, int), DecodingError>
    decreases s.len(), 2int, 0int,
{
    if s.len() < 1 {
        Err(DecodingError::DecodingFailure)
    } else {
        match spec_terms(s.skip(1), s[0] as int) {
            Ok((elements, u)) => Ok((TermV::Tuple(elements), 1 + u)),
            Err(e) => Err(e),
        }
    }
}

/// Tuple, 4-byte arity, then that many nested terms in order.
pub open spec fn spec_large_tuple(s: Seq<u8>) -> Result<(TermV, int), DecodingError>
    decreases s.len(), 2int, 0int,
{
    if s.len() < 4 {
        Err(DecodingError::DecodingFailure)
    } else {
        match spec_terms(s.skip(4), be_u32(s, 0) as int) {
            Ok((elements, u)) => Ok((TermV::Tuple(elements), 4 + u)),
            Err(e) => Err(e),
        }
    }
}

/// List: 4-byte element count, the elements, then one mandatory tail term.
/// A nil tail makes a proper list; any other tail, of whatever type, makes
/// an improper list carrying that tail.
pub open spec fn spec_list(s: Seq<u8>) -> Result<(TermV, int), DecodingError>
    decreases s.len(), 2int, 0int,
{
    if s.len() < 4 {
        Err(DecodingError::DecodingFailure)
    } else {
        match spec_terms(s.skip(4), be_u32(s, 0) as int) {
            Err(e) => Err(e),
            Ok((elements, u)) => match spec_term(tail_of(s, 4 + u)) {
                Err(e) => Err(e),
                Ok((tail, u2)) => {
                    if tail matches TermV::List(es) && es.len() == 0 {
                        Ok((TermV::List(elements), 4 + u + u2))
                    } else {
                        Ok((TermV::ImproperList(elements, Box::new(tail)), 4 + u + u2))
                    }
                },
            },
        }
    }
}

/// Reference: 2-byte word count, node atom, creation, then that many
/// 32-bit id words in order.
pub open spec fn spec_newer_reference(s: Seq<u8>) -> Result<(TermV, int), DecodingError>
    decreases s.len(), 2int, 0int,
{
    if s.len() < 2 {
        Err(DecodingError::DecodingFailure)
    } else {
        let arity = be_u16(s, 0) as int;
        match spec_term(s.skip(2)) {
            Err(e) => Err(e),
            Ok((node, u)) => match node {
                TermV::Atom(name) => {
                    let rest = tail_of(s, 2 + u);
                    if rest.len() < 4 + 4 * arity {
                        Err(DecodingError::DecodingFailure)
                    } else {
                        Ok((
                            TermV::Ref(
                                RefV {
                                    node: name,
                                    creation: be_u32(rest, 0),
                                    id: Seq::new(arity as nat, |i: int| be_u32(rest, 4 + 4 * i)),
                                },
                            ),
                            2 + u + 4 + 4 * arity,
                        ))
                    }
                },
                _ => Err(DecodingError::CompoundTypeDecodingFailure),
            },
        }
    }
}

/// The arity field of an exported-function reference: a nested integer term
/// narrowed to an unsigned byte. Either integer form is accepted.
pub open spec fn narrow_to_u8(t: TermV) -> Option<u8> {
    match t {
        TermV::SmallInteger(v) => Some(v),
        TermV::Integer(v) => Some(low_byte(v)),
        _ => None,
    }
}

/// A nested integer term narrowed to a signed 32-bit value. Either integer
/// form is accepted.
pub open spec fn narrow_to_i32(t: TermV) -> Option<i32> {
    match t {
        TermV::SmallInteger(v) => Some(v as i32),
        TermV::Integer(v) => Some(v),
        _ => None,
    }
}

/// Exported-function reference: module atom, function-name atom, then a
/// nested integer term narrowed to the arity byte.
pub open spec fn spec_external_fun(s: Seq<u8>) -> Result<(TermV, int), DecodingError>
    decreases s.len(), 2int, 0int,
{
    match spec_term(s) {
        Err(e) => Err(e),
        Ok((module, u1)) => match module {
            TermV::Atom(module_name) => match spec_term(tail_of(s, u1)) {
                Err(e) => Err(e),
                Ok((fun, u2)) => match fun {
                    TermV::Atom(fun_name) => match spec_term(tail_of(s, u1 + u2)) {
                        Err(e) => Err(e),
                        Ok((arity_term, u3)) => match narrow_to_u8(arity_term) {
                            Some(arity) => Ok((
                                TermV::ExternalFun(
                                    ExternalFunV {
                                        module: module_name,
                                        function_name: fun_name,
                                        arity,
                                    },
                                ),
                                u1 + u2 + u3,
                            )),
                            None => Err(DecodingError::CompoundTypeDecodingFailure),
                        },
                    },
                    _ => Err(DecodingError::CompoundTypeDecodingFailure),
                },
            },
            _ => Err(DecodingError::CompoundTypeDecodingFailure),
        },
    }
}

/// Closure descriptor: a consumed-but-unused 4-byte size, arity byte,
/// 16-byte uniqueness hash, index, free-variable count, then module atom,
/// two narrowed integers, the creator pid, and the captured values.
pub open spec fn spec_internal_fun(s: Seq<u8>) -> Result<(TermV, int), DecodingError>
    decreases s.len(), 2int, 0int,
{
    if s.len() < 29 {
        Err(DecodingError::DecodingFailure)
    } else {
        let arity = s[4];
        let uniq = s.subrange(5, 21);
        let index = be_u32(s, 21);
        let free_count = be_u32(s, 25);
        match spec_term(s.skip(29)) {
            Err(e) => Err(e),
            Ok((module, u1)) => match module {
                TermV::Atom(module_name) => match spec_term(tail_of(s, 29 + u1)) {
                    Err(e) => Err(e),
                    Ok((old_index_term, u2)) => match narrow_to_i32(old_index_term) {
                        None => Err(DecodingError::CompoundTypeDecodingFailure),
                        Some(old_index) => match spec_term(tail_of(s, 29 + u1 + u2)) {
                            Err(e) => Err(e),
                            Ok((old_uniq_term, u3)) => match narrow_to_i32(old_uniq_term) {
                                None => Err(DecodingError::CompoundTypeDecodingFailure),
                                Some(old_uniq) => match spec_term(tail_of(s, 29 + u1 + u2 + u3)) {
                                    Err(e) => Err(e),
                                    Ok((creator, u4)) => match creator {
                                        TermV::Pid(creator_pid) => match spec_terms(
                                            tail_of(s, 29 + u1 + u2 + u3 + u4),
                                            free_count as int,
                                        ) {
                                            Err(e) => Err(e),
                                            Ok((free_vars, u5)) => Ok((
                                                TermV::InternalFun(
                                                    InternalFunV {
                                                        arity,
                                                        uniq_beam_md5: uniq,
                                                        index,
                                                        free_variable_count: free_count,
                                                        module: module_name,
                                                        old_index,
                                                        old_uniq_hash: old_uniq,
                                                        creator_pid,
                                                        free_vars,
                                                    },
                                                ),
                                                29 + u1 + u2 + u3 + u4 + u5,
                                            )),
                                        },
                                        _ => Err(
                                            DecodingError::CompoundTypeDecodingFailure,
                                        ),
                                    },
                                },
                            },
                        },
                    },
                },
                _ => Err(DecodingError::CompoundTypeDecodingFailure),
            },
        }
    }
}

/// A big integer decodes to the same value through the 1-byte-length tag
/// and the 4-byte-length tag: the width of the length field never shows in
/// the decoded term.
pub proof fn lemma_big_integer_width_independence(sign: u8, magnitude: Seq<u8>)
    requires
        sign <= 1,
        magnitude.len() <= 0xFF,
    ensures
        spec_term(seq![constants::SMALL_BIG_EXT, magnitude.len() as u8, sign] + magnitude)
            == Ok::<(TermV, int), DecodingError>(
            (
                TermV::BigInteger(signed_value(sign, le_magnitude_value(magnitude))),
                3 + magnitude.len() as int,
            ),
        ),
        spec_term(
            seq![constants::LARGE_BIG_EXT, 0u8, 0u8, 0u8, magnitude.len() as u8, sign]
                + magnitude,
        ) == Ok::<(TermV, int), DecodingError>(
            (
                TermV::BigInteger(signed_value(sign, le_magnitude_value(magnitude))),
                6 + magnitude.len() as int,
            ),
        ),
{
    reveal(spec_small_big_integer);
    reveal(spec_large_big_integer);
    let n = magnitude.len() as int;
    let small = seq![constants::SMALL_BIG_EXT, magnitude.len() as u8, sign] + magnitude;
    let bs = small.skip(1);
    assert(small[0] == constants::SMALL_BIG_EXT);
    assert(bs =~= seq![magnitude.len() as u8, sign] + magnitude);
    assert(bs[0] == magnitude.len() as u8);
    assert(bs[1] == sign);
    assert(bs.subrange(2, 2 + n) =~= magnitude);
    let large = seq![constants::LARGE_BIG_EXT, 0u8, 0u8, 0u8, magnitude.len() as u8, sign]
        + magnitude;
    let bl = large.skip(1);
    assert(large[0] == constants::LARGE_BIG_EXT);
    assert(bl =~= seq![0u8, 0u8, 0u8, magnitude.len() as u8, sign] + magnitude);
    assert(bl[0] == 0 && bl[1] == 0 && bl[2] == 0 && bl[3] == magnitude.len() as u8);
    assert(be_u32(bl, 0) == magnitude.len());
    assert(bl[4] == sign);
    assert(bl.subrange(5, 5 + n) =~= magnitude);
}

/// A byte outside the tag table, wherever a term is expected, yields
/// `UnrecognizedTag` carrying that byte — at any recursion depth, since
/// every nested decode goes through `spec_term`.
pub proof fn lemma_unrecognized_tag(s: Seq<u8>)
    requires
        s.len() >= 1,
        !tag_known(s[0]),
    ensures
        spec_term(s) == Err::<(TermV, int), DecodingError>(
            DecodingError::UnrecognizedTag { tag: s[0] },
        ),
{
}

/// At the top level: a sound version byte followed by a byte outside the
/// tag table yields `UnrecognizedTag`, never a partial value.
pub proof fn lemma_unrecognized_tag_top(s: Seq<u8>)
    requires
        s.len() >= 2,
        s[0] == constants::TERM_FORMAT_VERSION,
        !tag_known(s[1]),
    ensures
        spec_decode(s) == Err::<TermV, DecodingError>(
            DecodingError::UnrecognizedTag { tag: s[1] },
        ),
{
    assert(s.skip(1)[0] == s[1]);
    lemma_unrecognized_tag(s.skip(1));
}

/// A version byte other than the supported one is rejected, whatever
/// follows it.
pub proof fn lemma_unsupported_version(s: Seq<u8>)
    requires
        s.len() >= 1,
        s[0] != constants::TERM_FORMAT_VERSION,
    ensures
        spec_decode(s) == Err::<TermV, DecodingError>(
            DecodingError::UnsupportedVersion { version: s[0] },
        ),
{
}

/// A list of zero elements with a nil tail decodes to the very term a
/// direct nil decode gives.
pub proof fn lemma_empty_list_nil_tail(rest: Seq<u8>)
    ensures
        ({
            let listed = seq![constants::LIST_EXT, 0u8, 0u8, 0u8, 0u8, constants::NIL_EXT] + rest;
            let bare = seq![constants::NIL_EXT] + rest;
            &&& spec_term(listed) matches Ok(p1) && p1.0 == TermV::List(Seq::<TermV>::empty())
            &&& spec_term(bare) matches Ok(p2) && p2.0 == TermV::List(Seq::<TermV>::empty())
        }),
{
    let listed = seq![constants::LIST_EXT, 0u8, 0u8, 0u8, 0u8, constants::NIL_EXT] + rest;
    let bare = seq![constants::NIL_EXT] + rest;
    let b = listed.skip(1);
    assert(listed[0] == constants::LIST_EXT);
    assert(b =~= seq![0u8, 0u8, 0u8, 0u8, constants::NIL_EXT] + rest);
    assert(b[0] == 0 && b[1] == 0 && b[2] == 0 && b[3] == 0);
    assert(be_u32(b, 0) == 0);
    assert(spec_terms(b.skip(4), 0) == Ok::<(Seq<TermV>, int), DecodingError>(
        (Seq::<TermV>::empty(), 0int),
    ));
    assert(tail_of(b, 4) =~= seq![constants::NIL_EXT] + rest);
    assert(tail_of(b, 4)[0] == constants::NIL_EXT);
    assert(bare[0] == constants::NIL_EXT);
}

/// A list whose tail term is not the empty list decodes to an improper
/// list carrying that very tail, whatever type the tail has.
pub proof fn lemma_list_non_nil_tail(
    s: Seq<u8>,
    elements: Seq<TermV>,
    used: int,
    tail: TermV,
    used2: int,
)
    requires
        s.len() >= 4,
        spec_terms(s.skip(4), be_u32(s, 0) as int) == Ok::<(Seq<TermV>, int), DecodingError>(
            (elements, used),
        ),
        spec_term(tail_of(s, 4 + used)) == Ok::<(TermV, int), DecodingError>((tail, used2)),
        !(tail matches TermV::List(es) && es.len() == 0),
    ensures
        spec_list(s) == Ok::<(TermV, int), DecodingError>(
            (TermV::ImproperList(elements, Box::new(tail)), 4 + used + used2),
        ),
{
}

/// `n` nested terms, one after another. The count of consumed bytes is
/// returned beside the values.
pub open spec fn spec_terms(s: Seq<u8>, n: int) -> Result<(Seq<TermV>, int), DecodingError>
    decreases s.len(), 1int, n,
{
    if n <= 0 {
        Ok((Seq::empty(), 0))
    } else {
        match spec_term(s) {
            Err(e) => Err(e),
            Ok((t, u)) => match spec_terms(tail_of(s, u), n - 1) {
                Err(e) => Err(e),
                Ok((rest, u2)) => Ok((seq![t] + rest, u + u2)),
            },
        }
    }
}

} // verus!

//! The executable decoder, proved against the spec functions of `format`.

use vstd::prelude::*;

use crate::constants;
use crate::format::be_i32;
use crate::format::be_u16;
use crate::format::be_u32;
use crate::format::be_u64;
use crate::format::lemma_be_u32_skip;
use crate::format::spec_atom_ext;
use crate::format::spec_atom_utf8_ext;
use crate::format::spec_binary;
use crate::format::spec_bit_binary;
use crate::format::spec_float;
use crate::format::spec_integer;
use crate::format::spec_large_big_integer;
use crate::format::spec_decode;
use crate::format::spec_external_fun;
use crate::format::spec_internal_fun;
use crate::format::spec_large_tuple;
use crate::format::spec_list;
use crate::format::spec_newer_reference;
use crate::format::spec_pid;
use crate::format::spec_small_atom_utf8_ext;
use crate::format::spec_small_big_integer;
use crate::format::spec_small_integer;
use crate::format::spec_small_tuple;
use crate::format::spec_tagged;
use crate::format::spec_term;
use crate::format::spec_terms;
use crate::format::spec_v3_port;
use crate::format::spec_v4_port;
use crate::format::tail_of;
use crate::format::utf8_of;
use crate::format::win1252_of;
use crate::lemma_terms_view_len;
use crate::lemma_terms_view_push;
use crate::numerical::to_sign;
use crate::result_view;
use crate::term_view;
use crate::terms_view;
use crate::BigInteger;
use crate::DecodingError;
use crate::DecodingResult;
use crate::ErlPid;
use crate::ErlTerm;
use crate::ErlV3Port;
use crate::ErlV4Port;
use crate::ExternalFun;
use crate::ImproperList;
use crate::InternalFun;
use crate::List;
use crate::Ref;
use crate::TermV;
use crate::Tuple;

verus! {

/// Reads one term from an in-memory byte input, front to back. Trailing
/// unread bytes are permitted.
pub struct Decoder {
    pub input: Vec<u8>,
    pub pos: usize,
}

/// Relies on `encoding_rs::WINDOWS_1252.decode_without_bom_handling`: the
/// codepage assigns a character to every byte (its table has no holes), so
/// the decode never reports malformed input and yields one character per
/// byte.
#[verifier::external_body]
fn decode_latin1(bytes: &Vec<u8>) -> (r: String)
    ensures
        r@ == win1252_of(bytes@),
        r@.len() == bytes@.len(),
{
    let (cow, _had_errors) = encoding_rs::WINDOWS_1252.decode_without_bom_handling(bytes);
    cow.into_owned()
}

/// Relies on `String::from_utf8`: it succeeds exactly when the bytes are
/// valid UTF-8, and the string then holds the characters those bytes encode.
#[verifier::external_body]
fn decode_utf8(bytes: Vec<u8>) -> (r: Option<String>)
    ensures
        match r {
            Some(s) => utf8_of(bytes@) == Some(s@),
            None => utf8_of(bytes@) is None,
        },
{
    match String::from_utf8(bytes) {
        Ok(s) => Some(s),
        Err(_) => None,
    }
}

impl Decoder {
    /// The bytes not yet consumed.
    pub open spec fn remaining(self) -> Seq<u8> {
        self.input@.skip(self.pos as int)
    }

    /// The read position never passes the end of the input.
    pub open spec fn wf(self) -> bool {
        self.pos <= self.input@.len()
    }

    /// A decoder positioned at the start of the given bytes.
    pub fn new(input: Vec<u8>) -> (r: Self)
        ensures
            r.wf(),
            r.remaining() == input@,
    {
        proof {
            assert(input@.skip(0) =~= input@);
        }
        Decoder { input, pos: 0 }
    }

    /// Read one byte.
    pub fn read_u8(&mut self) -> (r: Result<u8, DecodingError>)
        requires
            old(self).wf(),
        ensures
            final(self).wf(),
            final(self).input@ == old(self).input@,
            old(self).remaining().len() >= 1 ==> (r
                == Ok::<u8, DecodingError>(old(self).remaining()[0]) && final(self).pos == old(
                self,
            ).pos + 1),
            old(self).remaining().len() < 1 ==> (r == Err::<u8, DecodingError>(
                DecodingError::DecodingFailure,
            ) && *final(self) == *old(self)),
    {
        if self.pos < self.input.len() {
            let b = self.input[self.pos];
            self.pos = self.pos + 1;
            Ok(b)
        } else {
            Err(DecodingError::DecodingFailure)
        }
    }

    /// Read a big-endian 16-bit value.
    fn read_u16(&mut self) -> (r: Result<u16, DecodingError>)
        requires
            old(self).wf(),
        ensures
            final(self).wf(),
            final(self).input@ == old(self).input@,
            old(self).remaining().len() >= 2 ==> (r == Ok::<u16, DecodingError>(
                be_u16(old(self).remaining(), 0),
            ) && final(self).pos == old(self).pos + 2),
            old(self).remaining().len() < 2 ==> (r == Err::<u16, DecodingError>(
                DecodingError::DecodingFailure,
            ) && *final(self) == *old(self)),
    {
        if self.input.len() - self.pos >= 2 {
            let b0 = self.input[self.pos];
            let b1 = self.input[self.pos + 1];
            self.pos = self.pos + 2;
            Ok((b0 as u16) * 0x100 + (b1 as u16))
        } else {
            Err(DecodingError::DecodingFailure)
        }
    }

    /// Read a big-endian 32-bit value.
    fn read_u32(&mut self) -> (r: Result<u32, DecodingError>)
        requires
            old(self).wf(),
        ensures
            final(self).wf(),
            final(self).input@ == old(self).input@,
            old(self).remaining().len() >= 4 ==> (r == Ok::<u32, DecodingError>(
                be_u32(old(self).remaining(), 0),
            ) && final(self).pos == old(self).pos + 4),
            old(self).remaining().len() < 4 ==> (r == Err::<u32, DecodingError>(
                DecodingError::DecodingFailure,
            ) && *final(self) == *old(self)),
    {
        if self.input.len() - self.pos >= 4 {
            let b0 = self.input[self.pos];
            let b1 = self.input[self.pos + 1];
            let b2 = self.input[self.pos + 2];
            let b3 = self.input[self.pos + 3];
            self.pos = self.pos + 4;
            Ok(
                (b0 as u32) * 0x1000000 + (b1 as u32) * 0x10000 + (b2 as u32) * 0x100 + (
                b3 as u32),
            )
        } else {
            Err(DecodingError::DecodingFailure)
        }
    }

    /// Read a big-endian 64-bit value.
    fn read_u64(&mut self) -> (r: Result<u64, DecodingError>)
        requires
            old(self).wf(),
        ensures
            final(self).wf(),
            final(self).input@ == old(self).input@,
            old(self).remaining().len() >= 8 ==> (r == Ok::<u64, DecodingError>(
                be_u64(old(self).remaining(), 0),
            ) && final(self).pos == old(self).pos + 8),
            old(self).remaining().len() < 8 ==> (r == Err::<u64, DecodingError>(
                DecodingError::DecodingFailure,
            ) && *final(self) == *old(self)),
    {
        if self.input.len() - self.pos >= 8 {
            let b0 = self.input[self.pos];
            let b1 = self.input[self.pos + 1];
            let b2 = self.input[self.pos + 2];
            let b3 = self.input[self.pos + 3];
            let b4 = self.input[self.pos + 4];
            let b5 = self.input[self.pos + 5];
            let b6 = self.input[self.pos + 6];
            let b7 = self.input[self.pos + 7];
            self.pos = self.pos + 8;
            Ok(
                (b0 as u64) * 0x100000000000000 + (b1 as u64) * 0x1000000000000 + (b2 as u64)
                    * 0x10000000000 + (b3 as u64) * 0x100000000 + (b4 as u64) * 0x1000000 + (
                b5 as u64) * 0x10000 + (b6 as u64) * 0x100 + (b7 as u64),
            )
        } else {
            Err(DecodingError::DecodingFailure)
        }
    }

    /// Read a big-endian 32-bit two's-complement value.
    fn read_i32(&mut self) -> (r: Result<i32, DecodingError>)
        requires
            old(self).wf(),
        ensures
            final(self).wf(),
            final(self).input@ == old(self).input@,
            old(self).remaining().len() >= 4 ==> (r == Ok::<i32, DecodingError>(
                be_i32(old(self).remaining(), 0),
            ) && final(self).pos == old(self).pos + 4),
            old(self).remaining().len() < 4 ==> (r == Err::<i32, DecodingError>(
                DecodingError::DecodingFailure,
            ) && *final(self) == *old(self)),
    {
        match self.read_u32() {
            Ok(u) => {
                if u >= 0x80000000 {
                    Ok(-((0xFFFFFFFFu32 - u) as i32) - 1)
                } else {
                    Ok(u as i32)
                }
            },
            Err(e) => Err(e),
        }
    }

    /// Read exactly `n` raw bytes.
    fn read_bytes(&mut self, n: usize) -> (r: Result<Vec<u8>, DecodingError>)
        requires
            old(self).wf(),
        ensures
            final(self).wf(),
            final(self).input@ == old(self).input@,
            old(self).remaining().len() >= n ==> (r matches Ok(v) && v@ == old(
                self,
            ).remaining().subrange(0, n as int) && final(self).pos == old(self).pos + n),
            old(self).remaining().len() < n ==> (r == Err::<Vec<u8>, DecodingError>(
                DecodingError::DecodingFailure,
            ) && *final(self) == *old(self)),
    {
        if self.input.len() - self.pos >= n {
            let mut v: Vec<u8> = Vec::new();
            let mut i: usize = 0;
            while i < n
                invariant
                    i <= n,
                    self.pos + n <= self.input@.len(),
                    self.input@.len() <= usize::MAX,
                    self.input@ == old(self).input@,
                    self.pos == old(self).pos,
                    v@.len() == i,
                    forall|j: int| 0 <= j < i ==> v@[j] == self.input@[self.pos + j],
                decreases n - i,
            {
                v.push(self.input[self.pos + i]);
                i = i + 1;
            }
            proof {
                assert(v@ =~= old(self).remaining().subrange(0, n as int));
            }
            self.pos = self.pos + n;
            Ok(v)
        } else {
            Err(DecodingError::DecodingFailure)
        }
    }

    /// Legacy atom: 2-byte length, then codepage bytes.
    fn decode_atom_ext(&mut self) -> (r: DecodingResult)
        requires
            old(self).wf(),
        ensures
            final(self).wf(),
            final(self).input@ == old(self).input@,
            matches_spec(*old(self), *final(self), r, spec_atom_ext(old(self).remaining())),
    {
        proof {
            reveal(spec_atom_ext);
        }
        let ghost rem = old(self).remaining();
        let length = match self.read_u16() {
            Ok(v) => v,
            Err(e) => {
                return Err(e);
            },
        };
        let n = length as usize;
        proof {
            assert(self.remaining() =~= rem.skip(2));
        }
        let bytes = match self.read_bytes(n) {
            Ok(v) => v,
            Err(e) => {
                return Err(e);
            },
        };
        proof {
            assert(bytes@ =~= rem.subrange(2, 2 + n as int));
        }
        let text = decode_latin1(&bytes);
        Ok(ErlTerm::Atom(text))
    }

    /// Modern atom: 2-byte length, then required UTF-8.
    fn decode_atom_utf8_ext(&mut self) -> (r: DecodingResult)
        requires
            old(self).wf(),
        ensures
            final(self).wf(),
            final(self).input@ == old(self).input@,
            matches_spec(*old(self), *final(self), r, spec_atom_utf8_ext(old(self).remaining())),
    {
        proof {
            reveal(spec_atom_utf8_ext);
        }
        let ghost rem = old(self).remaining();
        let length = match self.read_u16() {
            Ok(v) => v,
            Err(e) => {
                return Err(e);
            },
        };
        let n = length as usize;
        proof {
            assert(self.remaining() =~= rem.skip(2));
        }
        let bytes = match self.read_bytes(n) {
            Ok(v) => v,
            Err(e) => {
                return Err(e);
            },
        };
        proof {
            assert(bytes@ =~= rem.subrange(2, 2 + n as int));
        }
        match decode_utf8(bytes) {
            Some(text) => Ok(ErlTerm::Atom(text)),
            None => Err(DecodingError::DecodingFailure),
        }
    }

    /// Modern atom, short form: 1-byte length, then required UTF-8.
    fn decode_small_atom_utf8_ext(&mut self) -> (r: DecodingResult)
        requires
            old(self).wf(),
        ensures
            final(self).wf(),
            final(self).input@ == old(self).input@,
            matches_spec(
                *old(self),
                *final(self),
                r,
                spec_small_atom_utf8_ext(old(self).remaining()),
            ),
    {
        proof {
            reveal(spec_small_atom_utf8_ext);
        }
        let ghost rem = old(self).remaining();
        let length = match self.read_u8() {
            Ok(v) => v,
            Err(e) => {
                return Err(e);
            },
        };
        let n = length as usize;
        proof {
            assert(self.remaining() =~= rem.skip(1));
        }
        let bytes = match self.read_bytes(n) {
            Ok(v) => v,
            Err(e) => {
                return Err(e);
            },
        };
        proof {
            assert(bytes@ =~= rem.subrange(1, 1 + n as int));
        }
        match decode_utf8(bytes) {
            Some(text) => Ok(ErlTerm::Atom(text)),
            None => Err(DecodingError::DecodingFailure),
        }
    }

    /// One unsigned byte.
    fn decode_small_integer(&mut self) -> (r: DecodingResult)
        requires
            old(self).wf(),
        ensures
            final(self).wf(),
            final(self).input@ == old(self).input@,
            matches_spec(*old(self), *final(self), r, spec_small_integer(old(self).remaining())),
    {
        proof {
            reveal(spec_small_integer);
        }
        match self.read_u8() {
            Ok(i) => Ok(ErlTerm::SmallInteger(i)),
            Err(e) => Err(e),
        }
    }

    /// 4-byte big-endian signed integer.
    fn decode_integer(&mut self) -> (r: DecodingResult)
        requires
            old(self).wf(),
        ensures
            final(self).wf(),
            final(self).input@ == old(self).input@,
            matches_spec(*old(self), *final(self), r, spec_integer(old(self).remaining())),
    {
        proof {
            reveal(spec_integer);
        }
        match self.read_i32() {
            Ok(i) => Ok(ErlTerm::Integer(i)),
            Err(e) => Err(e),
        }
    }

    /// Big integer with a 1-byte magnitude length.
    fn decode_small_big_integer(&mut self) -> (r: DecodingResult)
        requires
            old(self).wf(),
        ensures
            final(self).wf(),
            final(self).input@ == old(self).input@,
            matches_spec(
                *old(self),
                *final(self),
                r,
                spec_small_big_integer(old(self).remaining()),
            ),
    {
        proof {
            reveal(spec_small_big_integer);
        }
        let ghost rem = old(self).remaining();
        let length = match self.read_u8() {
            Ok(v) => v,
            Err(e) => {
                return Err(e);
            },
        };
        let n = length as usize;
        let sign_byte = match self.read_u8() {
            Ok(v) => v,
            Err(e) => {
                return Err(e);
            },
        };
        proof {
            assert(sign_byte == rem[1]);
            assert(self.remaining() =~= rem.skip(2));
        }
        let magnitude = match self.read_bytes(n) {
            Ok(v) => v,
            Err(e) => {
                return Err(e);
            },
        };
        proof {
            assert(magnitude@ =~= rem.subrange(2, 2 + n as int));
        }
        let sign = match to_sign(sign_byte) {
            Ok(v) => v,
            Err(e) => {
                return Err(e);
            },
        };
        Ok(ErlTerm::BigInteger(BigInteger::from_sign_magnitude(sign, magnitude)))
    }

    /// Big integer with a 4-byte magnitude length.
    fn decode_large_big_integer(&mut self) -> (r: DecodingResult)
        requires
            old(self).wf(),
        ensures
            final(self).wf(),
            final(self).input@ == old(self).input@,
            matches_spec(
                *old(self),
                *final(self),
                r,
                spec_large_big_integer(old(self).remaining()),
            ),
    {
        proof {
            reveal(spec_large_big_integer);
        }
        let ghost rem = old(self).remaining();
        let length = match self.read_u32() {
            Ok(v) => v,
            Err(e) => {
                return Err(e);
            },
        };
        let n = length as usize;
        let sign_byte = match self.read_u8() {
            Ok(v) => v,
            Err(e) => {
                return Err(e);
            },
        };
        proof {
            assert(sign_byte == rem[4]);
            assert(self.remaining() =~= rem.skip(5));
        }
        let magnitude = match self.read_bytes(n) {
            Ok(v) => v,
            Err(e) => {
                return Err(e);
            },
        };
        proof {
            assert(magnitude@ =~= rem.subrange(5, 5 + n as int));
        }
        let sign = match to_sign(sign_byte) {
            Ok(v) => v,
            Err(e) => {
                return Err(e);
            },
        };
        Ok(ErlTerm::BigInteger(BigInteger::from_sign_magnitude(sign, magnitude)))
    }

    /// 8-byte big-endian IEEE double, kept as its bit pattern.
    fn decode_float(&mut self) -> (r: DecodingResult)
        requires
            old(self).wf(),
        ensures
            final(self).wf(),
            final(self).input@ == old(self).input@,
            matches_spec(*old(self), *final(self), r, spec_float(old(self).remaining())),
    {
        proof {
            reveal(spec_float);
        }
        match self.read_u64() {
            Ok(bits) => Ok(ErlTerm::Float(bits)),
            Err(e) => Err(e),
        }
    }

    /// 4-byte length, then raw bytes.
    fn decode_binary(&mut self) -> (r: DecodingResult)
        requires
            old(self).wf(),
        ensures
            final(self).wf(),
            final(self).input@ == old(self).input@,
            matches_spec(*old(self), *final(self), r, spec_binary(old(self).remaining())),
    {
        proof {
            reveal(spec_binary);
        }
        let ghost rem = old(self).remaining();
        let length = match self.read_u32() {
            Ok(v) => v,
            Err(e) => {
                return Err(e);
            },
        };
        let n = length as usize;
        proof {
            assert(self.remaining() =~= rem.skip(4));
        }
        let bytes = match self.read_bytes(n) {
            Ok(v) => v,
            Err(e) => {
                return Err(e);
            },
        };
        proof {
            assert(bytes@ =~= rem.subrange(4, 4 + n as int));
        }
        Ok(ErlTerm::Binary(bytes))
    }

    /// 4-byte length, 1-byte trailing-bit count, then raw bytes; the final
    /// byte is stripped of its padding bits.
    fn decode_bit_binary(&mut self) -> (r: DecodingResult)
        requires
            old(self).wf(),
        ensures
            final(self).wf(),
            final(self).input@ == old(self).input@,
            matches_spec(*old(self), *final(self), r, spec_bit_binary(old(self).remaining())),
    {
        proof {
            reveal(spec_bit_binary);
        }
        let ghost rem = old(self).remaining();
        let length = match self.read_u32() {
            Ok(v) => v,
            Err(e) => {
                return Err(e);
            },
        };
        let n = length as usize;
        let tail_len = match self.read_u8() {
            Ok(v) => v,
            Err(e) => {
                return Err(e);
            },
        };
        proof {
            assert(tail_len == rem[4]);
            assert(self.remaining() =~= rem.skip(5));
        }
        let mut bytes = match self.read_bytes(n) {
            Ok(v) => v,
            Err(e) => {
                return Err(e);
            },
        };
        proof {
            assert(bytes@ =~= rem.subrange(5, 5 + n as int));
        }
        if bytes.len() != 0 {
            if tail_len < 1 || tail_len > 8 {
                return Err(DecodingError::DecodingFailure);
            }
            let shift_by = 8 - tail_len;
            let last_index = bytes.len() - 1;
            let shifted = bytes[last_index] >> shift_by;
            bytes[last_index] = shifted;
            proof {
                assert(bytes@ =~= rem.subrange(5, 5 + n as int).update(n - 1, shifted));
            }
        } else {
            proof {
                assert(bytes@ =~= Seq::<u8>::empty());
            }
        }
        Ok(ErlTerm::BitBinary(bytes, tail_len))
    }

    /// Decode one whole input: the version byte, then one tagged term.
    /// Bytes after the term are permitted and left unread.
    pub fn decode(&mut self) -> (r: DecodingResult)
        requires
            old(self).wf(),
        ensures
            final(self).wf(),
            final(self).input@ == old(self).input@,
            result_view(r) == spec_decode(old(self).remaining()),
    {
        let version = match self.read_u8() {
            Ok(v) => v,
            Err(e) => {
                return Err(e);
            },
        };
        if version != constants::TERM_FORMAT_VERSION {
            return Err(DecodingError::UnsupportedVersion { version });
        }
        proof {
            assert(self.remaining() =~= old(self).remaining().skip(1));
        }
        self.read_next_term()
    }

    /// Read one nested term: its tag byte, then its payload.
    fn read_next_term(&mut self) -> (r: DecodingResult)
        requires
            old(self).wf(),
        ensures
            final(self).wf(),
            final(self).input@ == old(self).input@,
            matches_spec(*old(self), *final(self), r, spec_term(old(self).remaining())),
        decreases old(self).remaining().len(), 0int,
    {
        let term_tag = match self.read_u8() {
            Ok(v) => v,
            Err(e) => {
                return Err(e);
            },
        };
        proof {
            assert(self.remaining() =~= old(self).remaining().skip(1));
        }
        self.decode_tagged_with(term_tag)
    }

    /// Dispatch on a tag byte already read.
    fn decode_tagged_with(&mut self, tag: u8) -> (r: DecodingResult)
        requires
            old(self).wf(),
        ensures
            final(self).wf(),
            final(self).input@ == old(self).input@,
            matches_spec(*old(self), *final(self), r, spec_tagged(tag, old(self).remaining())),
        decreases old(self).remaining().len(), 3int,
    {
        if tag == constants::ATOM_EXT {
            self.decode_atom_ext()
        } else if tag == constants::ATOM_UTF8_EXT {
            self.decode_atom_utf8_ext()
        } else if tag == constants::SMALL_ATOM_UTF8_EXT {
            self.decode_small_atom_utf8_ext()
        } else if tag == constants::SMALL_INTEGER_EXT {
            self.decode_small_integer()
        } else if tag == constants::INTEGER_EXT {
            self.decode_integer()
        } else if tag == constants::SMALL_BIG_EXT {
            self.decode_small_big_integer()
        } else if tag == constants::LARGE_BIG_EXT {
            self.decode_large_big_integer()
        } else if tag == constants::NEW_FLOAT_EXT {
            self.decode_float()
        } else if tag == constants::BINARY_EXT {
            self.decode_binary()
        } else if tag == constants::BIT_BINARY_EXT {
            self.decode_bit_binary()
        } else if tag == constants::NEW_PID_EXT {
            self.decode_pid()
        } else if tag == constants::NEW_PORT_EXT {
            self.decode_v3_port()
        } else if tag == constants::V4_PORT_EXT {
            self.decode_v4_port()
        } else if tag == constants::SMALL_TUPLE_EXT {
            self.decode_small_tuple()
        } else if tag == constants::LARGE_TUPLE_EXT {
            self.decode_large_tuple()
        } else if tag == constants::NIL_EXT {
            self.decode_nil()
        } else if tag == constants::LIST_EXT {
            self.decode_list()
        } else if tag == constants::NEWER_REFERENCE_EXT {
            self.decode_newer_reference()
        } else if tag == constants::FUN_EXPORT_EXT {
            self.decode_external_fun()
        } else if tag == constants::NEW_FUN_EXT {
            self.decode_internal_fun()
        } else {
            Err(DecodingError::UnrecognizedTag { tag })
        }
    }

    /// Read `n` consecutive nested terms.
    fn read_terms(&mut self, n: usize) -> (r: Result<Vec<ErlTerm>, DecodingError>)
        requires
            old(self).wf(),
        ensures
            final(self).wf(),
            final(self).input@ == old(self).input@,
            match r {
                Ok(v) => spec_terms(old(self).remaining(), n as int) matches Ok(p) && terms_view(
                    v@,
                ) == p.0 && final(self).pos == old(self).pos + p.1 && old(self).pos
                    <= final(self).pos,
                Err(e) => spec_terms(old(self).remaining(), n as int) matches Err(e2) && e == e2,
            },
        decreases old(self).remaining().len(), 1int,
    {
        let ghost rem0 = old(self).remaining();
        let mut items: Vec<ErlTerm> = Vec::new();
        let mut i: usize = 0;
        while i < n
            invariant
                self.wf(),
                self.input@ == old(self).input@,
                old(self).pos <= self.pos,
                i <= n,
                items@.len() == i,
                rem0 == old(self).remaining(),
                match spec_terms(self.remaining(), n - i) {
                    Ok(p) => spec_terms(rem0, n as int) matches Ok(q) && q.0 == terms_view(items@)
                        + p.0 && q.1 == (self.pos - old(self).pos) + p.1,
                    Err(e) => spec_terms(rem0, n as int) == Err::<
                        (Seq<TermV>, int),
                        DecodingError,
                    >(e),
                },
            decreases n - i,
        {
            let ghost pre = *self;
            let ghost m = n - i;
            let t = match self.read_next_term() {
                Ok(v) => v,
                Err(e) => {
                    proof {
                        assert(spec_terms(pre.remaining(), m) == Err::<
                            (Seq<TermV>, int),
                            DecodingError,
                        >(e));
                    }
                    return Err(e);
                },
            };
            proof {
                let u = self.pos - pre.pos;
                assert(self.remaining() =~= tail_of(pre.remaining(), u));
                lemma_terms_view_push(items@, t);
                if let Ok(p2) = spec_terms(self.remaining(), m - 1) {
                    assert((terms_view(items@) + seq![term_view(t)]) + p2.0 =~= terms_view(items@)
                        + (seq![term_view(t)] + p2.0));
                }
            }
            items.push(t);
            i = i + 1;
        }
        proof {
            assert(spec_terms(self.remaining(), 0) == Ok::<(Seq<TermV>, int), DecodingError>(
                (Seq::<TermV>::empty(), 0int),
            ));
            assert(terms_view(items@) + Seq::<TermV>::empty() =~= terms_view(items@));
        }
        Ok(items)
    }

    /// The empty list; reads no payload bytes at all.
    fn decode_nil(&mut self) -> (r: DecodingResult)
        ensures
            *final(self) == *old(self),
            r matches Ok(t) && t.deep_view() == TermV::List(Seq::<TermV>::empty()),
    {
        Ok(ErlTerm::List(List::nil()))
    }

    /// Process identifier: node atom, then id, serial and creation words.
    #[verifier::rlimit(100)]
    #[verifier::spinoff_prover]
    fn decode_pid(&mut self) -> (r: DecodingResult)
        requires
            old(self).wf(),
        ensures
            final(self).wf(),
            final(self).input@ == old(self).input@,
            matches_spec(*old(self), *final(self), r, spec_pid(old(self).remaining())),
        decreases old(self).remaining().len(), 2int,
    {
        let ghost rem = old(self).remaining();
        let node = match self.read_next_term() {
            Ok(v) => v,
            Err(e) => {
                return Err(e);
            },
        };
        let ghost rest = tail_of(rem, self.pos - old(self).pos);
        proof {
            assert(self.remaining() =~= rest);
        }
        match node.try_into_atom() {
            Ok(val) => {
                let id = match self.read_u32() {
                    Ok(v) => v,
                    Err(e) => {
                        return Err(e);
                    },
                };
                proof {
                    assert(self.remaining() =~= rest.skip(4));
                }
                let serial = match self.read_u32() {
                    Ok(v) => v,
                    Err(e) => {
                        return Err(e);
                    },
                };
                proof {
                    lemma_be_u32_skip(rest, 4);
                    assert(self.remaining() =~= rest.skip(8));
                }
                let creation = match self.read_u32() {
                    Ok(v) => v,
                    Err(e) => {
                        return Err(e);
                    },
                };
                proof {
                    lemma_be_u32_skip(rest, 8);
                }
                Ok(ErlTerm::Pid(ErlPid { node: val, id, serial, creation }))
            },
            Err(_) => Err(DecodingError::CompoundTypeDecodingFailure),
        }
    }

    /// Legacy port identifier: node atom, then 32-bit id and creation.
    #[verifier::rlimit(100)]
    #[verifier::spinoff_prover]
    fn decode_v3_port(&mut self) -> (r: DecodingResult)
        requires
            old(self).wf(),
        ensures
            final(self).wf(),
            final(self).input@ == old(self).input@,
            matches_spec(*old(self), *final(self), r, spec_v3_port(old(self).remaining())),
        decreases old(self).remaining().len(), 2int,
    {
        let ghost rem = old(self).remaining();
        let node = match self.read_next_term() {
            Ok(v) => v,
            Err(e) => {
                return Err(e);
            },
        };
        let ghost rest = tail_of(rem, self.pos - old(self).pos);
        proof {
            assert(self.remaining() =~= rest);
        }
        match node.try_into_atom() {
            Ok(val) => {
                let id = match self.read_u32() {
                    Ok(v) => v,
                    Err(e) => {
                        return Err(e);
                    },
                };
                proof {
                    assert(self.remaining() =~= rest.skip(4));
                }
                let creation = match self.read_u32() {
                    Ok(v) => v,
                    Err(e) => {
                        return Err(e);
                    },
                };
                proof {
                    lemma_be_u32_skip(rest, 4);
                }
                Ok(ErlTerm::V3Port(ErlV3Port { node: val, id, creation }))
            },
            Err(_) => Err(DecodingError::CompoundTypeDecodingFailure),
        }
    }

    /// Wide port identifier: node atom, then 64-bit id and 32-bit creation.
    #[verifier::rlimit(100)]
    #[verifier::spinoff_prover]
    fn decode_v4_port(&mut self) -> (r: DecodingResult)
        requires
            old(self).wf(),
        ensures
            final(self).wf(),
            final(self).input@ == old(self).input@,
            matches_spec(*old(self), *final(self), r, spec_v4_port(old(self).remaining())),
        decreases old(self).remaining().len(), 2int,
    {
        let ghost rem = old(self).remaining();
        let node = match self.read_next_term() {
            Ok(v) => v,
            Err(e) => {
                return Err(e);
            },
        };
        let ghost rest = tail_of(rem, self.pos - old(self).pos);
        proof {
            assert(self.remaining() =~= rest);
        }
        match node.try_into_atom() {
            Ok(val) => {
                let id = match self.read_u64() {
                    Ok(v) => v,
                    Err(e) => {
                        return Err(e);
                    },
                };
                proof {
                    assert(self.remaining() =~= rest.skip(8));
                }
                let creation = match self.read_u32() {
                    Ok(v) => v,
                    Err(e) => {
                        return Err(e);
                    },
                };
                proof {
                    lemma_be_u32_skip(rest, 8);
                }
                Ok(ErlTerm::V4Port(ErlV4Port { node: val, id, creation }))
            },
            Err(_) => Err(DecodingError::CompoundTypeDecodingFailure),
        }
    }

    /// Tuple, 1-byte arity, then that many nested terms.
    fn decode_small_tuple(&mut self) -> (r: DecodingResult)
        requires
            old(self).wf(),
        ensures
            final(self).wf(),
            final(self).input@ == old(self).input@,
            matches_spec(*old(self), *final(self), r, spec_small_tuple(old(self).remaining())),
        decreases old(self).remaining().len(), 2int,
    {
        let ghost rem = old(self).remaining();
        let arity = match self.read_u8() {
            Ok(v) => v,
            Err(e) => {
                return Err(e);
            },
        };
        proof {
            assert(self.remaining() =~= rem.skip(1));
        }
        let items = match self.read_terms(arity as usize) {
            Ok(v) => v,
            Err(e) => {
                return Err(e);
            },
        };
        Ok(ErlTerm::Tuple(Tuple { elements: items }))
    }

    /// Tuple, 4-byte arity, then that many nested terms.
    fn decode_large_tuple(&mut self) -> (r: DecodingResult)
        requires
            old(self).wf(),
        ensures
            final(self).wf(),
            final(self).input@ == old(self).input@,
            matches_spec(*old(self), *final(self), r, spec_large_tuple(old(self).remaining())),
        decreases old(self).remaining().len(), 2int,
    {
        let ghost rem = old(self).remaining();
        let arity = match self.read_u32() {
            Ok(v) => v,
            Err(e) => {
                return Err(e);
            },
        };
        proof {
            assert(self.remaining() =~= rem.skip(4));
        }
        let items = match self.read_terms(arity as usize) {
            Ok(v) => v,
            Err(e) => {
                return Err(e);
            },
        };
        Ok(ErlTerm::Tuple(Tuple { elements: items }))
    }

    /// List: element count, the elements, then the mandatory tail term.
    fn decode_list(&mut self) -> (r: DecodingResult)
        requires
            old(self).wf(),
        ensures
            final(self).wf(),
            final(self).input@ == old(self).input@,
            matches_spec(*old(self), *final(self), r, spec_list(old(self).remaining())),
        decreases old(self).remaining().len(), 2int,
    {
        let ghost rem = old(self).remaining();
        let count = match self.read_u32() {
            Ok(v) => v,
            Err(e) => {
                return Err(e);
            },
        };
        proof {
            assert(self.remaining() =~= rem.skip(4));
        }
        let items = match self.read_terms(count as usize) {
            Ok(v) => v,
            Err(e) => {
                return Err(e);
            },
        };
        let ghost u = self.pos - (old(self).pos + 4);
        proof {
            assert(self.remaining() =~= tail_of(rem, 4 + u));
        }
        let tail_term = match self.read_next_term() {
            Ok(v) => v,
            Err(e) => {
                return Err(e);
            },
        };
        proof {
            lemma_terms_view_len(items@);
        }
        match tail_term {
            ErlTerm::List(val) => {
                if val.is_nil() {
                    Ok(ErlTerm::List(List { elements: items }))
                } else {
                    Ok(
                        ErlTerm::ImproperList(
                            ImproperList {
                                elements: items,
                                tail: Box::new(ErlTerm::List(val)),
                            },
                        ),
                    )
                }
            },
            other => Ok(
                ErlTerm::ImproperList(ImproperList { elements: items, tail: Box::new(other) }),
            ),
        }
    }

    /// Reference: word count, node atom, creation, then the id words.
    #[verifier::rlimit(100)]
    #[verifier::loop_isolation(false)]
    fn decode_newer_reference(&mut self) -> (r: DecodingResult)
        requires
            old(self).wf(),
        ensures
            final(self).wf(),
            final(self).input@ == old(self).input@,
            matches_spec(
                *old(self),
                *final(self),
                r,
                spec_newer_reference(old(self).remaining()),
            ),
        decreases old(self).remaining().len(), 2int,
    {
        let ghost rem = old(self).remaining();
        let arity16 = match self.read_u16() {
            Ok(v) => v,
            Err(e) => {
                return Err(e);
            },
        };
        let arity = arity16 as usize;
        proof {
            assert(self.remaining() =~= rem.skip(2));
        }
        let node = match self.read_next_term() {
            Ok(v) => v,
            Err(e) => {
                return Err(e);
            },
        };
        let ghost rest = tail_of(rem, self.pos - old(self).pos);
        proof {
            assert(self.remaining() =~= rest);
        }
        match node.try_into_atom() {
            Ok(atom) => {
                let creation = match self.read_u32() {
                    Ok(v) => v,
                    Err(e) => {
                        return Err(e);
                    },
                };
                let ghost base = *self;
                proof {
                    assert(self.remaining() =~= rest.skip(4));
                }
                let mut tail: Vec<u32> = Vec::new();
                let mut j: usize = 0;
                while j < arity
                    invariant
                        self.wf(),
                        self.input@ == old(self).input@,
                        old(self).pos <= self.pos,
                        j <= arity,
                        arity <= 0xFFFF,
                        tail@.len() == j,
                        self.pos == base.pos + 4 * j,
                        4 + 4 * j <= rest.len(),
                        self.remaining() == rest.skip(4 + 4 * j),
                        forall|k: int| 0 <= k < j ==> tail@[k] == be_u32(rest, 4 + 4 * k),
                    decreases arity - j,
                {
                    let word = match self.read_u32() {
                        Ok(v) => v,
                        Err(e) => {
                            proof {
                                assert(rest.len() < 4 + 4 * arity);
                            }
                            return Err(e);
                        },
                    };
                    proof {
                        lemma_be_u32_skip(rest, 4 + 4 * j);
                        assert(4 + 4 * (j + 1) <= rest.len());
                        assert(self.remaining() =~= rest.skip(4 + 4 * j).skip(4));
                        assert(rest.skip(4 + 4 * j).skip(4) =~= rest.skip(4 + 4 * (j + 1)));
                    }
                    tail.push(word);
                    j = j + 1;
                }
                proof {
                    assert(tail@ =~= Seq::new(
                        arity as nat,
                        |i: int| be_u32(rest, 4 + 4 * i),
                    ));
                }
                Ok(ErlTerm::Ref(Ref { node: atom, creation, id: tail }))
            },
            Err(_) => Err(DecodingError::CompoundTypeDecodingFailure),
        }
    }

    /// Exported-function reference: module atom, function-name atom, then a
    /// nested integer narrowed to the arity byte.
    #[verifier::rlimit(50)]
    fn decode_external_fun(&mut self) -> (r: DecodingResult)
        requires
            old(self).wf(),
        ensures
            final(self).wf(),
            final(self).input@ == old(self).input@,
            matches_spec(*old(self), *final(self), r, spec_external_fun(old(self).remaining())),
        decreases old(self).remaining().len(), 2int,
    {
        let ghost rem = old(self).remaining();
        let module_term = match self.read_next_term() {
            Ok(v) => v,
            Err(e) => {
                return Err(e);
            },
        };
        proof {
            assert(self.remaining() =~= tail_of(rem, self.pos - old(self).pos));
        }
        let module_atom = match module_term.try_into_atom() {
            Ok(a) => a,
            Err(_) => {
                return Err(DecodingError::CompoundTypeDecodingFailure);
            },
        };
        let fn_name_term = match self.read_next_term() {
            Ok(v) => v,
            Err(e) => {
                return Err(e);
            },
        };
        proof {
            assert(self.remaining() =~= tail_of(rem, self.pos - old(self).pos));
        }
        let fn_name_atom = match fn_name_term.try_into_atom() {
            Ok(a) => a,
            Err(_) => {
                return Err(DecodingError::CompoundTypeDecodingFailure);
            },
        };
        let arity_term = match self.read_next_term() {
            Ok(v) => v,
            Err(e) => {
                return Err(e);
            },
        };
        let arity = match arity_term.try_into_u8() {
            Ok(v) => v,
            Err(_) => {
                return Err(DecodingError::CompoundTypeDecodingFailure);
            },
        };
        Ok(
            ErlTerm::ExternalFun(
                ExternalFun { module: module_atom, function_name: fn_name_atom, arity },
            ),
        )
    }

    /// Closure descriptor: fixed header fields, then module atom, two
    /// narrowed integers, the creator pid, and the captured values.
    #[verifier::rlimit(50)]
    fn decode_internal_fun(&mut self) -> (r: DecodingResult)
        requires
            old(self).wf(),
        ensures
            final(self).wf(),
            final(self).input@ == old(self).input@,
            matches_spec(*old(self), *final(self), r, spec_internal_fun(old(self).remaining())),
        decreases old(self).remaining().len(), 2int,
    {
        let ghost rem = old(self).remaining();
        let _size = match self.read_u32() {
            Ok(v) => v,
            Err(e) => {
                return Err(e);
            },
        };
        let arity = match self.read_u8() {
            Ok(v) => v,
            Err(e) => {
                return Err(e);
            },
        };
        proof {
            assert(self.remaining() =~= rem.skip(5));
        }
        let uniq_vec = match self.read_bytes(16) {
            Ok(v) => v,
            Err(e) => {
                return Err(e);
            },
        };
        let uniq_beam_md5: [u8; 16] = [
            uniq_vec[0],
            uniq_vec[1],
            uniq_vec[2],
            uniq_vec[3],
            uniq_vec[4],
            uniq_vec[5],
            uniq_vec[6],
            uniq_vec[7],
            uniq_vec[8],
            uniq_vec[9],
            uniq_vec[10],
            uniq_vec[11],
            uniq_vec[12],
            uniq_vec[13],
            uniq_vec[14],
            uniq_vec[15],
        ];
        proof {
            assert(uniq_beam_md5@ =~= rem.subrange(5, 21));
            assert(self.remaining() =~= rem.skip(21));
        }
        let idx = match self.read_u32() {
            Ok(v) => v,
            Err(e) => {
                return Err(e);
            },
        };
        proof {
            lemma_be_u32_skip(rem, 21);
            assert(self.remaining() =~= rem.skip(25));
        }
        let free_variable_count = match self.read_u32() {
            Ok(v) => v,
            Err(e) => {
                return Err(e);
            },
        };
        proof {
            lemma_be_u32_skip(rem, 25);
            assert(self.remaining() =~= rem.skip(29));
        }
        let module_term = match self.read_next_term() {
            Ok(v) => v,
            Err(e) => {
                return Err(e);
            },
        };
        proof {
            assert(self.remaining() =~= tail_of(rem, self.pos - old(self).pos));
        }
        let module_atom = match module_term.try_into_atom() {
            Ok(a) => a,
            Err(_) => {
                return Err(DecodingError::CompoundTypeDecodingFailure);
            },
        };
        let old_idx_term = match self.read_next_term() {
            Ok(v) => v,
            Err(e) => {
                return Err(e);
            },
        };
        proof {
            assert(self.remaining() =~= tail_of(rem, self.pos - old(self).pos));
        }
        let old_idx = match old_idx_term.try_into_i32() {
            Ok(v) => v,
            Err(_) => {
                return Err(DecodingError::CompoundTypeDecodingFailure);
            },
        };
        let old_uniq_term = match self.read_next_term() {
            Ok(v) => v,
            Err(e) => {
                return Err(e);
            },
        };
        proof {
            assert(self.remaining() =~= tail_of(rem, self.pos - old(self).pos));
        }
        let old_uniq = match old_uniq_term.try_into_i32() {
            Ok(v) => v,
            Err(_) => {
                return Err(DecodingError::CompoundTypeDecodingFailure);
            },
        };
        let creator_term = match self.read_next_term() {
            Ok(v) => v,
            Err(e) => {
                return Err(e);
            },
        };
        proof {
            assert(self.remaining() =~= tail_of(rem, self.pos - old(self).pos));
        }
        let creator_pid = match creator_term.try_into_pid() {
            Ok(p) => p,
            Err(_) => {
                return Err(DecodingError::CompoundTypeDecodingFailure);
            },
        };
        let free_vars = match self.read_terms(free_variable_count as usize) {
            Ok(v) => v,
            Err(e) => {
                return Err(e);
            },
        };
        Ok(
            ErlTerm::InternalFun(
                InternalFun {
                    arity,
                    uniq_beam_md5,
                    index: idx,
                    free_variable_count,
                    module: module_atom,
                    old_index: old_idx,
                    old_uniq_hash: old_uniq,
                    creator_pid,
                    free_vars,
                },
            ),
        )
    }
}

/// How one decode step relates to its spec twin: the same success, carrying
/// a term whose value and consumed bytes are what the spec gives, or the
/// very same error.
pub open spec fn matches_spec(
    pre: Decoder,
    post: Decoder,
    r: DecodingResult,
    sp: Result<(TermV, int), DecodingError>,
) -> bool {
    match r {
        Ok(t) => sp matches Ok(p) && t.deep_view() == p.0 && post.pos == pre.pos + p.1
            && pre.pos <= post.pos,
        Err(e) => sp matches Err(e2) && e == e2,
    }
}

} // verus!

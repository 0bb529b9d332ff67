//! Wire tags of the Erlang external term format, one byte each.

use vstd::prelude::*;

verus! {

/// The fixed leading version byte; any other value is rejected before the
/// tag byte is interpreted.
pub const TERM_FORMAT_VERSION: u8 = 131;

/// Atom, UTF-8 payload, 2-byte length prefix.
pub const ATOM_UTF8_EXT: u8 = 118;

/// Atom, UTF-8 payload, 1-byte length prefix.
pub const SMALL_ATOM_UTF8_EXT: u8 = 119;

/// Atom, legacy single-byte-codepage payload, 2-byte length prefix.
pub const ATOM_EXT: u8 = 100;

/// 64-bit IEEE double, big-endian.
pub const NEW_FLOAT_EXT: u8 = 70;

/// One unsigned byte.
pub const SMALL_INTEGER_EXT: u8 = 97;

/// 32-bit signed integer, big-endian.
pub const INTEGER_EXT: u8 = 98;

/// Arbitrary-precision integer, 1-byte length prefix.
pub const SMALL_BIG_EXT: u8 = 110;

/// Arbitrary-precision integer, 4-byte length prefix.
pub const LARGE_BIG_EXT: u8 = 111;

/// Byte sequence whose final byte is only partly significant.
pub const BIT_BINARY_EXT: u8 = 77;

/// Length-prefixed byte sequence.
pub const BINARY_EXT: u8 = 109;

/// Process identifier.
pub const NEW_PID_EXT: u8 = 88;

/// Legacy/local port identifier.
pub const NEW_PORT_EXT: u8 = 89;

/// Wide port identifier.
pub const V4_PORT_EXT: u8 = 120;

/// Tuple, 1-byte arity.
pub const SMALL_TUPLE_EXT: u8 = 104;

/// Tuple, 4-byte arity.
pub const LARGE_TUPLE_EXT: u8 = 105;

/// The empty list; no payload bytes at all.
pub const NIL_EXT: u8 = 106;

/// List with a 4-byte element count and an explicit tail term.
pub const LIST_EXT: u8 = 108;

/// Reference with a 2-byte word count.
pub const NEWER_REFERENCE_EXT: u8 = 90;

/// Exported-function reference.
pub const FUN_EXPORT_EXT: u8 = 113;

/// Closure descriptor with captured values.
pub const NEW_FUN_EXT: u8 = 112;

} // verus!

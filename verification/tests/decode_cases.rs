use erl_etf::Atom;
use erl_etf::BigInteger;
use erl_etf::DecodingError;
use erl_etf::ErlPid;
use erl_etf::ErlTerm;
use erl_etf::ExternalFun;
use erl_etf::ImproperList;
use erl_etf::InternalFun;
use erl_etf::List;
use erl_etf::Ref;

fn atom(s: &str) -> Atom {
    Atom { name: s.to_string() }
}

#[test]
fn decode_empty_input() {
    assert_eq!(
        ErlTerm::decode(vec![]),
        Err(DecodingError::DecodingFailure)
    );
}

#[test]
fn decode_unsupported_version() {
    // any leading byte other than 131 is rejected before the tag is read
    assert_eq!(
        ErlTerm::decode(vec![130, 97, 1]),
        Err(DecodingError::UnsupportedVersion { version: 130 })
    );
    assert_eq!(
        ErlTerm::decode(vec![0]),
        Err(DecodingError::UnsupportedVersion { version: 0 })
    );
}

#[test]
fn decode_unrecognized_tag_top_level() {
    // 99 is not in the tag table
    assert_eq!(
        ErlTerm::decode(vec![131, 99, 1, 2, 3]),
        Err(DecodingError::UnrecognizedTag { tag: 99 })
    );
}

#[test]
fn decode_unrecognized_tag_nested() {
    // a tuple whose only element starts with an unknown tag
    assert_eq!(
        ErlTerm::decode(vec![131, 104, 1, 99]),
        Err(DecodingError::UnrecognizedTag { tag: 99 })
    );
    // a list element with an unknown tag
    assert_eq!(
        ErlTerm::decode(vec![131, 108, 0, 0, 0, 1, 42, 106]),
        Err(DecodingError::UnrecognizedTag { tag: 42 })
    );
}

#[test]
fn decode_truncated_payloads() {
    assert_eq!(
        ErlTerm::decode(vec![131]),
        Err(DecodingError::DecodingFailure)
    );
    assert_eq!(
        ErlTerm::decode(vec![131, 98, 0, 0]),
        Err(DecodingError::DecodingFailure)
    );
    assert_eq!(
        ErlTerm::decode(vec![131, 109, 0, 0, 0, 5, 1, 2]),
        Err(DecodingError::DecodingFailure)
    );
    assert_eq!(
        ErlTerm::decode(vec![131, 100, 0, 3, 97]),
        Err(DecodingError::DecodingFailure)
    );
}

#[test]
fn decode_atom_invalid_utf8() {
    // 0xFF can never start a UTF-8 sequence
    assert_eq!(
        ErlTerm::decode(vec![131, 119, 1, 255]),
        Err(DecodingError::DecodingFailure)
    );
    assert_eq!(
        ErlTerm::decode(vec![131, 118, 0, 1, 255]),
        Err(DecodingError::DecodingFailure)
    );
}

#[test]
fn decode_empty_list_equals_nil() {
    // a zero-element list with a nil tail and a bare nil decode to one term
    let listed = ErlTerm::decode(vec![131, 108, 0, 0, 0, 0, 106]).unwrap();
    let bare = ErlTerm::decode(vec![131, 106]).unwrap();
    assert_eq!(listed, bare);
    assert_eq!(listed, ErlTerm::List(List { elements: vec![] }));
}

#[test]
fn decode_proper_list() {
    let res = ErlTerm::decode(vec![131, 108, 0, 0, 0, 2, 97, 1, 97, 2, 106]).unwrap();
    assert_eq!(
        res,
        ErlTerm::List(List {
            elements: vec![ErlTerm::SmallInteger(1), ErlTerm::SmallInteger(2)],
        })
    );
}

#[test]
fn decode_improper_list_atom_tail() {
    // [1 | 2] — the tail is a small integer, not nil
    let res = ErlTerm::decode(vec![131, 108, 0, 0, 0, 1, 97, 1, 97, 2]).unwrap();
    assert_eq!(
        res,
        ErlTerm::ImproperList(ImproperList {
            elements: vec![ErlTerm::SmallInteger(1)],
            tail: Box::new(ErlTerm::SmallInteger(2)),
        })
    );
}

#[test]
fn decode_improper_list_nonempty_list_tail() {
    // a non-empty list as the tail still forces the improper form
    let res =
        ErlTerm::decode(vec![131, 108, 0, 0, 0, 1, 97, 1, 108, 0, 0, 0, 1, 97, 2, 106]).unwrap();
    assert_eq!(
        res,
        ErlTerm::ImproperList(ImproperList {
            elements: vec![ErlTerm::SmallInteger(1)],
            tail: Box::new(ErlTerm::List(List { elements: vec![ErlTerm::SmallInteger(2)] })),
        })
    );
}

#[test]
fn decode_big_integer_negative() {
    let res = ErlTerm::decode(vec![131, 110, 1, 1, 5]).unwrap();
    assert_eq!(
        res,
        ErlTerm::BigInteger(BigInteger { negative: true, magnitude: vec![5] })
    );
}

#[test]
fn decode_big_integer_bad_sign() {
    // the sign byte must be 0 or 1
    assert_eq!(
        ErlTerm::decode(vec![131, 110, 1, 2, 5]),
        Err(DecodingError::DecodingFailure)
    );
}

#[test]
fn decode_big_integer_normalizes_zero() {
    // a zero magnitude, even marked negative, is plain zero
    let a = ErlTerm::decode(vec![131, 110, 1, 0, 0]).unwrap();
    let b = ErlTerm::decode(vec![131, 110, 1, 1, 0]).unwrap();
    let c = ErlTerm::decode(vec![131, 110, 0, 0]).unwrap();
    let zero = ErlTerm::BigInteger(BigInteger { negative: false, magnitude: vec![] });
    assert_eq!(a, zero);
    assert_eq!(b, zero);
    assert_eq!(c, zero);
    // a most-significant zero byte is stripped
    let d = ErlTerm::decode(vec![131, 110, 2, 0, 7, 0]).unwrap();
    assert_eq!(
        d,
        ErlTerm::BigInteger(BigInteger { negative: false, magnitude: vec![7] })
    );
}

#[test]
fn decode_bit_binary_empty_bytes() {
    // with no bytes there is nothing to shift, whatever the count says
    let res = ErlTerm::decode(vec![131, 77, 0, 0, 0, 0, 77]).unwrap();
    assert_eq!(res, ErlTerm::BitBinary(vec![], 77));
}

#[test]
fn decode_bit_binary_bad_trailing_count() {
    // with bytes present, the trailing-bit count must be 1 through 8
    assert_eq!(
        ErlTerm::decode(vec![131, 77, 0, 0, 0, 1, 9, 255]),
        Err(DecodingError::DecodingFailure)
    );
    assert_eq!(
        ErlTerm::decode(vec![131, 77, 0, 0, 0, 1, 0, 255]),
        Err(DecodingError::DecodingFailure)
    );
}

#[test]
fn decode_pid_non_atom_node() {
    // the nested node term decodes, but is not an atom
    assert_eq!(
        ErlTerm::decode(vec![131, 88, 97, 1, 0, 0, 0, 1, 0, 0, 0, 2, 0, 0, 0, 3]),
        Err(DecodingError::CompoundTypeDecodingFailure)
    );
}

#[test]
fn decode_newer_reference() {
    let res = ErlTerm::decode(vec![
        131, 90, 0, 2, 100, 0, 2, 97, 98, 0, 0, 0, 1, 0, 0, 0, 5, 0, 0, 0, 6,
    ])
    .unwrap();
    assert_eq!(
        res,
        ErlTerm::Ref(Ref { node: atom("ab"), creation: 1, id: vec![5, 6] })
    );
}

#[test]
fn decode_external_fun() {
    let res = ErlTerm::decode(vec![131, 113, 100, 0, 1, 109, 100, 0, 1, 102, 97, 3]).unwrap();
    assert_eq!(
        res,
        ErlTerm::ExternalFun(ExternalFun {
            module: atom("m"),
            function_name: atom("f"),
            arity: 3,
        })
    );
}

#[test]
fn decode_external_fun_wide_arity() {
    // an arity sent as a 32-bit integer keeps only its low byte
    let res = ErlTerm::decode(vec![
        131, 113, 100, 0, 1, 109, 100, 0, 1, 102, 98, 0, 0, 1, 44,
    ])
    .unwrap();
    assert_eq!(
        res,
        ErlTerm::ExternalFun(ExternalFun {
            module: atom("m"),
            function_name: atom("f"),
            arity: 44,
        })
    );
}

#[test]
fn decode_internal_fun() {
    let mut input = vec![131, 112];
    input.extend_from_slice(&[0, 0, 0, 0]); // total size, consumed but unused
    input.push(2); // arity
    input.extend_from_slice(&[1, 2, 3, 4, 5, 6, 7, 8, 9, 10, 11, 12, 13, 14, 15, 16]);
    input.extend_from_slice(&[0, 0, 0, 7]); // index
    input.extend_from_slice(&[0, 0, 0, 1]); // one free variable
    input.extend_from_slice(&[100, 0, 1, 109]); // module 'm'
    input.extend_from_slice(&[97, 5]); // old index
    input.extend_from_slice(&[98, 255, 255, 255, 255]); // old uniq hash, -1
    input.extend_from_slice(&[
        88, 100, 0, 1, 110, 0, 0, 0, 1, 0, 0, 0, 2, 0, 0, 0, 3,
    ]); // creator pid on node 'n'
    input.extend_from_slice(&[97, 9]); // the captured value
    let res = ErlTerm::decode(input).unwrap();
    assert_eq!(
        res,
        ErlTerm::InternalFun(InternalFun {
            arity: 2,
            uniq_beam_md5: [1, 2, 3, 4, 5, 6, 7, 8, 9, 10, 11, 12, 13, 14, 15, 16],
            index: 7,
            free_variable_count: 1,
            module: atom("m"),
            old_index: 5,
            old_uniq_hash: -1,
            creator_pid: ErlPid { node: atom("n"), id: 1, serial: 2, creation: 3 },
            free_vars: vec![ErlTerm::SmallInteger(9)],
        })
    );
}

#[test]
fn decode_internal_fun_non_pid_creator() {
    let mut input = vec![131, 112];
    input.extend_from_slice(&[0, 0, 0, 0]);
    input.push(0);
    input.extend_from_slice(&[0; 16]);
    input.extend_from_slice(&[0, 0, 0, 0]);
    input.extend_from_slice(&[0, 0, 0, 0]);
    input.extend_from_slice(&[100, 0, 1, 109]);
    input.extend_from_slice(&[97, 5]);
    input.extend_from_slice(&[97, 6]);
    input.extend_from_slice(&[97, 7]); // an integer where the creator pid belongs
    assert_eq!(
        ErlTerm::decode(input),
        Err(DecodingError::CompoundTypeDecodingFailure)
    );
}

#[test]
fn decode_atom_codepage_specific() {
    // 0x80 is the euro sign in the legacy codepage, not a control character
    let res = ErlTerm::decode(vec![131, 100, 0, 1, 128]).unwrap();
    assert_eq!(res, ErlTerm::Atom("€".to_string()));
}

#[test]
fn decoder_reads_front_to_back() {
    let mut short = erl_etf::decoding::Decoder::new(vec![7]);
    assert_eq!(short.read_u8(), Ok(7));
    assert_eq!(short.read_u8(), Err(DecodingError::DecodingFailure));
    let mut d = erl_etf::decoding::Decoder::new(vec![131, 97, 42]);
    assert_eq!(d.decode(), Ok(ErlTerm::SmallInteger(42)));
}

#[test]
fn decode_ignores_trailing_bytes() {
    // nothing checks that the whole input was consumed
    let res = ErlTerm::decode(vec![131, 97, 7, 200, 201, 202]).unwrap();
    assert_eq!(res, ErlTerm::SmallInteger(7));
}

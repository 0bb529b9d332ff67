use erl_etf::BigInteger;
use erl_etf::ErlPid;
use erl_etf::ErlTerm;
use erl_etf::ErlV3Port;
use erl_etf::ErlV4Port;
use erl_etf::Tuple;

//
// Decoding
//

#[test]
fn decode_atom() {
    // 8> term_to_binary(a).
    // <<131,100,0,1,97>>
    let res1 = ErlTerm::decode(vec![131, 100, 0, 1, 97]).unwrap();
    assert_eq!(atom("a"), res1);
    // 9> term_to_binary(b).
    // <<131,100,0,1,98>>
    let res2 = ErlTerm::decode(vec![131, 100, 0, 1, 98]).unwrap();
    assert_eq!(atom("b"), res2);
    // 11> term_to_binary(erlang).
    // <<131,100,0,6,101,114,108,97,110,103>>
    let input3 = vec![131, 100, 0, 6, 101, 114, 108, 97, 110, 103];
    assert_eq!(atom("erlang"), ErlTerm::decode(input3).unwrap());
    // 12> term_to_binary(rust).
    // <<131,100,0,4,114,117,115,116>>
    let input4 = vec![131, 100, 0, 4, 114, 117, 115, 116];
    let res4 = ErlTerm::decode(input4).unwrap();
    assert_eq!(atom("rust"), res4);
    // 10> term_to_binary('Cádiz').
    // <<131,100,0,5,67,225,100,105,122>>
    let input5 = vec![131, 100, 0, 5, 67, 225, 100, 105, 122];
    let res5 = ErlTerm::decode(input5).unwrap();
    assert_eq!(atom("Cádiz"), res5);
    // 12> term_to_binary('Эрланг').
    // <<131,119,12,208,173,209,128,208,187,208,176,208,189,208,179>>
    // uses SMALL_ATOM_UTF8_EXT
    let input6 = vec![
        131, 119, 12, 208, 173, 209, 128, 208, 187, 208, 176, 208, 189, 208, 179,
    ];
    let res6 = ErlTerm::decode(input6).unwrap();
    assert_eq!(atom("Эрланг"), res6);
    // uses ATOM_UTF8_EXT
    let input7 = vec![
        131, 118, 1, 226, 208, 174, 209, 142, 209, 142, 209, 142, 209, 142, 209, 142, 209, 142,
        209, 142, 209, 142, 209, 142, 209, 142, 209, 142, 209, 142, 209, 142, 209, 142, 209, 142,
        209, 142, 209, 142, 209, 142, 209, 142, 209, 142, 209, 142, 209, 142, 209, 142, 209, 142,
        209, 142, 209, 142, 209, 142, 209, 142, 209, 142, 209, 142, 209, 142, 209, 142, 209, 142,
        209, 142, 209, 142, 209, 142, 209, 142, 209, 142, 209, 142, 209, 142, 209, 142, 209, 142,
        209, 142, 209, 142, 209, 142, 209, 142, 209, 142, 209, 142, 209, 142, 209, 142, 209, 142,
        209, 142, 209, 142, 209, 142, 209, 142, 209, 142, 209, 142, 209, 142, 209, 142, 209, 142,
        209, 142, 209, 142, 209, 142, 209, 142, 209, 142, 209, 142, 209, 142, 209, 142, 209, 142,
        209, 142, 209, 142, 209, 142, 209, 142, 209, 142, 209, 142, 209, 142, 209, 142, 209, 142,
        209, 142, 209, 142, 209, 142, 209, 142, 209, 142, 209, 142, 209, 142, 209, 142, 209, 142,
        209, 142, 209, 142, 209, 142, 209, 142, 209, 142, 209, 142, 209, 142, 209, 142, 209, 142,
        209, 142, 209, 142, 209, 142, 209, 142, 209, 142, 209, 142, 209, 142, 209, 142, 209, 142,
        209, 142, 209, 142, 209, 142, 209, 142, 209, 142, 209, 142, 209, 142, 209, 142, 209, 142,
        209, 142, 209, 142, 209, 142, 209, 142, 209, 142, 209, 142, 209, 142, 209, 142, 209, 142,
        209, 142, 209, 142, 209, 142, 209, 142, 209, 142, 209, 142, 209, 142, 209, 142, 209, 142,
        209, 142, 209, 142, 209, 142, 209, 142, 209, 142, 209, 142, 209, 142, 209, 142, 209, 142,
        209, 142, 209, 142, 209, 142, 209, 142, 209, 142, 209, 142, 209, 142, 209, 142, 209, 142,
        209, 142, 209, 142, 209, 142, 209, 142, 209, 142, 209, 142, 209, 142, 209, 142, 209, 142,
        209, 142, 209, 142, 209, 142, 209, 142, 209, 142, 209, 142, 209, 142, 209, 142, 209, 142,
        209, 142, 209, 142, 209, 142, 209, 142, 209, 142, 209, 142, 209, 142, 209, 142, 209, 142,
        209, 142, 209, 142, 209, 142, 209, 142, 209, 142, 209, 142, 209, 142, 209, 142, 209, 142,
        209, 142, 209, 142, 209, 142, 209, 142, 209, 142, 209, 142, 209, 142, 209, 142, 209, 142,
        209, 142, 209, 142, 209, 142, 209, 142, 209, 142, 209, 142, 209, 142, 209, 142, 209, 142,
        209, 142, 209, 142, 209, 142, 209, 142, 209, 142, 209, 142, 209, 142, 209, 142, 209, 142,
        209, 142, 209, 142, 209, 142, 209, 142, 209, 142, 209, 142, 209, 142, 209, 142, 209, 142,
        209, 142, 209, 142, 209, 142, 209, 142, 209, 142, 209, 142, 209, 142, 209, 142, 209, 142,
        209, 142, 209, 142, 209, 142, 209, 142, 208, 189, 208, 184, 208, 186, 208, 190, 208, 180,
    ];
    let res7 = ErlTerm::decode(input7).unwrap();
    let s = "Ююююююююююююююююююююююююююююююююююююююююююююююююююююююююююююююююююююююююююююююююююююююююююююююююююююююююююююююююююююююююююююююююююююююююююююююююююююююююююююююююююююююююююююююююююююююююююююююююююююююююююююююююююююююююююююююююююююююююююююникод";
    assert_eq!(atom(s), res7);
}

#[test]
fn decode_small_integer() {
    // 1> term_to_binary(1).
    // <<131,97,1>>
    let input1 = vec![131, 97, 1];
    let res1 = ErlTerm::decode(input1).unwrap();
    assert_eq!(small_integer(1), res1);
    // 11> term_to_binary(255).
    // <<131,97,255>>
    let input2 = vec![131, 97, 255];
    let res2 = ErlTerm::decode(input2).unwrap();
    assert_eq!(small_integer(255), res2);
}

#[test]
fn decode_integer() {
    // 10> term_to_binary(256).
    // <<131,98,0,0,1,0>>
    let input1 = vec![131, 98, 0, 0, 1, 0];
    let res1 = ErlTerm::decode(input1).unwrap();
    assert_eq!(integer(256), res1);
    // 3> term_to_binary(1000).
    // <<131,98,0,0,3,232>>
    let input2 = vec![131, 98, 0, 0, 3, 232];
    let res2 = ErlTerm::decode(input2).unwrap();
    assert_eq!(integer(1000), res2);
}

#[test]
fn decode_big_integer() {
    // 21> term_to_binary(5130000000).
    // <<131,110,5,0,128,150,197,49,1>>
    let input1 = vec![131, 110, 5, 0, 128, 150, 197, 49, 1];
    let res1 = ErlTerm::decode(input1).unwrap();
    assert_eq!(big_integer(5130000000), res1);
    // change term type to 111 (LARGE_BIG_EXT), pad the length value
    let input2 = vec![131, 111, 0, 0, 0, 5, 0, 128, 150, 197, 49, 1];
    let res2 = ErlTerm::decode(input2).unwrap();
    assert_eq!(big_integer(5130000000), res2);
}

#[test]
fn decode_negative_integer() {
    // 12> term_to_binary(-1000).
    // <<131,98,255,255,252,24>>
    let input1 = vec![131, 98, 255, 255, 252, 24];
    let res1 = ErlTerm::decode(input1).unwrap();
    assert_eq!(integer(-1000), res1);
    // 13> term_to_binary(-1).
    // <<131,98,255,255,255,255>>
    let input2 = vec![131, 98, 255, 255, 255, 255];
    let res2 = ErlTerm::decode(input2).unwrap();
    assert_eq!(integer(-1), res2);
}

#[test]
fn decode_positive_float() {
    // 35> term_to_binary(121.7)
    // <<131,70,64,94,108,204,204,204,204,205>>
    let input1 = vec![131, 70, 64, 94, 108, 204, 204, 204, 204, 205];
    let res1 = ErlTerm::decode(input1).unwrap();
    assert_eq!(float(121.7), res1);
}

#[test]
fn decode_negative_float() {
    // 36> term_to_binary(-121.7).
    // <<131,70,192,94,108,204,204,204,204,205>>
    let input1 = vec![131, 70, 192, 94, 108, 204, 204, 204, 204, 205];
    let res1 = ErlTerm::decode(input1).unwrap();
    assert_eq!(float(-121.7), res1);
}

#[test]
fn decode_binary() {
    // 47> term_to_binary(<<"abc">>).
    // <<131,109,0,0,0,3,97,98,99>>
    let input1 = vec![131, 109, 0, 0, 0, 3, 97, 98, 99];
    let res1 = ErlTerm::decode(input1).unwrap();
    assert_eq!(binary("abc"), res1);

    // 49> term_to_binary(<<"abc кириллица"/utf8>>).
    // <<131,109,0,0,0,22,97,98,99,32,208,186,208,184,209,128,208,184,208,187,208,187,208,184,209,134,208,176>>
    let input2 = vec![
        131, 109, 0, 0, 0, 22, 97, 98, 99, 32, 208, 186, 208, 184, 209, 128, 208, 184, 208, 187,
        208, 187, 208, 184, 209, 134, 208, 176,
    ];
    let res2 = ErlTerm::decode(input2).unwrap();
    assert_eq!(binary("abc кириллица"), res2);
}

#[test]
fn decode_bit_binary() {
    let input1 = vec![131, 77, 0, 0, 0, 3, 5, 1, 2, 24];
    let res1 = ErlTerm::decode(input1).unwrap();
    assert_eq!(bit_binary(vec![1, 2, 3], 5), res1);
}

#[test]
fn decode_pid() {
    // term_to_binary(self()).
    // <<131,88,100,0,13,110,111,110,111,100,101,64,110,111,104,111,115,116,0,0,0,87,0,0,0,0,0,0,0,0>>
    let input1 = vec![
        131, 88, 100, 0, 13, 110, 111, 110, 111, 100, 101, 64, 110, 111, 104, 111, 115, 116, 0, 0,
        0, 87, 0, 0, 0, 0, 0, 0, 0, 0,
    ];
    let res1 = ErlTerm::decode(input1).unwrap();
    assert_eq!(erl_pid(atom("nonode@nohost"), 87, 0, 0), res1);
}

#[test]
fn decode_v3_port() {
    // term_to_binary(Port).
    // %% this is a local port, so a v3 one
    // <<131,89,100,0,13,110,111,110,111,100,101,64,110,111,104,111,115,116,0,0,0,4,0,0,0,0>>
    let input1 = vec![
        131, 89, 100, 0, 13, 110, 111, 110, 111, 100, 101, 64, 110, 111, 104, 111, 115, 116, 0, 0,
        0, 4, 0, 0, 0, 0,
    ];
    let res1 = ErlTerm::decode(input1).unwrap();
    assert_eq!(erl_v3_port(atom("nonode@nohost"), 4, 0), res1);
}

#[test]
fn decode_v4_port() {
    // term_to_binary(Port).
    // <<131,120,100,0,13,110,111,110,111,100,101,64,110,111,104,111,115,116,0,0,0,0,0,0,0,4,0,0,0,0>>
    let input1 = vec![
        131, 120, 100, 0, 13, 110, 111, 110, 111, 100, 101, 64, 110, 111, 104, 111, 115, 116, 0, 0,
        0, 0, 0, 0, 0, 4, 0, 0, 0, 0,
    ];
    let res1 = ErlTerm::decode(input1).unwrap();
    assert_eq!(erl_v4_port(atom("nonode@nohost"), 4, 0), res1);
}

#[test]
fn decode_small_tuple_of_integers() {
    // term_to_binary({1, 2, 3, 4}).
    // <<131,104,4,97,1,97,2,97,3,97,4>>
    let input1 = vec![131, 104, 4, 97, 1, 97, 2, 97, 3, 97, 4];
    let res1 = ErlTerm::decode(input1).unwrap();
    assert_eq!(tuple_of_u8(vec![1, 2, 3, 4]), res1);
}

#[test]
fn decode_small_tuple_of_binaries() {
    // term_to_binary({<<"aa">>, <<"bbb">>, <<"c">>, <<"dddd">>}).
    // <<131,104,4,109,0,0,0,2,97,97,109,0,0,0,3,98,98,98,109,0,...>>
    let input1 = vec![
        131, 104, 4, 109, 0, 0, 0, 2, 97, 97, 109, 0, 0, 0, 3, 98, 98, 98, 109, 0, 0, 0, 1, 99,
        109, 0, 0, 0, 4, 100, 100, 100, 100,
    ];
    let res1 = ErlTerm::decode(input1).unwrap();
    assert_eq!(tuple_of_binaries(vec!["aa", "bbb", "c", "dddd"]), res1);

    // term_to_binary({<<"erlang">>, <<"rust">>}).
    // <<131,104,2,109,0,0,0,6,101,114,108,97,110,103,109,0,0,0,4,114,117,115,116>>
    let input2 = vec![
        131, 104, 2, 109, 0, 0, 0, 6, 101, 114, 108, 97, 110, 103, 109, 0, 0, 0, 4, 114, 117, 115,
        116,
    ];
    let res2 = ErlTerm::decode(input2).unwrap();
    assert_eq!(tuple_of_binaries(vec!["erlang", "rust"]), res2);
}

#[test]
fn decode_large_tuple_of_integers() {
    // term_to_binary(…)
    // <<131,105,0,0,3,232,97,0,97,1,97,2,97,3,97,4,97,5,97,6,97,...>>
    let mut input1 = vec![131, 105, 0, 0, 3, 232];
    for i in 0..256u32 {
        input1.push(97);
        input1.push(i as u8);
    }
    for i in 256..1000u32 {
        input1.push(98);
        input1.extend_from_slice(&i.to_be_bytes());
    }
    let res1 = ErlTerm::decode(input1).unwrap();
    let t1 = res1.try_into_tuple().unwrap();
    assert_eq!(1000, t1.elements.len());
    assert_eq!(&ErlTerm::SmallInteger(0), t1.elements.first().unwrap());
    assert_eq!(&ErlTerm::Integer(999), t1.elements.last().unwrap());
}

//
// Helpers
//

fn atom(s: &str) -> ErlTerm {
    ErlTerm::Atom(s.to_string())
}

fn small_integer(i: u8) -> ErlTerm {
    ErlTerm::SmallInteger(i)
}

fn integer(i: i32) -> ErlTerm {
    ErlTerm::Integer(i)
}

fn big_integer(i: i64) -> ErlTerm {
    let negative = i < 0;
    let mut magnitude = Vec::new();
    let mut m = i.unsigned_abs();
    while m > 0 {
        magnitude.push((m & 0xFF) as u8);
        m >>= 8;
    }
    ErlTerm::BigInteger(BigInteger { negative, magnitude })
}

fn float(i: f64) -> ErlTerm {
    ErlTerm::Float(i.to_bits())
}

fn binary(s: &str) -> ErlTerm {
    ErlTerm::Binary(s.as_bytes().to_vec())
}

fn bit_binary(data: Vec<u8>, tail_len: u8) -> ErlTerm {
    ErlTerm::BitBinary(data, tail_len)
}

fn erl_pid(node: ErlTerm, id: u32, serial: u32, creation: u32) -> ErlTerm {
    ErlTerm::Pid(ErlPid {
        node: node.try_into_atom().unwrap(),
        id,
        serial,
        creation,
    })
}

fn erl_v3_port(node: ErlTerm, id: u32, creation: u32) -> ErlTerm {
    ErlTerm::V3Port(ErlV3Port {
        node: node.try_into_atom().unwrap(),
        id,
        creation,
    })
}

fn erl_v4_port(node: ErlTerm, id: u64, creation: u32) -> ErlTerm {
    ErlTerm::V4Port(ErlV4Port {
        node: node.try_into_atom().unwrap(),
        id,
        creation,
    })
}

fn tuple_of_u8(vec: Vec<u8>) -> ErlTerm {
    let xs = vec
        .iter()
        .map(|&i| ErlTerm::SmallInteger(i))
        .collect::<Vec<ErlTerm>>();
    ErlTerm::Tuple(Tuple { elements: xs })
}

fn tuple_of_binaries(vec: Vec<&str>) -> ErlTerm {
    let xs = vec
        .iter()
        .map(|&i| ErlTerm::Binary(i.as_bytes().to_vec()))
        .collect::<Vec<ErlTerm>>();
    ErlTerm::Tuple(Tuple { elements: xs })
}

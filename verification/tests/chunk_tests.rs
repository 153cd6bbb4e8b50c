use luavm::binary_chunk::{Constant, LUAC_NUM_BITS};
use luavm::errors::ChunkError;
use luavm::undump;

fn header_bytes() -> Vec<u8> {
    vec![
        0x1b, 0x4c, 0x75, 0x61, // signature
        0x53, // version
        0x00, // format
        0x19, 0x93, 0x0d, 0x0a, 0x1a, 0x0a, // marker
        0x04, 0x08, 0x04, 0x08, 0x08, // widths
        0x78, 0x56, 0x00, 0x00, 0x00, 0x00, 0x00, 0x00, // integer sentinel
        0x00, 0x00, 0x00, 0x00, 0x00, 0x28, 0x77, 0x40, // float sentinel
    ]
}

fn push_u32(out: &mut Vec<u8>, x: u32) {
    out.extend_from_slice(&x.to_le_bytes());
}

/// A minimal image: the header, one upvalue count byte, and a main
/// prototype with the given code and constants.
fn image(code: &[u32], constants: &[Constant]) -> Vec<u8> {
    let mut out = header_bytes();
    out.push(1); // top-level upvalue count
    out.push(0); // absent source name
    push_u32(&mut out, 0); // line_defined
    push_u32(&mut out, 0); // last_line_defined
    out.push(0); // num_params
    out.push(1); // is_vararg
    out.push(2); // max_stack_size
    push_u32(&mut out, code.len() as u32);
    for w in code {
        push_u32(&mut out, *w);
    }
    push_u32(&mut out, constants.len() as u32);
    for c in constants {
        match c {
            Constant::Nil => out.push(0x00),
            Constant::Boolean(b) => {
                out.push(0x01);
                out.push(if *b { 1 } else { 0 });
            }
            Constant::Number(n) => {
                out.push(0x03);
                out.extend_from_slice(&n.to_le_bytes());
            }
            Constant::Integer(i) => {
                out.push(0x13);
                out.extend_from_slice(&i.to_le_bytes());
            }
            Constant::Str(s) => {
                out.push(0x04);
                out.push((s.len() + 1) as u8);
                out.extend_from_slice(s.as_bytes());
            }
        }
    }
    push_u32(&mut out, 0); // upvalues
    push_u32(&mut out, 0); // nested prototypes
    push_u32(&mut out, 0); // line info
    push_u32(&mut out, 0); // local variables
    push_u32(&mut out, 0); // upvalue names
    out
}

#[test]
fn header_round_trip() {
    let img = image(&[0x00800026], &[]);
    let bc = undump(img.clone()).expect("canonical image must decode");
    let re = bc.header.encode();
    assert_eq!(re, img[0..33].to_vec());
    assert_eq!(bc.header.luac_num, LUAC_NUM_BITS);
    assert_eq!(LUAC_NUM_BITS, 370.5f64.to_bits());
    assert_eq!(bc.size_upvalues, 1);
}

#[test]
fn header_single_byte_mutation_fails() {
    let img = image(&[0x00800026], &[]);
    for i in 0..33 {
        for delta in [1u8, 0x80] {
            let mut bad = img.clone();
            bad[i] = bad[i].wrapping_add(delta);
            assert!(undump(bad).is_err(), "mutated byte {} must fail", i);
        }
    }
}

#[test]
fn header_error_variants() {
    assert_eq!(undump(vec![]).unwrap_err(), ChunkError::Truncated);
    assert_eq!(undump(vec![0x1b, 0x4c]).unwrap_err(), ChunkError::Truncated);

    let img = image(&[0x00800026], &[]);
    let cases: &[(usize, u8, ChunkError)] = &[
        (0, 0xff, ChunkError::BadSignature),
        (4, 0x52, ChunkError::BadVersion),
        (5, 0x01, ChunkError::BadFormat),
        (6, 0x00, ChunkError::BadMarker),
        (12, 0x08, ChunkError::BadCIntSize),
        (13, 0x04, ChunkError::BadSizeTSize),
        (14, 0x08, ChunkError::BadInstructionSize),
        (15, 0x04, ChunkError::BadIntegerSize),
        (16, 0x04, ChunkError::BadNumberSize),
        (17, 0x79, ChunkError::BadEndianness),
        (25, 0x01, ChunkError::BadFloatFormat),
    ];
    for (pos, val, expected) in cases {
        let mut bad = img.clone();
        bad[*pos] = *val;
        assert_eq!(undump(bad).unwrap_err(), *expected);
    }
}

#[test]
fn bad_constant_tag_fails() {
    let mut img = header_bytes();
    img.push(1);
    img.push(0);
    push_u32(&mut img, 0);
    push_u32(&mut img, 0);
    img.push(0);
    img.push(1);
    img.push(2);
    push_u32(&mut img, 0); // no code
    push_u32(&mut img, 1); // one constant
    img.push(0x55); // unknown tag
    assert_eq!(undump(img).unwrap_err(), ChunkError::BadTag);
}

#[test]
fn bad_string_payload_fails() {
    let mut img = header_bytes();
    img.push(1);
    img.push(0);
    push_u32(&mut img, 0);
    push_u32(&mut img, 0);
    img.push(0);
    img.push(1);
    img.push(2);
    push_u32(&mut img, 0);
    push_u32(&mut img, 1);
    img.push(0x04); // short string constant
    img.push(2); // one byte of text
    img.push(0xff); // not valid UTF-8 on its own
    assert_eq!(undump(img).unwrap_err(), ChunkError::BadString);
}

#[test]
fn truncated_body_fails() {
    let img = image(&[0x00800026], &[]);
    let cut = img[0..img.len() - 3].to_vec();
    assert_eq!(undump(cut).unwrap_err(), ChunkError::Truncated);
}

#[test]
fn constants_decode() {
    let img = image(
        &[0x00800026],
        &[
            Constant::Nil,
            Constant::Boolean(true),
            Constant::Integer(-42),
            Constant::Number(2.5f64.to_bits()),
            Constant::Str(String::from("hi")),
        ],
    );
    let bc = undump(img).expect("image must decode");
    let cs = &bc.main_func.constants;
    assert_eq!(cs.len(), 5);
    assert!(matches!(cs[0], Constant::Nil));
    assert!(matches!(cs[1], Constant::Boolean(true)));
    assert!(matches!(cs[2], Constant::Integer(-42)));
    assert!(matches!(cs[3], Constant::Number(n) if n == 2.5f64.to_bits()));
    assert!(matches!(&cs[4], Constant::Str(s) if s == "hi"));
}

#[test]
fn source_names_propagate() {
    // a main prototype with an explicit source and one nested prototype
    // whose own source is absent
    let mut img = header_bytes();
    img.push(1);
    // main prototype
    img.push(5); // "main" (4 bytes + 1)
    img.extend_from_slice(b"main");
    push_u32(&mut img, 0);
    push_u32(&mut img, 0);
    img.push(0);
    img.push(1);
    img.push(2);
    push_u32(&mut img, 1);
    push_u32(&mut img, 0x00800026);
    push_u32(&mut img, 0); // constants
    push_u32(&mut img, 0); // upvalues
    push_u32(&mut img, 1); // one nested prototype
    // nested prototype with absent source
    img.push(0);
    push_u32(&mut img, 1);
    push_u32(&mut img, 2);
    img.push(0);
    img.push(0);
    img.push(2);
    push_u32(&mut img, 1);
    push_u32(&mut img, 0x00800026);
    push_u32(&mut img, 0);
    push_u32(&mut img, 0);
    push_u32(&mut img, 0);
    push_u32(&mut img, 0);
    push_u32(&mut img, 0);
    push_u32(&mut img, 0);
    // back in the main prototype
    push_u32(&mut img, 0); // line info
    push_u32(&mut img, 0); // local variables
    push_u32(&mut img, 0); // upvalue names
    let bc = undump(img).expect("image must decode");
    assert_eq!(bc.main_func.source, "main");
    assert_eq!(bc.main_func.protos.len(), 1);
    assert_eq!(bc.main_func.protos[0].source, "main");
}

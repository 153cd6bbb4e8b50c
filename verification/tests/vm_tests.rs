use luavm::binary_chunk::Constant;
use luavm::errors::VmError;
use luavm::instruction::{a_bx, a_sbx, abc, ax, execute, opcode, step, StepOutcome};
use luavm::inst_table::{fb2int, int2fb};
use luavm::lua_state::LuaState;
use luavm::lua_value::LuaValue;
use luavm::number_ops::NumberOps;
use luavm::undump;

/// The float kernel used when running tests: real binary64 arithmetic.
pub struct RealNum;

impl NumberOps for RealNum {
    fn add(&self, a: u64, b: u64) -> u64 {
        (f64::from_bits(a) + f64::from_bits(b)).to_bits()
    }
    fn sub(&self, a: u64, b: u64) -> u64 {
        (f64::from_bits(a) - f64::from_bits(b)).to_bits()
    }
    fn mul(&self, a: u64, b: u64) -> u64 {
        (f64::from_bits(a) * f64::from_bits(b)).to_bits()
    }
    fn div(&self, a: u64, b: u64) -> u64 {
        (f64::from_bits(a) / f64::from_bits(b)).to_bits()
    }
    fn pow(&self, a: u64, b: u64) -> u64 {
        f64::from_bits(a).powf(f64::from_bits(b)).to_bits()
    }
    fn floor(&self, a: u64) -> u64 {
        f64::from_bits(a).floor().to_bits()
    }
    fn parse_number(&self, s: &String) -> Option<u64> {
        s.parse::<f64>().ok().map(|x| x.to_bits())
    }
    fn number_text(&self, a: u64) -> String {
        format!("{}", f64::from_bits(a))
    }
}

fn header_bytes() -> Vec<u8> {
    vec![
        0x1b, 0x4c, 0x75, 0x61, 0x53, 0x00, 0x19, 0x93, 0x0d, 0x0a, 0x1a, 0x0a, 0x04, 0x08, 0x04,
        0x08, 0x08, 0x78, 0x56, 0x00, 0x00, 0x00, 0x00, 0x00, 0x00, 0x00, 0x00, 0x00, 0x00, 0x00,
        0x28, 0x77, 0x40,
    ]
}

fn push_u32(out: &mut Vec<u8>, x: u32) {
    out.extend_from_slice(&x.to_le_bytes());
}

fn image(max_stack: u8, code: &[u32], constants: &[Constant]) -> Vec<u8> {
    let mut out = header_bytes();
    out.push(1);
    out.push(0);
    push_u32(&mut out, 0);
    push_u32(&mut out, 0);
    out.push(0);
    out.push(1);
    out.push(max_stack);
    push_u32(&mut out, code.len() as u32);
    for w in code {
        push_u32(&mut out, *w);
    }
    push_u32(&mut out, constants.len() as u32);
    for c in constants {
        match c {
            Constant::Nil => out.push(0x00),
            Constant::Boolean(b) => {
                out.push(0x01);
                out.push(if *b { 1 } else { 0 });
            }
            Constant::Number(n) => {
                out.push(0x03);
                out.extend_from_slice(&n.to_le_bytes());
            }
            Constant::Integer(i) => {
                out.push(0x13);
                out.extend_from_slice(&i.to_le_bytes());
            }
            Constant::Str(s) => {
                out.push(0x04);
                out.push((s.len() + 1) as u8);
                out.extend_from_slice(s.as_bytes());
            }
        }
    }
    push_u32(&mut out, 0);
    push_u32(&mut out, 0);
    push_u32(&mut out, 0);
    push_u32(&mut out, 0);
    push_u32(&mut out, 0);
    out
}

fn iabc(op: u32, a: u32, b: u32, c: u32) -> u32 {
    op | (a << 6) | (c << 14) | (b << 23)
}

fn iabx(op: u32, a: u32, bx: u32) -> u32 {
    op | (a << 6) | (bx << 14)
}

fn iasbx(op: u32, a: u32, sbx: i32) -> u32 {
    op | (a << 6) | (((sbx + 0x1ffff) as u32) << 14)
}

fn run(img: Vec<u8>) -> Result<LuaState, VmError> {
    let bc = undump(img).expect("image must decode");
    let n_regs = bc.main_func.max_stack_size;
    let mut ls = LuaState::new((n_regs + 8) as usize, bc.main_func);
    ls.set_top(n_regs as isize).unwrap();
    let k = RealNum;
    loop {
        match step(&mut ls, &k)? {
            StepOutcome::Ran(_) => {}
            StepOutcome::Halted => return Ok(ls),
        }
    }
}

#[test]
fn load_and_return() {
    // LOADK 0 0; LOADBOOL 1 1 0; RETURN 0 1
    let img = image(
        2,
        &[iabx(0x01, 0, 0), iabc(0x03, 1, 1, 0), iabc(0x26, 0, 1, 0)],
        &[Constant::Str(String::from("hello"))],
    );
    let ls = run(img).expect("program must run");
    assert_eq!(ls.get_top(), 2);
    assert_eq!(ls.stack.slots[0], LuaValue::Str(String::from("hello")));
    assert_eq!(ls.stack.slots[1], LuaValue::Boolean(true));
}

#[test]
fn arithmetic_program() {
    // LOADK 0 0 (2); LOADK 1 1 (3); ADD 0 0 1; RETURN
    let img = image(
        2,
        &[
            iabx(0x01, 0, 0),
            iabx(0x01, 1, 1),
            iabc(0x0d, 0, 0, 1),
            iabc(0x26, 0, 1, 0),
        ],
        &[Constant::Integer(2), Constant::Integer(3)],
    );
    let ls = run(img).expect("program must run");
    assert_eq!(ls.stack.slots[0], LuaValue::Integer(5));
}

#[test]
fn numeric_for_loop_program() {
    // a numeric loop summing 1..=3:
    //   r0 = 0 (sum), r1 = 1 (init), r2 = 3 (limit), r3 = 1 (step)
    //   FORPREP 1 +1 -> the loop check
    //   body: ADD 0 0 4 (sum += loop variable r4)
    //   FORLOOP 1 -2 -> back to the body
    //   RETURN
    let img = image(
        5,
        &[
            iabx(0x01, 0, 0),
            iabx(0x01, 1, 1),
            iabx(0x01, 2, 2),
            iabx(0x01, 3, 1),
            iasbx(0x28, 1, 1),
            iabc(0x0d, 0, 0, 4),
            iasbx(0x27, 1, -2),
            iabc(0x26, 0, 1, 0),
        ],
        &[
            Constant::Integer(0),
            Constant::Integer(1),
            Constant::Integer(3),
        ],
    );
    let ls = run(img).expect("program must run");
    assert_eq!(ls.stack.slots[0], LuaValue::Integer(6));
}

#[test]
fn table_program() {
    // NEWTABLE 0; LOADK 1 0 ("x"); LOADK 2 1 (10); SETTABLE 0 1 2;
    // GETTABLE 3 0 K0; RETURN
    let img = image(
        4,
        &[
            iabc(0x0b, 0, 0, 0),
            iabx(0x01, 1, 0),
            iabx(0x01, 2, 1),
            iabc(0x0a, 0, 1, 2),
            iabc(0x07, 3, 0, 0x100),
            iabc(0x26, 0, 1, 0),
        ],
        &[Constant::Str(String::from("x")), Constant::Integer(10)],
    );
    let ls = run(img).expect("program must run");
    assert_eq!(ls.stack.slots[3], LuaValue::Integer(10));
}

#[test]
fn unimplemented_opcode_faults() {
    // CALL is outside this core
    let img = image(2, &[iabc(0x24, 0, 1, 1), iabc(0x26, 0, 1, 0)], &[]);
    match run(img) {
        Err(e) => assert_eq!(e, VmError::Unimplemented),
        Ok(_) => panic!("a call opcode must fault"),
    }
}

#[test]
fn word_decoding() {
    let w = iabc(0x0d, 3, 5, 7);
    assert_eq!(opcode(w), 0x0d);
    assert_eq!(abc(w), (3, 5, 7));
    let w2 = iabx(0x01, 2, 12345);
    assert_eq!(a_bx(w2), (2, 12345));
    let w3 = iasbx(0x1e, 0, -4);
    assert_eq!(a_sbx(w3), (0, -4));
    let w4 = 0x2d | (123456 << 6);
    assert_eq!(ax(w4), 123456);
}

#[test]
fn jump_skips() {
    // LOADBOOL 0 1 1 skips the next instruction
    let img = image(
        2,
        &[
            iabc(0x03, 0, 1, 1),
            iabx(0x01, 0, 0), // skipped
            iabc(0x26, 0, 1, 0),
        ],
        &[Constant::Str(String::from("not loaded"))],
    );
    let ls = run(img).expect("program must run");
    assert_eq!(ls.stack.slots[0], LuaValue::Boolean(true));
}

#[test]
fn compare_program() {
    // EQ 1 K0 K1: skip next when (K0 == K1) != 1; then two LOADBOOLs
    let img = image(
        2,
        &[
            iabc(0x1f, 1, 0x100, 0x101),
            iabc(0x03, 0, 1, 1), // equal: load true, skip the false load
            iabc(0x03, 0, 0, 0),
            iabc(0x26, 0, 1, 0),
        ],
        &[Constant::Integer(4), Constant::Integer(4)],
    );
    let ls = run(img).expect("program must run");
    assert_eq!(ls.stack.slots[0], LuaValue::Boolean(true));
}

#[test]
fn set_list_program() {
    // NEWTABLE 0; LOADK 1..3; SETLIST A=0 B=3 C=1; GETTABLE 1 0 K(2); RETURN
    let img = image(
        4,
        &[
            iabc(0x0b, 0, 0, 0),
            iabx(0x01, 1, 0),
            iabx(0x01, 2, 1),
            iabx(0x01, 3, 2),
            iabc(0x2b, 0, 3, 1),
            iabc(0x07, 1, 0, 0x103),
            iabc(0x26, 0, 1, 0),
        ],
        &[
            Constant::Integer(10),
            Constant::Integer(20),
            Constant::Integer(30),
            Constant::Integer(2),
        ],
    );
    let ls = run(img).expect("program must run");
    // key 2 of the freshly filled table holds the second value
    assert_eq!(ls.stack.slots[1], LuaValue::Integer(20));
}

#[test]
fn logic_program() {
    // LOADBOOL 0 0 0 (false); NOT 1 0; TEST 1 _ 1 -> no skip; LOADK 2 0; RETURN
    let img = image(
        3,
        &[
            iabc(0x03, 0, 0, 0),
            iabc(0x1b, 1, 0, 0),
            iabc(0x22, 1, 0, 1),
            iabx(0x01, 2, 0),
            iabc(0x26, 0, 1, 0),
        ],
        &[Constant::Integer(7)],
    );
    let ls = run(img).expect("program must run");
    assert_eq!(ls.stack.slots[1], LuaValue::Boolean(true));
    assert_eq!(ls.stack.slots[2], LuaValue::Integer(7));
}

#[test]
fn size_hint_encoding() {
    assert_eq!(fb2int(0), 0);
    assert_eq!(fb2int(7), 7);
    assert_eq!(fb2int(8), 8);
    assert_eq!(fb2int(0x0f), 15);
    assert_eq!(fb2int(0x10), 16);
    assert_eq!(fb2int(0x18), 32);
    for x in [0u64, 1, 7, 8, 15, 16, 100, 1000, 12345, 0xffffffff] {
        let e = int2fb(x);
        assert!(e <= 0x1ff);
        assert!(fb2int(e) >= x);
    }
    assert_eq!(int2fb(5), 5);
}

#[test]
fn execute_rejects_unknown_opcodes() {
    let k = RealNum;
    let bc = undump(image(2, &[iabc(0x26, 0, 1, 0)], &[])).unwrap();
    let mut ls = LuaState::new(8, bc.main_func);
    ls.set_top(2).unwrap();
    assert_eq!(execute(0x3f, &mut ls, &k).unwrap_err(), VmError::Unimplemented);
}

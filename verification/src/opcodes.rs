//! The static opcode table: per-opcode operand layout and flags.

use vstd::prelude::*;

verus! {

/// The operand layout of a code word.
#[derive(Clone, Copy, PartialEq, Eq, Structural, Debug)]
pub enum OpMode {
    IABC,
    IABx,
    IAsBx,
    IAx,
}

/// What a B or C operand slot holds.
#[derive(Clone, Copy, PartialEq, Eq, Structural, Debug)]
pub enum OpArgMode {
    OpArgN,
    OpArgU,
    OpArgR,
    OpArgK,
}

/// Per-opcode metadata: the test flag (the opcode may skip the next
/// instruction), the set-A flag (the opcode writes register A), the
/// operand kinds of the B and C slots, and the operand layout.
pub struct Opcode {
    pub test_flag: bool,
    pub set_a_flag: bool,
    pub arg_b_mode: OpArgMode,
    pub arg_c_mode: OpArgMode,
    pub op_mode: OpMode,
}

/// The highest opcode in the instruction set.
pub const OP_MAX: u8 = 0x2d;

/// The opcode of the return instruction, the terminal of this core.
pub const OP_RETURN: u8 = 0x26;

/// The metadata of one opcode, as a specification table.
pub open spec fn opcode_info_spec(op: u8) -> Opcode {
    if op == 0x00 {
        Opcode {
            test_flag: false,
            set_a_flag: true,
            arg_b_mode: OpArgMode::OpArgR,
            arg_c_mode: OpArgMode::OpArgN,
            op_mode: OpMode::IABC,
        }
    } else if op == 0x01 {
        Opcode {
            test_flag: false,
            set_a_flag: true,
            arg_b_mode: OpArgMode::OpArgK,
            arg_c_mode: OpArgMode::OpArgN,
            op_mode: OpMode::IABx,
        }
    } else if op == 0x02 {
        Opcode {
            test_flag: false,
            set_a_flag: true,
            arg_b_mode: OpArgMode::OpArgN,
            arg_c_mode: OpArgMode::OpArgN,
            op_mode: OpMode::IABx,
        }
    } else if op == 0x03 {
        Opcode {
            test_flag: false,
            set_a_flag: true,
            arg_b_mode: OpArgMode::OpArgU,
            arg_c_mode: OpArgMode::OpArgU,
            op_mode: OpMode::IABC,
        }
    } else if op == 0x04 {
        Opcode {
            test_flag: false,
            set_a_flag: true,
            arg_b_mode: OpArgMode::OpArgU,
            arg_c_mode: OpArgMode::OpArgN,
            op_mode: OpMode::IABC,
        }
    } else if op == 0x05 || op == 0x06 {
        Opcode {
            test_flag: false,
            set_a_flag: true,
            arg_b_mode: OpArgMode::OpArgU,
            arg_c_mode: if op == 0x06 {
                OpArgMode::OpArgK
            } else {
                OpArgMode::OpArgN
            },
            op_mode: OpMode::IABC,
        }
    } else if op == 0x07 {
        Opcode {
            test_flag: false,
            set_a_flag: true,
            arg_b_mode: OpArgMode::OpArgR,
            arg_c_mode: OpArgMode::OpArgK,
            op_mode: OpMode::IABC,
        }
    } else if op == 0x08 || op == 0x0a {
        Opcode {
            test_flag: false,
            set_a_flag: false,
            arg_b_mode: OpArgMode::OpArgK,
            arg_c_mode: OpArgMode::OpArgK,
            op_mode: OpMode::IABC,
        }
    } else if op == 0x09 {
        Opcode {
            test_flag: false,
            set_a_flag: false,
            arg_b_mode: OpArgMode::OpArgU,
            arg_c_mode: OpArgMode::OpArgN,
            op_mode: OpMode::IABC,
        }
    } else if op == 0x0b {
        Opcode {
            test_flag: false,
            set_a_flag: true,
            arg_b_mode: OpArgMode::OpArgU,
            arg_c_mode: OpArgMode::OpArgU,
            op_mode: OpMode::IABC,
        }
    } else if op == 0x0c {
        Opcode {
            test_flag: false,
            set_a_flag: true,
            arg_b_mode: OpArgMode::OpArgR,
            arg_c_mode: OpArgMode::OpArgK,
            op_mode: OpMode::IABC,
        }
    } else if 0x0d <= op && op <= 0x18 {
        Opcode {
            test_flag: false,
            set_a_flag: true,
            arg_b_mode: OpArgMode::OpArgK,
            arg_c_mode: OpArgMode::OpArgK,
            op_mode: OpMode::IABC,
        }
    } else if 0x19 <= op && op <= 0x1c {
        Opcode {
            test_flag: false,
            set_a_flag: true,
            arg_b_mode: OpArgMode::OpArgR,
            arg_c_mode: OpArgMode::OpArgN,
            op_mode: OpMode::IABC,
        }
    } else if op == 0x1d {
        Opcode {
            test_flag: false,
            set_a_flag: true,
            arg_b_mode: OpArgMode::OpArgR,
            arg_c_mode: OpArgMode::OpArgR,
            op_mode: OpMode::IABC,
        }
    } else if op == 0x1e {
        Opcode {
            test_flag: false,
            set_a_flag: false,
            arg_b_mode: OpArgMode::OpArgR,
            arg_c_mode: OpArgMode::OpArgN,
            op_mode: OpMode::IAsBx,
        }
    } else if 0x1f <= op && op <= 0x21 {
        Opcode {
            test_flag: true,
            set_a_flag: false,
            arg_b_mode: OpArgMode::OpArgK,
            arg_c_mode: OpArgMode::OpArgK,
            op_mode: OpMode::IABC,
        }
    } else if op == 0x22 {
        Opcode {
            test_flag: true,
            set_a_flag: false,
            arg_b_mode: OpArgMode::OpArgN,
            arg_c_mode: OpArgMode::OpArgU,
            op_mode: OpMode::IABC,
        }
    } else if op == 0x23 {
        Opcode {
            test_flag: true,
            set_a_flag: true,
            arg_b_mode: OpArgMode::OpArgR,
            arg_c_mode: OpArgMode::OpArgU,
            op_mode: OpMode::IABC,
        }
    } else if op == 0x24 || op == 0x25 {
        Opcode {
            test_flag: false,
            set_a_flag: true,
            arg_b_mode: OpArgMode::OpArgU,
            arg_c_mode: OpArgMode::OpArgU,
            op_mode: OpMode::IABC,
        }
    } else if op == 0x26 {
        Opcode {
            test_flag: false,
            set_a_flag: false,
            arg_b_mode: OpArgMode::OpArgU,
            arg_c_mode: OpArgMode::OpArgN,
            op_mode: OpMode::IABC,
        }
    } else if op == 0x27 || op == 0x28 || op == 0x2a {
        Opcode {
            test_flag: false,
            set_a_flag: op != 0x2a,
            arg_b_mode: OpArgMode::OpArgR,
            arg_c_mode: OpArgMode::OpArgN,
            op_mode: OpMode::IAsBx,
        }
    } else if op == 0x29 {
        Opcode {
            test_flag: false,
            set_a_flag: false,
            arg_b_mode: OpArgMode::OpArgN,
            arg_c_mode: OpArgMode::OpArgU,
            op_mode: OpMode::IABC,
        }
    } else if op == 0x2b {
        Opcode {
            test_flag: false,
            set_a_flag: false,
            arg_b_mode: OpArgMode::OpArgU,
            arg_c_mode: OpArgMode::OpArgU,
            op_mode: OpMode::IABC,
        }
    } else if op == 0x2c {
        Opcode {
            test_flag: false,
            set_a_flag: true,
            arg_b_mode: OpArgMode::OpArgU,
            arg_c_mode: OpArgMode::OpArgN,
            op_mode: OpMode::IABx,
        }
    } else {
        Opcode {
            test_flag: false,
            set_a_flag: false,
            arg_b_mode: OpArgMode::OpArgU,
            arg_c_mode: OpArgMode::OpArgU,
            op_mode: OpMode::IAx,
        }
    }
}

/// The printable mnemonic of one opcode, as a specification table.
pub open spec fn opname_spec(op: u8) -> Seq<char> {
    if op == 0x00 {
        "MOVE    "@
    } else if op == 0x01 {
        "LOADK   "@
    } else if op == 0x02 {
        "LOADKX  "@
    } else if op == 0x03 {
        "LOADBOOL"@
    } else if op == 0x04 {
        "LOADNIL "@
    } else if op == 0x05 {
        "GETUPVAL"@
    } else if op == 0x06 {
        "GETTABUP"@
    } else if op == 0x07 {
        "GETTABLE"@
    } else if op == 0x08 {
        "SETTABUP"@
    } else if op == 0x09 {
        "SETUPVAL"@
    } else if op == 0x0a {
        "SETTABLE"@
    } else if op == 0x0b {
        "NEWTABLE"@
    } else if op == 0x0c {
        "SELF    "@
    } else if op == 0x0d {
        "ADD     "@
    } else if op == 0x0e {
        "SUB     "@
    } else if op == 0x0f {
        "MUL     "@
    } else if op == 0x10 {
        "MOD     "@
    } else if op == 0x11 {
        "POW     "@
    } else if op == 0x12 {
        "DIV     "@
    } else if op == 0x13 {
        "IDIV    "@
    } else if op == 0x14 {
        "BAND    "@
    } else if op == 0x15 {
        "BOR     "@
    } else if op == 0x16 {
        "BXOR    "@
    } else if op == 0x17 {
        "SHL     "@
    } else if op == 0x18 {
        "SHR     "@
    } else if op == 0x19 {
        "UNM     "@
    } else if op == 0x1a {
        "BNOT    "@
    } else if op == 0x1b {
        "NOT     "@
    } else if op == 0x1c {
        "LEN     "@
    } else if op == 0x1d {
        "CONCAT  "@
    } else if op == 0x1e {
        "JMP     "@
    } else if op == 0x1f {
        "EQ      "@
    } else if op == 0x20 {
        "LT      "@
    } else if op == 0x21 {
        "LE      "@
    } else if op == 0x22 {
        "TEST    "@
    } else if op == 0x23 {
        "TESTSET "@
    } else if op == 0x24 {
        "CALL    "@
    } else if op == 0x25 {
        "TAILCALL"@
    } else if op == 0x26 {
        "RETURN  "@
    } else if op == 0x27 {
        "FORLOOP "@
    } else if op == 0x28 {
        "FORPREP "@
    } else if op == 0x29 {
        "TFORCALL"@
    } else if op == 0x2a {
        "TFORLOOP"@
    } else if op == 0x2b {
        "SETLIST "@
    } else if op == 0x2c {
        "CLOSURE "@
    } else {
        "EXTRAARG"@
    }
}

/// The metadata of one opcode.
pub fn opcode_info(op: u8) -> (r: Opcode)
    requires
        op <= OP_MAX,
    ensures
        r == opcode_info_spec(op),
{
    if op == 0x00 {
        Opcode {
            test_flag: false,
            set_a_flag: true,
            arg_b_mode: OpArgMode::OpArgR,
            arg_c_mode: OpArgMode::OpArgN,
            op_mode: OpMode::IABC,
        }
    } else if op == 0x01 {
        Opcode {
            test_flag: false,
            set_a_flag: true,
            arg_b_mode: OpArgMode::OpArgK,
            arg_c_mode: OpArgMode::OpArgN,
            op_mode: OpMode::IABx,
        }
    } else if op == 0x02 {
        Opcode {
            test_flag: false,
            set_a_flag: true,
            arg_b_mode: OpArgMode::OpArgN,
            arg_c_mode: OpArgMode::OpArgN,
            op_mode: OpMode::IABx,
        }
    } else if op == 0x03 {
        Opcode {
            test_flag: false,
            set_a_flag: true,
            arg_b_mode: OpArgMode::OpArgU,
            arg_c_mode: OpArgMode::OpArgU,
            op_mode: OpMode::IABC,
        }
    } else if op == 0x04 {
        Opcode {
            test_flag: false,
            set_a_flag: true,
            arg_b_mode: OpArgMode::OpArgU,
            arg_c_mode: OpArgMode::OpArgN,
            op_mode: OpMode::IABC,
        }
    } else if op == 0x05 || op == 0x06 {
        Opcode {
            test_flag: false,
            set_a_flag: true,
            arg_b_mode: OpArgMode::OpArgU,
            arg_c_mode: if op == 0x06 {
                OpArgMode::OpArgK
            } else {
                OpArgMode::OpArgN
            },
            op_mode: OpMode::IABC,
        }
    } else if op == 0x07 {
        Opcode {
            test_flag: false,
            set_a_flag: true,
            arg_b_mode: OpArgMode::OpArgR,
            arg_c_mode: OpArgMode::OpArgK,
            op_mode: OpMode::IABC,
        }
    } else if op == 0x08 || op == 0x0a {
        Opcode {
            test_flag: false,
            set_a_flag: false,
            arg_b_mode: OpArgMode::OpArgK,
            arg_c_mode: OpArgMode::OpArgK,
            op_mode: OpMode::IABC,
        }
    } else if op == 0x09 {
        Opcode {
            test_flag: false,
            set_a_flag: false,
            arg_b_mode: OpArgMode::OpArgU,
            arg_c_mode: OpArgMode::OpArgN,
            op_mode: OpMode::IABC,
        }
    } else if op == 0x0b {
        Opcode {
            test_flag: false,
            set_a_flag: true,
            arg_b_mode: OpArgMode::OpArgU,
            arg_c_mode: OpArgMode::OpArgU,
            op_mode: OpMode::IABC,
        }
    } else if op == 0x0c {
        Opcode {
            test_flag: false,
            set_a_flag: true,
            arg_b_mode: OpArgMode::OpArgR,
            arg_c_mode: OpArgMode::OpArgK,
            op_mode: OpMode::IABC,
        }
    } else if 0x0d <= op && op <= 0x18 {
        Opcode {
            test_flag: false,
            set_a_flag: true,
            arg_b_mode: OpArgMode::OpArgK,
            arg_c_mode: OpArgMode::OpArgK,
            op_mode: OpMode::IABC,
        }
    } else if 0x19 <= op && op <= 0x1c {
        Opcode {
            test_flag: false,
            set_a_flag: true,
            arg_b_mode: OpArgMode::OpArgR,
            arg_c_mode: OpArgMode::OpArgN,
            op_mode: OpMode::IABC,
        }
    } else if op == 0x1d {
        Opcode {
            test_flag: false,
            set_a_flag: true,
            arg_b_mode: OpArgMode::OpArgR,
            arg_c_mode: OpArgMode::OpArgR,
            op_mode: OpMode::IABC,
        }
    } else if op == 0x1e {
        Opcode {
            test_flag: false,
            set_a_flag: false,
            arg_b_mode: OpArgMode::OpArgR,
            arg_c_mode: OpArgMode::OpArgN,
            op_mode: OpMode::IAsBx,
        }
    } else if 0x1f <= op && op <= 0x21 {
        Opcode {
            test_flag: true,
            set_a_flag: false,
            arg_b_mode: OpArgMode::OpArgK,
            arg_c_mode: OpArgMode::OpArgK,
            op_mode: OpMode::IABC,
        }
    } else if op == 0x22 {
        Opcode {
            test_flag: true,
            set_a_flag: false,
            arg_b_mode: OpArgMode::OpArgN,
            arg_c_mode: OpArgMode::OpArgU,
            op_mode: OpMode::IABC,
        }
    } else if op == 0x23 {
        Opcode {
            test_flag: true,
            set_a_flag: true,
            arg_b_mode: OpArgMode::OpArgR,
            arg_c_mode: OpArgMode::OpArgU,
            op_mode: OpMode::IABC,
        }
    } else if op == 0x24 || op == 0x25 {
        Opcode {
            test_flag: false,
            set_a_flag: true,
            arg_b_mode: OpArgMode::OpArgU,
            arg_c_mode: OpArgMode::OpArgU,
            op_mode: OpMode::IABC,
        }
    } else if op == 0x26 {
        Opcode {
            test_flag: false,
            set_a_flag: false,
            arg_b_mode: OpArgMode::OpArgU,
            arg_c_mode: OpArgMode::OpArgN,
            op_mode: OpMode::IABC,
        }
    } else if op == 0x27 || op == 0x28 || op == 0x2a {
        Opcode {
            test_flag: false,
            set_a_flag: op != 0x2a,
            arg_b_mode: OpArgMode::OpArgR,
            arg_c_mode: OpArgMode::OpArgN,
            op_mode: OpMode::IAsBx,
        }
    } else if op == 0x29 {
        Opcode {
            test_flag: false,
            set_a_flag: false,
            arg_b_mode: OpArgMode::OpArgN,
            arg_c_mode: OpArgMode::OpArgU,
            op_mode: OpMode::IABC,
        }
    } else if op == 0x2b {
        Opcode {
            test_flag: false,
            set_a_flag: false,
            arg_b_mode: OpArgMode::OpArgU,
            arg_c_mode: OpArgMode::OpArgU,
            op_mode: OpMode::IABC,
        }
    } else if op == 0x2c {
        Opcode {
            test_flag: false,
            set_a_flag: true,
            arg_b_mode: OpArgMode::OpArgU,
            arg_c_mode: OpArgMode::OpArgN,
            op_mode: OpMode::IABx,
        }
    } else {
        Opcode {
            test_flag: false,
            set_a_flag: false,
            arg_b_mode: OpArgMode::OpArgU,
            arg_c_mode: OpArgMode::OpArgU,
            op_mode: OpMode::IAx,
        }
    }
}

/// The printable mnemonic of one opcode.
pub fn opname(op: u8) -> (r: &'static str)
    requires
        op <= OP_MAX,
    ensures
        r@ == opname_spec(op),
{
    if op == 0x00 {
        "MOVE    "
    } else if op == 0x01 {
        "LOADK   "
    } else if op == 0x02 {
        "LOADKX  "
    } else if op == 0x03 {
        "LOADBOOL"
    } else if op == 0x04 {
        "LOADNIL "
    } else if op == 0x05 {
        "GETUPVAL"
    } else if op == 0x06 {
        "GETTABUP"
    } else if op == 0x07 {
        "GETTABLE"
    } else if op == 0x08 {
        "SETTABUP"
    } else if op == 0x09 {
        "SETUPVAL"
    } else if op == 0x0a {
        "SETTABLE"
    } else if op == 0x0b {
        "NEWTABLE"
    } else if op == 0x0c {
        "SELF    "
    } else if op == 0x0d {
        "ADD     "
    } else if op == 0x0e {
        "SUB     "
    } else if op == 0x0f {
        "MUL     "
    } else if op == 0x10 {
        "MOD     "
    } else if op == 0x11 {
        "POW     "
    } else if op == 0x12 {
        "DIV     "
    } else if op == 0x13 {
        "IDIV    "
    } else if op == 0x14 {
        "BAND    "
    } else if op == 0x15 {
        "BOR     "
    } else if op == 0x16 {
        "BXOR    "
    } else if op == 0x17 {
        "SHL     "
    } else if op == 0x18 {
        "SHR     "
    } else if op == 0x19 {
        "UNM     "
    } else if op == 0x1a {
        "BNOT    "
    } else if op == 0x1b {
        "NOT     "
    } else if op == 0x1c {
        "LEN     "
    } else if op == 0x1d {
        "CONCAT  "
    } else if op == 0x1e {
        "JMP     "
    } else if op == 0x1f {
        "EQ      "
    } else if op == 0x20 {
        "LT      "
    } else if op == 0x21 {
        "LE      "
    } else if op == 0x22 {
        "TEST    "
    } else if op == 0x23 {
        "TESTSET "
    } else if op == 0x24 {
        "CALL    "
    } else if op == 0x25 {
        "TAILCALL"
    } else if op == 0x26 {
        "RETURN  "
    } else if op == 0x27 {
        "FORLOOP "
    } else if op == 0x28 {
        "FORPREP "
    } else if op == 0x29 {
        "TFORCALL"
    } else if op == 0x2a {
        "TFORLOOP"
    } else if op == 0x2b {
        "SETLIST "
    } else if op == 0x2c {
        "CLOSURE "
    } else {
        "EXTRAARG"
    }
}

} // verus!

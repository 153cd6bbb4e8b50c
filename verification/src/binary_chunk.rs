//! The decoded form of a binary chunk: header, constants, and the tree of
//! function prototypes.
//!
//! Every header field is pinned to one compiled-in expected value, so a
//! header that decodes successfully is exactly one 33-byte sequence
//! (`canonical_header_bytes`), and re-encoding it reproduces those bytes.
//! The float sentinel is carried as its raw binary64 bit pattern.

use vstd::prelude::*;

verus! {

pub const LUAC_VERSION: u8 = 0x53;

pub const LUAC_FORMAT: u8 = 0;

pub const CINT_SIZE: u8 = 4;

pub const CSIZET_SIZE: u8 = 8;

pub const INSTRUCTION_SIZE: u8 = 4;

pub const LUA_INTEGER_SIZE: u8 = 8;

pub const LUA_NUMBER_SIZE: u8 = 8;

/// The integer sentinel that detects endianness mismatches.
pub const LUAC_INT: i64 = 0x5678;

/// The bit pattern of the float sentinel 370.5.
pub const LUAC_NUM_BITS: u64 = 0x4077_2800_0000_0000;

pub const TAG_NIL: u8 = 0x00;

pub const TAG_BOOLEAN: u8 = 0x01;

pub const TAG_NUMBER: u8 = 0x03;

pub const TAG_INTEGER: u8 = 0x13;

pub const TAG_SHORT_STR: u8 = 0x04;

pub const TAG_LONG_STR: u8 = 0x14;

/// The fixed-layout metadata at the front of every binary chunk.  The
/// float sentinel `luac_num` is stored as its raw bit pattern.
#[derive(Debug)]
pub struct Header {
    pub signature: [u8; 4],
    pub version: u8,
    pub format: u8,
    pub luac_data: [u8; 6],
    pub cint_size: u8,
    pub sizet_size: u8,
    pub instruction_size: u8,
    pub lua_integer_size: u8,
    pub lua_number_size: u8,
    pub luac_int: i64,
    pub luac_num: u64,
}

/// A constant of a prototype's constant table.  A float constant is
/// carried as its raw binary64 bit pattern.
#[derive(Debug)]
pub enum Constant {
    Nil,
    Boolean(bool),
    Number(u64),
    Integer(i64),
    Str(String),
}

/// An upvalue descriptor.
#[derive(Debug)]
pub struct Upvalue {
    pub instack: u8,
    pub idx: u8,
}

/// A local-variable debug range.
#[derive(Debug)]
pub struct LocVar {
    pub var_name: String,
    pub start_pc: u32,
    pub end_pc: u32,
}

/// One compiled function body: code, constants, debug metadata, and the
/// nested prototypes it owns.
#[derive(Debug)]
pub struct Prototype {
    pub source: String,
    pub line_defined: u32,
    pub last_line_defined: u32,
    pub num_params: u8,
    pub is_vararg: u8,
    pub max_stack_size: u8,
    pub code: Vec<u32>,
    pub constants: Vec<Constant>,
    pub upvalues: Vec<Upvalue>,
    pub protos: Vec<Prototype>,
    pub line_info: Vec<u32>,
    pub loc_vars: Vec<LocVar>,
    pub upvalue_names: Vec<String>,
}

/// A fully decoded binary chunk.
#[derive(Debug)]
pub struct BinaryChunk {
    pub header: Header,
    pub size_upvalues: u8,
    pub main_func: Prototype,
}

/// The eight little-endian bytes of a 64-bit value.
pub open spec fn le8_bytes(x: u64) -> Seq<u8> {
    seq![
        (x % 256) as u8,
        ((x / 0x100) % 256) as u8,
        ((x / 0x10000) % 256) as u8,
        ((x / 0x1000000) % 256) as u8,
        ((x / 0x100000000) % 256) as u8,
        ((x / 0x10000000000) % 256) as u8,
        ((x / 0x1000000000000) % 256) as u8,
        ((x / 0x100000000000000) % 256) as u8,
    ]
}

pub use crate::float_bits::u64_repr;

/// The 33 bytes a header encodes to: signature, version, format, marker,
/// the five width fields, and the two little-endian sentinels.
pub open spec fn header_bytes(h: Header) -> Seq<u8> {
    h.signature@ + seq![h.version, h.format] + h.luac_data@ + seq![
        h.cint_size,
        h.sizet_size,
        h.instruction_size,
        h.lua_integer_size,
        h.lua_number_size,
    ] + le8_bytes(u64_repr(h.luac_int)) + le8_bytes(h.luac_num)
}

/// The single 33-byte sequence every accepted header decodes from.
pub open spec fn canonical_header_bytes() -> Seq<u8> {
    seq![
        0x1bu8,
        0x4cu8,
        0x75u8,
        0x61u8,
        0x53u8,
        0x00u8,
        0x19u8,
        0x93u8,
        0x0du8,
        0x0au8,
        0x1au8,
        0x0au8,
        0x04u8,
        0x08u8,
        0x04u8,
        0x08u8,
        0x08u8,
        0x78u8,
        0x56u8,
        0x00u8,
        0x00u8,
        0x00u8,
        0x00u8,
        0x00u8,
        0x00u8,
        0x00u8,
        0x00u8,
        0x00u8,
        0x00u8,
        0x00u8,
        0x28u8,
        0x77u8,
        0x40u8,
    ]
}

impl Header {
    /// Serializes the header back to its byte form.
    #[verifier::rlimit(100)]
    pub fn encode(&self) -> (r: Vec<u8>)
        ensures
            r@ == header_bytes(*self),
    {
        let mut out: Vec<u8> = Vec::new();
        out.push(self.signature[0]);
        out.push(self.signature[1]);
        out.push(self.signature[2]);
        out.push(self.signature[3]);
        proof {
            assert(out@ =~= self.signature@);
        }
        out.push(self.version);
        out.push(self.format);
        proof {
            assert(out@ =~= self.signature@ + seq![self.version, self.format]);
        }
        out.push(self.luac_data[0]);
        out.push(self.luac_data[1]);
        out.push(self.luac_data[2]);
        out.push(self.luac_data[3]);
        out.push(self.luac_data[4]);
        out.push(self.luac_data[5]);
        proof {
            assert(out@ =~= self.signature@ + seq![self.version, self.format] + self.luac_data@);
        }
        out.push(self.cint_size);
        out.push(self.sizet_size);
        out.push(self.instruction_size);
        out.push(self.lua_integer_size);
        out.push(self.lua_number_size);
        proof {
            assert(out@ =~= self.signature@ + seq![self.version, self.format] + self.luac_data@
                + seq![
                self.cint_size,
                self.sizet_size,
                self.instruction_size,
                self.lua_integer_size,
                self.lua_number_size,
            ]);
        }
        let lo: u64 = if self.luac_int >= 0 {
            self.luac_int as u64
        } else {
            let m = -(self.luac_int + 1);
            0xffffffffffffffffu64 - (m as u64)
        };
        proof {
            assert(lo == u64_repr(self.luac_int));
        }
        push_le8(&mut out, lo);
        push_le8(&mut out, self.luac_num);
        proof {
            assert(out@ =~= header_bytes(*self));
        }
        out
    }
}

/// Appends the eight little-endian bytes of a 64-bit value.
fn push_le8(out: &mut Vec<u8>, x: u64)
    ensures
        final(out)@ == old(out)@ + le8_bytes(x),
{
    out.push((x % 256) as u8);
    out.push(((x / 0x100) % 256) as u8);
    out.push(((x / 0x10000) % 256) as u8);
    out.push(((x / 0x1000000) % 256) as u8);
    out.push(((x / 0x100000000) % 256) as u8);
    out.push(((x / 0x10000000000) % 256) as u8);
    out.push(((x / 0x1000000000000) % 256) as u8);
    out.push(((x / 0x100000000000000) % 256) as u8);
    proof {
        assert(final(out)@ =~= old(out)@ + le8_bytes(x));
    }
}

/// Source propagation: a nested prototype was given its parent's source
/// name when its own was absent, all the way down the tree, so a nested
/// prototype can only carry an empty source name under a parent whose own
/// source name is empty.
pub open spec fn sources_ok(p: Prototype) -> bool
    decreases p,
{
    forall|i: int|
        0 <= i < p.protos@.len() ==> ((#[trigger] p.protos@[i]).source@.len() == 0
            ==> p.source@.len() == 0) && sources_ok(p.protos@[i])
}

} // verus!

//! The binary chunk reader: consumes a byte buffer from the front and
//! reconstructs the header and the prototype tree.
//!
//! Every multi-byte integer is little-endian; floats are carried as their
//! raw bit patterns.  The format has no recovery mode: the first mismatch
//! or truncation aborts with a `ChunkError`.

use vstd::prelude::*;

use crate::binary_chunk::{
    canonical_header_bytes, header_bytes, le8_bytes, sources_ok, u64_repr, BinaryChunk, Constant,
    Header, LocVar, Prototype, Upvalue, CINT_SIZE, CSIZET_SIZE, INSTRUCTION_SIZE, LUAC_FORMAT,
    LUAC_INT, LUAC_NUM_BITS, LUAC_VERSION, LUA_INTEGER_SIZE, LUA_NUMBER_SIZE, TAG_BOOLEAN,
    TAG_INTEGER, TAG_LONG_STR, TAG_NIL, TAG_NUMBER, TAG_SHORT_STR,
};
use crate::errors::ChunkError;

verus! {

/// The value of the first four bytes of `s`, read little-endian.
pub open spec fn le32_at(s: Seq<u8>) -> int {
    s[0] + s[1] * 0x100 + s[2] * 0x10000 + s[3] * 0x1000000
}

/// The value of the first eight bytes of `s`, read little-endian.
pub open spec fn le64_at(s: Seq<u8>) -> int {
    s[0] + s[1] * 0x100 + s[2] * 0x10000 + s[3] * 0x1000000 + s[4] * 0x100000000 + s[5]
        * 0x10000000000 + s[6] * 0x1000000000000 + s[7] * 0x100000000000000
}

/// The first eight bytes of `s` read little-endian as a two's-complement
/// 64-bit integer.
pub open spec fn i64_from_le(s: Seq<u8>) -> i64 {
    if le64_at(s) < 0x8000000000000000 {
        le64_at(s) as i64
    } else {
        (le64_at(s) - 0x10000000000000000) as i64
    }
}

/// How a length-prefixed string at the front of `s` parses: the decoded
/// characters and the number of bytes consumed.  A zero first byte is the
/// absent string; 0xff announces an eight-byte length; otherwise the first
/// byte is the length plus one.
pub open spec fn string_parse(s: Seq<u8>) -> Result<(Seq<char>, int), ChunkError> {
    if s.len() == 0 {
        Err(ChunkError::Truncated)
    } else if s[0] == 0 {
        Ok((Seq::empty(), 1))
    } else {
        let rest = s.skip(1);
        let hdr: int = if s[0] == 0xff {
            9
        } else {
            1
        };
        if s[0] == 0xff && rest.len() < 8 {
            Err(ChunkError::Truncated)
        } else if s[0] == 0xff && le64_at(rest) == 0 {
            Err(ChunkError::BadString)
        } else {
            let len: int = if s[0] == 0xff {
                le64_at(rest) - 1
            } else {
                s[0] - 1
            };
            if s.len() < hdr + len {
                Err(ChunkError::Truncated)
            } else {
                let bytes = s.subrange(hdr, hdr + len);
                if vstd::utf8::valid_utf8(bytes) {
                    Ok((vstd::utf8::decode_utf8(bytes), hdr + len))
                } else {
                    Err(ChunkError::BadString)
                }
            }
        }
    }
}

/// The ghost shape of a decoded constant.
pub enum ConstModel {
    Nil,
    Boolean(bool),
    Number(u64),
    Integer(i64),
    Str(Seq<char>),
}

/// The ghost shape of an exec-level constant.
pub open spec fn const_view(c: Constant) -> ConstModel {
    match c {
        Constant::Nil => ConstModel::Nil,
        Constant::Boolean(b) => ConstModel::Boolean(b),
        Constant::Number(n) => ConstModel::Number(n),
        Constant::Integer(i) => ConstModel::Integer(i),
        Constant::Str(s) => ConstModel::Str(s@),
    }
}

/// How a tagged constant at the front of `s` parses: its shape and the
/// number of bytes consumed.
pub open spec fn const_parse(s: Seq<u8>) -> Result<(ConstModel, int), ChunkError> {
    if s.len() == 0 {
        Err(ChunkError::Truncated)
    } else {
        let tag = s[0];
        let rest = s.skip(1);
        if tag == TAG_NIL {
            Ok((ConstModel::Nil, 1))
        } else if tag == TAG_BOOLEAN {
            if rest.len() < 1 {
                Err(ChunkError::Truncated)
            } else {
                Ok((ConstModel::Boolean(rest[0] != 0), 2))
            }
        } else if tag == TAG_INTEGER {
            if rest.len() < 8 {
                Err(ChunkError::Truncated)
            } else {
                Ok((ConstModel::Integer(i64_from_le(rest)), 9))
            }
        } else if tag == TAG_NUMBER {
            if rest.len() < 8 {
                Err(ChunkError::Truncated)
            } else {
                Ok((ConstModel::Number(le64_at(rest) as u64), 9))
            }
        } else if tag == TAG_SHORT_STR || tag == TAG_LONG_STR {
            match string_parse(rest) {
                Ok(t) => Ok((ConstModel::Str(t.0), 1 + t.1)),
                Err(e) => Err(e),
            }
        } else {
            Err(ChunkError::BadTag)
        }
    }
}

/// How `n` consecutive tagged constants at the front of `s` parse: their
/// shapes and the total number of bytes consumed.
pub open spec fn const_vec_parse(s: Seq<u8>, n: nat) -> Result<(Seq<ConstModel>, int), ChunkError>
    decreases n,
{
    if n == 0 {
        Ok((Seq::empty(), 0))
    } else {
        match const_parse(s) {
            Ok(t) => match const_vec_parse(s.skip(t.1), (n - 1) as nat) {
                Ok(u) => Ok((seq![t.0] + u.0, t.1 + u.1)),
                Err(e) => Err(e),
            },
            Err(e) => Err(e),
        }
    }
}

/// How a count-prefixed vector of four-byte words parses: the number of
/// bytes it occupies, count included.
pub open spec fn u32_vec_parse(s: Seq<u8>) -> Result<int, ChunkError> {
    if s.len() < 4 {
        Err(ChunkError::Truncated)
    } else if s.len() < 4 + 4 * le32_at(s) {
        Err(ChunkError::Truncated)
    } else {
        Ok(4 + 4 * le32_at(s))
    }
}

/// How a count-prefixed vector of two-byte upvalue descriptors parses.
pub open spec fn upvalue_vec_parse(s: Seq<u8>) -> Result<int, ChunkError> {
    if s.len() < 4 {
        Err(ChunkError::Truncated)
    } else if s.len() < 4 + 2 * le32_at(s) {
        Err(ChunkError::Truncated)
    } else {
        Ok(4 + 2 * le32_at(s))
    }
}

/// How one local-variable debug range parses: a string and two words.
pub open spec fn loc_var_parse(s: Seq<u8>) -> Result<int, ChunkError> {
    match string_parse(s) {
        Err(e) => Err(e),
        Ok(t) => if s.len() < t.1 + 8 {
            Err(ChunkError::Truncated)
        } else {
            Ok(t.1 + 8)
        },
    }
}

/// How `n` consecutive local-variable debug ranges parse.
pub open spec fn loc_var_vec_parse(s: Seq<u8>, n: nat) -> Result<int, ChunkError>
    decreases n,
{
    if n == 0 {
        Ok(0)
    } else {
        match loc_var_parse(s) {
            Err(e) => Err(e),
            Ok(u) => match loc_var_vec_parse(s.skip(u), (n - 1) as nat) {
                Err(e) => Err(e),
                Ok(u2) => Ok(u + u2),
            },
        }
    }
}

/// How `n` consecutive length-prefixed strings parse.
pub open spec fn string_vec_parse(s: Seq<u8>, n: nat) -> Result<int, ChunkError>
    decreases n,
{
    if n == 0 {
        Ok(0)
    } else {
        match string_parse(s) {
            Err(e) => Err(e),
            Ok(t) => match string_vec_parse(s.skip(t.1), (n - 1) as nat) {
                Err(e) => Err(e),
                Ok(u2) => Ok(t.1 + u2),
            },
        }
    }
}

/// How a prototype's head parses: the source string, the eleven fixed
/// bytes, the code words, the constants, and the upvalue descriptors.
/// The impossible-range guards keep the offsets visibly well-formed;
/// each sub-parse in fact consumes within range.
#[verifier::opaque]
pub open spec fn proto_head_parse(s: Seq<u8>) -> Result<int, ChunkError> {
    match string_parse(s) {
        Err(e) => Err(e),
        Ok(t) => if !(1 <= t.1 <= s.len()) {
            Err(ChunkError::Truncated)
        } else {
            let r1 = s.skip(t.1);
            if r1.len() < 11 {
                Err(ChunkError::Truncated)
            } else {
                let r2 = r1.skip(11);
                match u32_vec_parse(r2) {
                    Err(e) => Err(e),
                    Ok(cu) => {
                        let r3 = r2.skip(cu);
                        if r3.len() < 4 {
                            Err(ChunkError::Truncated)
                        } else {
                            match const_vec_parse(r3.skip(4), le32_at(r3) as nat) {
                                Err(e) => Err(e),
                                Ok(k) => if !(0 <= k.1 <= r3.len() - 4) {
                                    Err(ChunkError::Truncated)
                                } else {
                                    let r4 = r3.skip(4).skip(k.1);
                                    match upvalue_vec_parse(r4) {
                                        Err(e) => Err(e),
                                        Ok(uu) => Ok(t.1 + 11 + cu + 4 + k.1 + uu),
                                    }
                                },
                            }
                        }
                    },
                }
            }
        },
    }
}

/// How a whole prototype parses: its head, the nested prototypes, and
/// the debug tail; the number of bytes it occupies, or the first fault.
pub open spec fn proto_parse(s: Seq<u8>) -> Result<int, ChunkError>
    decreases s.len(), 0int, 0int,
{
    match proto_head_parse(s) {
        Err(e) => Err(e),
        Ok(hu) => if !(1 <= hu <= s.len()) {
            Err(ChunkError::Truncated)
        } else {
            let r5 = s.skip(hu);
            if r5.len() < 4 {
                Err(ChunkError::Truncated)
            } else {
                match proto_vec_parse(r5.skip(4), le32_at(r5) as nat) {
                    Err(e) => Err(e),
                    Ok(pu) => if !(0 <= pu <= r5.len() - 4) {
                        Err(ChunkError::Truncated)
                    } else {
                        match tail_parse(r5.skip(4).skip(pu)) {
                            Err(e) => Err(e),
                            Ok(tu) => Ok(hu + 4 + pu + tu),
                        }
                    },
                }
            }
        },
    }
}

/// How `n` consecutive prototypes parse.
pub open spec fn proto_vec_parse(s: Seq<u8>, n: nat) -> Result<int, ChunkError>
    decreases s.len(), 1int, n,
{
    if n == 0 {
        Ok(0)
    } else {
        match proto_parse(s) {
            Err(e) => Err(e),
            Ok(u) => if !(1 <= u <= s.len()) {
                Err(ChunkError::Truncated)
            } else {
                match proto_vec_parse(s.skip(u), (n - 1) as nat) {
                    Err(e) => Err(e),
                    Ok(u2) => Ok(u + u2),
                }
            },
        }
    }
}

/// Consecutive prototypes against the byte region they were read from:
/// each one's head is pinned to its position (per
/// `proto_prefix_parsed`), with positions advancing by `proto_parse`.
pub open spec fn protos_parsed(s: Seq<u8>, ps: Seq<Prototype>, parent: Seq<char>) -> bool
    decreases ps.len(),
{
    if ps.len() == 0 {
        true
    } else {
        &&& proto_prefix_parsed(s, ps[0], parent)
        &&& (proto_parse(s) matches Ok(u) && 1 <= u <= s.len() && protos_parsed(
            s.skip(u),
            ps.skip(1),
            parent,
        ))
    }
}

/// A parsed run of prototypes consumes between zero bytes and the
/// whole region.
proof fn lemma_proto_vec_bounds(s: Seq<u8>, n: nat)
    requires
        proto_vec_parse(s, n) is Ok,
    ensures
        0 <= proto_vec_parse(s, n)->Ok_0 <= s.len(),
    decreases n,
{
    if n != 0 {
        let u1 = proto_parse(s)->Ok_0;
        lemma_proto_vec_bounds(s.skip(u1), (n - 1) as nat);
    }
}

/// Appends one prototype to a parsed count: the run of `n + 1` parses
/// exactly when one more parses at the position the first `n` reach.
proof fn lemma_proto_vec_snoc(s: Seq<u8>, n: nat)
    requires
        proto_vec_parse(s, n) matches Ok(c) && 0 <= c <= s.len(),
    ensures
        ({
            let c = proto_vec_parse(s, n)->Ok_0;
            proto_vec_parse(s, (n + 1) as nat) == (match proto_parse(s.skip(c)) {
                Ok(u) => if 1 <= u <= s.skip(c).len() {
                    Ok::<int, ChunkError>(c + u)
                } else {
                    Err::<int, ChunkError>(ChunkError::Truncated)
                },
                Err(e) => Err::<int, ChunkError>(e),
            })
        }),
    decreases n,
{
    let c = proto_vec_parse(s, n)->Ok_0;
    if n == 0 {
        assert(c == 0);
        assert(s.skip(0) =~= s);
        match proto_parse(s.skip(c)) {
            Ok(u) => {
                assert(proto_parse(s) == Ok::<int, ChunkError>(u));
                if 1 <= u <= s.skip(c).len() {
                    assert(proto_vec_parse(s.skip(u), 0nat) == Ok::<int, ChunkError>(0int));
                    assert(proto_vec_parse(s, 1nat) == Ok::<int, ChunkError>(u));
                } else {
                    assert(proto_vec_parse(s, 1nat) == Err::<int, ChunkError>(
                        ChunkError::Truncated,
                    ));
                }
            },
            Err(e) => {
                assert(proto_vec_parse(s, 1nat) == Err::<int, ChunkError>(e));
            },
        }
    } else {
        let u1 = proto_parse(s)->Ok_0;
        let s1 = s.skip(u1);
        let c2 = proto_vec_parse(s1, (n - 1) as nat)->Ok_0;
        assert(proto_vec_parse(s1, (n - 1) as nat) is Ok && c == u1 + c2);
        lemma_proto_vec_bounds(s1, (n - 1) as nat);
        lemma_proto_vec_snoc(s1, (n - 1) as nat);
        assert(s1.skip(c2) =~= s.skip(c));
        assert(proto_vec_parse(s, (n + 1) as nat) == (match proto_vec_parse(s1, n) {
            Ok(x) => Ok::<int, ChunkError>(u1 + x),
            Err(e) => Err::<int, ChunkError>(e),
        }));
        match proto_parse(s.skip(c)) {
            Ok(u) => {
                if 1 <= u <= s.skip(c).len() {
                    assert(proto_vec_parse(s1, n) == Ok::<int, ChunkError>(c2 + u));
                    assert(proto_vec_parse(s, (n + 1) as nat) == Ok::<int, ChunkError>(c + u));
                } else {
                    assert(proto_vec_parse(s1, n) == Err::<int, ChunkError>(
                        ChunkError::Truncated,
                    ));
                    assert(proto_vec_parse(s, (n + 1) as nat) == Err::<int, ChunkError>(
                        ChunkError::Truncated,
                    ));
                }
            },
            Err(e) => {
                assert(proto_vec_parse(s1, n) == Err::<int, ChunkError>(e));
                assert(proto_vec_parse(s, (n + 1) as nat) == Err::<int, ChunkError>(e));
            },
        }
    }
}

/// Extends a parsed run of prototypes by one more at the next region.
proof fn lemma_protos_parsed_push(s: Seq<u8>, ps: Seq<Prototype>, parent: Seq<char>, p: Prototype)
    requires
        protos_parsed(s, ps, parent),
        proto_vec_parse(s, ps.len()) matches Ok(u0) && 0 <= u0 <= s.len()
            && proto_prefix_parsed(s.skip(u0), p, parent) && (proto_parse(s.skip(u0)) matches Ok(
            u,
        ) && 1 <= u <= s.skip(u0).len()),
    ensures
        protos_parsed(s, ps.push(p), parent),
    decreases ps.len(),
{
    if ps.len() == 0 {
        assert(proto_vec_parse(s, 0) == Ok::<int, ChunkError>(0int));
        assert(s.skip(0) =~= s);
        assert(ps.push(p)[0] == p);
        assert(ps.push(p).skip(1) =~= Seq::<Prototype>::empty());
        assert(proto_prefix_parsed(s, ps.push(p)[0], parent));
        let uh = proto_parse(s)->Ok_0;
        assert(proto_parse(s) is Ok && 1 <= uh <= s.len());
        assert(protos_parsed(s.skip(uh), ps.push(p).skip(1), parent));
        assert(protos_parsed(s, ps.push(p), parent));
    } else {
        let u0 = proto_vec_parse(s, ps.len())->Ok_0;
        let u1 = proto_parse(s)->Ok_0;
        let s1 = s.skip(u1);
        let u2 = proto_vec_parse(s1, (ps.len() - 1) as nat)->Ok_0;
        assert(proto_vec_parse(s1, (ps.len() - 1) as nat) is Ok && u0 == u1 + u2);
        lemma_proto_vec_bounds(s1, (ps.len() - 1) as nat);
        assert(s1.skip(u2) =~= s.skip(u0));
        assert(proto_prefix_parsed(s1.skip(u2), p, parent));
        assert(proto_parse(s1.skip(u2)) is Ok);
        lemma_protos_parsed_push(s1, ps.skip(1), parent, p);
        assert(ps.push(p)[0] == ps[0]);
        assert(ps.skip(1).push(p) =~= ps.push(p).skip(1));
        assert(protos_parsed(s1, ps.push(p).skip(1), parent));
        assert(proto_parse(s) matches Ok(uh) && 1 <= uh <= s.len());
        assert(protos_parsed(s.skip(u1), ps.push(p).skip(1), parent));
        assert(proto_prefix_parsed(s, ps.push(p)[0], parent));
    }
}

/// How a prototype's debug tail parses: the line-info words, the
/// local-variable ranges, and the upvalue names.
#[verifier::opaque]
pub open spec fn tail_parse(s: Seq<u8>) -> Result<int, ChunkError> {
    match u32_vec_parse(s) {
        Err(e) => Err(e),
        Ok(lu) => if !(0 <= lu <= s.len()) {
            Err(ChunkError::Truncated)
        } else {
            let r7 = s.skip(lu);
            if r7.len() < 4 {
                Err(ChunkError::Truncated)
            } else {
                match loc_var_vec_parse(r7.skip(4), le32_at(r7) as nat) {
                    Err(e) => Err(e),
                    Ok(vu) => if !(0 <= vu <= r7.len() - 4) {
                        Err(ChunkError::Truncated)
                    } else {
                        let r8 = r7.skip(4).skip(vu);
                        if r8.len() < 4 {
                            Err(ChunkError::Truncated)
                        } else {
                            match string_vec_parse(r8.skip(4), le32_at(r8) as nat) {
                                Err(e) => Err(e),
                                Ok(su) => Ok(lu + 4 + vu + 4 + su),
                            }
                        }
                    },
                }
            }
        },
    }
}

/// Relies on `String::from_utf8`: yields a string exactly when the bytes
/// are valid UTF-8, and then the string's characters are their decoding
/// and its bytes are unchanged.
#[verifier::external_body]
fn bytes_to_string(v: Vec<u8>) -> (r: Option<String>)
    ensures
        r is Some <==> vstd::utf8::valid_utf8(v@),
        r matches Some(s) ==> s@ == vstd::utf8::decode_utf8(v@) && vstd::utf8::encode_utf8(s@)
            == v@,
{
    match String::from_utf8(v) {
        Ok(s) => Some(s),
        Err(_) => None,
    }
}


/// The prefix of a prototype against the bytes it was read from: the
/// resolved source name, the header counters, every code word, and every
/// constant, each pinned to its position.  What follows the constants
/// (upvalues, nested prototypes, debug data) has variable width.
pub open spec fn proto_prefix_parsed(s: Seq<u8>, p: Prototype, parent: Seq<char>) -> bool {
    string_parse(s) matches Ok(t) && {
        let rest = s.skip(t.1);
        &&& (t.0.len() > 0 ==> p.source@ == t.0)
        &&& (t.0.len() == 0 ==> p.source@ == parent)
        &&& p.line_defined == le32_at(rest)
        &&& p.last_line_defined == le32_at(rest.skip(4))
        &&& p.num_params == rest[8]
        &&& p.is_vararg == rest[9]
        &&& p.max_stack_size == rest[10]
        &&& p.code@.len() == le32_at(rest.skip(11))
        &&& (forall|ci: int|
            0 <= ci < p.code@.len() ==> p.code@[ci] == le32_at(#[trigger] rest.skip(15 + 4 * ci)))
        &&& {
            let cs = rest.skip(15 + 4 * (p.code@.len() as int));
            &&& cs.len() >= 4
            &&& (match const_vec_parse(cs.skip(4), le32_at(cs) as nat) {
                Ok(u) => p.constants@.len() == le32_at(cs) && (forall|j: int|
                    0 <= j < p.constants@.len() ==> const_view(#[trigger] p.constants@[j])
                        == u.0[j]),
                Err(_) => false,
            })
        }
    }
}

/// The decoded head of one prototype: everything before the nested
/// prototypes and the debug tail.
struct ProtoHead {
    source: String,
    line_defined: u32,
    last_line_defined: u32,
    num_params: u8,
    is_vararg: u8,
    max_stack_size: u8,
    code: Vec<u32>,
    constants: Vec<Constant>,
    upvalues: Vec<Upvalue>,
}

/// The decoded head of a prototype against the bytes it was read from:
/// the resolved source name, the header counters, every code word and
/// every constant, each pinned to its position.
spec fn head_parsed(s: Seq<u8>, h: ProtoHead, parent: Seq<char>) -> bool {
    string_parse(s) matches Ok(t) && {
        let rest = s.skip(t.1);
        &&& (t.0.len() > 0 ==> h.source@ == t.0)
        &&& (t.0.len() == 0 ==> h.source@ == parent)
        &&& h.line_defined == le32_at(rest)
        &&& h.last_line_defined == le32_at(rest.skip(4))
        &&& h.num_params == rest[8]
        &&& h.is_vararg == rest[9]
        &&& h.max_stack_size == rest[10]
        &&& h.code@.len() == le32_at(rest.skip(11))
        &&& (forall|ci: int|
            0 <= ci < h.code@.len() ==> h.code@[ci] == le32_at(#[trigger] rest.skip(15 + 4 * ci)))
        &&& {
            let cs = rest.skip(15 + 4 * (h.code@.len() as int));
            &&& cs.len() >= 4
            &&& (match const_vec_parse(cs.skip(4), le32_at(cs) as nat) {
                Ok(u) => h.constants@.len() == le32_at(cs) && (forall|j: int|
                    0 <= j < h.constants@.len() ==> const_view(#[trigger] h.constants@[j])
                        == u.0[j]),
                Err(_) => false,
            })
        }
    }
}

/// A cursor over the raw bytes of a chunk; reading consumes from the
/// front.
pub struct Reader {
    pub data: Vec<u8>,
}

impl Reader {
    /// Discards the first `n` bytes.
    fn consume(&mut self, n: usize)
        requires
            n <= old(self).data@.len(),
        ensures
            final(self).data@ == old(self).data@.skip(n as int),
    {
        let mut i: usize = 0;
        while i < n
            invariant
                i <= n,
                n <= old(self).data@.len(),
                self.data@ == old(self).data@.skip(i as int),
            decreases n - i,
        {
            self.data.remove(0);
            proof {
                assert(old(self).data@.skip(i as int).remove(0) =~= old(self).data@.skip(
                    i as int + 1,
                ));
            }
            i = i + 1;
        }
    }

    /// Reads one byte.
    fn read_byte(&mut self) -> (r: Result<u8, ChunkError>)
        ensures
            old(self).data@.len() == 0 ==> r == Err::<u8, ChunkError>(ChunkError::Truncated)
                && final(self).data@ == old(self).data@,
            old(self).data@.len() > 0 ==> r == Ok::<u8, ChunkError>(old(self).data@[0]) && final(self).data@ == old(self).data@.skip(1),
    {
        if self.data.len() == 0 {
            return Err(ChunkError::Truncated);
        }
        let b = self.data[0];
        self.consume(1);
        Ok(b)
    }

    /// Reads a four-byte little-endian unsigned integer.
    fn read_uint32(&mut self) -> (r: Result<u32, ChunkError>)
        ensures
            old(self).data@.len() < 4 ==> r == Err::<u32, ChunkError>(ChunkError::Truncated)
                && final(self).data@ == old(self).data@,
            old(self).data@.len() >= 4 ==> (r matches Ok(x) && x == le32_at(old(self).data@)
                && final(self).data@ == old(self).data@.skip(4)),
    {
        if self.data.len() < 4 {
            return Err(ChunkError::Truncated);
        }
        let a0 = self.data[0] as u32;
        let a1 = self.data[1] as u32;
        let a2 = self.data[2] as u32;
        let a3 = self.data[3] as u32;
        self.consume(4);
        Ok(a0 + a1 * 0x100 + a2 * 0x10000 + a3 * 0x1000000)
    }

    /// Reads an eight-byte little-endian unsigned integer.
    fn read_uint64(&mut self) -> (r: Result<u64, ChunkError>)
        ensures
            old(self).data@.len() < 8 ==> r == Err::<u64, ChunkError>(ChunkError::Truncated)
                && final(self).data@ == old(self).data@,
            old(self).data@.len() >= 8 ==> (r matches Ok(x) && x == le64_at(old(self).data@)
                && final(self).data@ == old(self).data@.skip(8)),
    {
        if self.data.len() < 8 {
            return Err(ChunkError::Truncated);
        }
        let a0 = self.data[0] as u64;
        let a1 = self.data[1] as u64;
        let a2 = self.data[2] as u64;
        let a3 = self.data[3] as u64;
        let a4 = self.data[4] as u64;
        let a5 = self.data[5] as u64;
        let a6 = self.data[6] as u64;
        let a7 = self.data[7] as u64;
        self.consume(8);
        Ok(
            a0 + a1 * 0x100 + a2 * 0x10000 + a3 * 0x1000000 + a4 * 0x100000000 + a5 * 0x10000000000
                + a6 * 0x1000000000000 + a7 * 0x100000000000000,
        )
    }

    /// Reads an eight-byte little-endian two's-complement integer.
    fn read_int64(&mut self) -> (r: Result<i64, ChunkError>)
        ensures
            old(self).data@.len() < 8 ==> r == Err::<i64, ChunkError>(ChunkError::Truncated)
                && final(self).data@ == old(self).data@,
            old(self).data@.len() >= 8 ==> (r matches Ok(x) && x == i64_from_le(old(self).data@)
                && final(self).data@ == old(self).data@.skip(8)),
    {
        let x = self.read_uint64()?;
        if x < 0x8000000000000000 {
            Ok(x as i64)
        } else {
            Ok(-((0xffffffffffffffffu64 - x) as i64) - 1)
        }
    }

    /// Reads `n` raw bytes.
    fn read_bytes(&mut self, n: usize) -> (r: Result<Vec<u8>, ChunkError>)
        ensures
            old(self).data@.len() < n ==> r == Err::<Vec<u8>, ChunkError>(ChunkError::Truncated)
                && final(self).data@ == old(self).data@,
            old(self).data@.len() >= n ==> (r matches Ok(v) && v@ == old(self).data@.take(n as int)
                && final(self).data@ == old(self).data@.skip(n as int)),
    {
        if self.data.len() < n {
            return Err(ChunkError::Truncated);
        }
        let mut out: Vec<u8> = Vec::new();
        let mut i: usize = 0;
        while i < n
            invariant
                i <= n,
                n <= self.data@.len(),
                self.data@ == old(self).data@,
                out@ == old(self).data@.take(i as int),
            decreases n - i,
        {
            out.push(self.data[i]);
            proof {
                assert(old(self).data@.take(i as int).push(old(self).data@[i as int]) =~= old(self).data@.take(i as int + 1));
            }
            i = i + 1;
        }
        self.consume(n);
        Ok(out)
    }

    /// Reads a length-prefixed string, exactly per `string_parse`.
    fn read_string(&mut self) -> (r: Result<String, ChunkError>)
        ensures
            final(self).data@.len() <= old(self).data@.len(),
            match string_parse(old(self).data@) {
                Ok(t) => r matches Ok(s) && s@ == t.0 && final(self).data@ == old(self).data@.skip(t.1) && 1 <= t.1 <= old(self).data@.len(),
                Err(e) => r == Err::<String, ChunkError>(e),
            },
    {
        let ghost base = old(self).data@;
        let b0 = self.read_byte()?;
        if b0 == 0 {
            let s = String::new();
            return Ok(s);
        }
        let ghost hdr: int = if b0 == 0xff {
            9
        } else {
            1
        };
        let need: u64 = if b0 == 0xff {
            let sz = self.read_uint64()?;
            if sz == 0 {
                return Err(ChunkError::BadString);
            }
            sz - 1
        } else {
            (b0 - 1) as u64
        };
        proof {
            assert(self.data@ == base.skip(hdr)) by {
                if b0 == 0xff {
                    assert(base.skip(1).skip(8) =~= base.skip(9));
                }
            }
        }
        if need > self.data.len() as u64 {
            return Err(ChunkError::Truncated);
        }
        let bytes = self.read_bytes(need as usize)?;
        proof {
            assert(bytes@ =~= base.subrange(hdr, hdr + need));
            assert(base.skip(hdr).skip(need as int) =~= base.skip(hdr + need));
        }
        match bytes_to_string(bytes) {
            Some(s) => Ok(s),
            None => Err(ChunkError::BadString),
        }
    }

    /// Reads a tagged constant, exactly per `const_parse`.
    fn read_constant(&mut self) -> (r: Result<Constant, ChunkError>)
        ensures
            final(self).data@.len() <= old(self).data@.len(),
            match const_parse(old(self).data@) {
                Ok(t) => r matches Ok(c) && const_view(c) == t.0 && final(self).data@ == old(self).data@.skip(t.1) && 1 <= t.1 <= old(self).data@.len(),
                Err(e) => r == Err::<Constant, ChunkError>(e),
            },
    {
        let tag = self.read_byte()?;
        if tag == TAG_NIL {
            Ok(Constant::Nil)
        } else if tag == TAG_BOOLEAN {
            let b = self.read_byte()?;
            Ok(Constant::Boolean(b != 0))
        } else if tag == TAG_INTEGER {
            let i = self.read_int64()?;
            Ok(Constant::Integer(i))
        } else if tag == TAG_NUMBER {
            let n = self.read_uint64()?;
            Ok(Constant::Number(n))
        } else if tag == TAG_SHORT_STR || tag == TAG_LONG_STR {
            let s = self.read_string()?;
            Ok(Constant::Str(s))
        } else {
            Err(ChunkError::BadTag)
        }
    }

    /// Reads an upvalue descriptor: two bytes.
    fn read_upvalue(&mut self) -> (r: Result<Upvalue, ChunkError>)
        ensures
            final(self).data@.len() <= old(self).data@.len(),
            old(self).data@.len() < 2 ==> r == Err::<Upvalue, ChunkError>(ChunkError::Truncated),
            old(self).data@.len() >= 2 ==> (r matches Ok(u) && u.instack == old(self).data@[0]
                && u.idx == old(self).data@[1] && final(self).data@ == old(self).data@.skip(2)),
    {
        let instack = self.read_byte()?;
        let idx = self.read_byte()?;
        Ok(Upvalue { instack, idx })
    }

    /// Reads a local-variable debug range: a string and two counters.
    fn read_loc_var(&mut self) -> (r: Result<LocVar, ChunkError>)
        ensures
            final(self).data@.len() <= old(self).data@.len(),
            match loc_var_parse(old(self).data@) {
                Ok(u) => r is Ok && final(self).data@ == old(self).data@.skip(u) && 1 <= u <= old(self).data@.len(),
                Err(e) => r == Err::<LocVar, ChunkError>(e),
            },
    {
        let var_name = self.read_string()?;
        let ghost used = string_parse(old(self).data@)->Ok_0.1;
        let start_pc = self.read_uint32()?;
        let end_pc = self.read_uint32()?;
        proof {
            assert(old(self).data@.skip(used).skip(4).skip(4) =~= old(self).data@.skip(used + 8));
        }
        Ok(LocVar { var_name, start_pc, end_pc })
    }

    /// Reads a count-prefixed vector of four-byte words: the count, then
    /// that many little-endian words.
    fn read_u32_vec(&mut self) -> (r: Result<Vec<u32>, ChunkError>)
        ensures
            final(self).data@.len() <= old(self).data@.len(),
            r matches Ok(v) ==> old(self).data@.len() >= 4 + 4 * v@.len() && v@.len() == le32_at(
                old(self).data@,
            ) && (forall|i: int|
                0 <= i < v@.len() ==> v@[i] == le32_at(
                    old(self).data@.skip(4 + 4 * i),
                )) && final(self).data@ == old(self).data@.skip(4 + 4 * v@.len() as int),
            match u32_vec_parse(old(self).data@) {
                Ok(u) => r is Ok && final(self).data@ == old(self).data@.skip(u) && 4 <= u <= old(self).data@.len(),
                Err(e) => r == Err::<Vec<u32>, ChunkError>(e),
            },
    {
        let n = self.read_uint32()? as usize;
        let mut out: Vec<u32> = Vec::new();
        let ghost base = old(self).data@;
        let mut i: usize = 0;
        while i < n
            invariant
                i <= n,
                out@.len() == i,
                base == old(self).data@,
                base.len() >= 4,
                4 + 4 * i <= base.len(),
                n == le32_at(base),
                self.data@ == base.skip(4 + 4 * i),
                forall|j: int| 0 <= j < i ==> out@[j] == le32_at(base.skip(4 + 4 * j)),
            decreases n - i,
        {
            let ghost before = self.data@;
            let w = self.read_uint32()?;
            proof {
                assert(before.len() >= 4);
                assert(before.len() == base.len() - (4 + 4 * i));
                assert(base.skip(4 + 4 * i).skip(4) =~= base.skip(4 + 4 * (i + 1)));
            }
            out.push(w);
            i = i + 1;
        }
        Ok(out)
    }

    /// Reads a count-prefixed vector of constants, exactly per
    /// `const_vec_parse` applied after the four-byte count.
    fn read_constant_vec(&mut self) -> (r: Result<Vec<Constant>, ChunkError>)
        ensures
            final(self).data@.len() <= old(self).data@.len(),
            old(self).data@.len() < 4 ==> r == Err::<Vec<Constant>, ChunkError>(
                ChunkError::Truncated,
            ),
            old(self).data@.len() >= 4 ==> (match const_vec_parse(
                old(self).data@.skip(4),
                le32_at(old(self).data@) as nat,
            ) {
                Ok(u) => r matches Ok(v) && v@.len() == le32_at(old(self).data@) && (forall|j: int|
                    0 <= j < v@.len() ==> const_view(#[trigger] v@[j]) == u.0[j]) && final(self).data@ == old(self).data@.skip(4).skip(u.1) && 0 <= u.1 <= old(self).data@.len() - 4,
                Err(e) => r == Err::<Vec<Constant>, ChunkError>(e),
            }),
    {
        let n = self.read_uint32()? as usize;
        let ghost base = old(self).data@.skip(4);
        let ghost n0 = le32_at(old(self).data@) as nat;
        let mut out: Vec<Constant> = Vec::new();
        let ghost used: int = 0;
        let mut i: usize = 0;
        proof {
            assert(base.skip(0) =~= base);
        }
        while i < n
            invariant
                i <= n,
                n == n0,
                out@.len() == i,
                old(self).data@.len() >= 4,
                base == old(self).data@.skip(4),
                n0 == le32_at(old(self).data@) as nat,
                0 <= used <= base.len(),
                self.data@ == base.skip(used),
                self.data@.len() <= old(self).data@.len(),
                const_vec_parse(base, n0) == (match const_vec_parse(
                    self.data@,
                    (n0 - i) as nat,
                ) {
                    Ok(u2) => Ok::<(Seq<ConstModel>, int), ChunkError>(
                        (Seq::new(i as nat, |j: int| const_view(out@[j])) + u2.0, used + u2.1),
                    ),
                    Err(e) => Err::<(Seq<ConstModel>, int), ChunkError>(e),
                }),
            decreases n - i,
        {
            let ghost cur = self.data@;
            let ghost iold = i as int;
            let ghost out_old = out@;
            let c = self.read_constant()?;
            out.push(c);
            i = i + 1;
            proof {
                let t = const_parse(cur)->Ok_0;
                assert(const_vec_parse(cur, (n0 - iold) as nat) == (match const_vec_parse(
                    cur.skip(t.1),
                    (n0 - iold - 1) as nat,
                ) {
                    Ok(u3) => Ok::<(Seq<ConstModel>, int), ChunkError>(
                        (seq![t.0] + u3.0, t.1 + u3.1),
                    ),
                    Err(e) => Err::<(Seq<ConstModel>, int), ChunkError>(e),
                }));
                assert(cur.skip(t.1) =~= base.skip(used + t.1));
                assert(Seq::new(iold as nat, |j: int| const_view(out@[j])) =~= Seq::new(
                    iold as nat,
                    |j: int| const_view(out_old[j]),
                ));
                used = used + t.1;
                match const_vec_parse(self.data@, (n0 - i) as nat) {
                    Ok(u2) => {
                        assert(Seq::new(iold as nat, |j: int| const_view(out@[j])) + (seq![t.0]
                            + u2.0) =~= Seq::new(i as nat, |j: int| const_view(out@[j])) + u2.0);
                    },
                    Err(_) => {},
                }
            }
        }
        proof {
            assert(const_vec_parse(self.data@, 0) == Ok::<(Seq<ConstModel>, int), ChunkError>(
                (Seq::<ConstModel>::empty(), 0int),
            ));
            match const_vec_parse(base, n0) {
                Ok(u) => {
                    assert(u.0 =~= Seq::new(n0, |j: int| const_view(out@[j])));
                },
                Err(_) => {},
            }
        }
        Ok(out)
    }

    /// Reads a count-prefixed vector of upvalue descriptors.
    fn read_upvalue_vec(&mut self) -> (r: Result<Vec<Upvalue>, ChunkError>)
        ensures
            final(self).data@.len() <= old(self).data@.len(),
            r matches Ok(v) ==> v@.len() == le32_at(old(self).data@),
            match upvalue_vec_parse(old(self).data@) {
                Ok(u) => r is Ok && final(self).data@ == old(self).data@.skip(u) && 4 <= u <= old(self).data@.len(),
                Err(e) => r == Err::<Vec<Upvalue>, ChunkError>(e),
            },
    {
        let n = self.read_uint32()? as usize;
        let ghost base = old(self).data@;
        let mut out: Vec<Upvalue> = Vec::new();
        let mut i: usize = 0;
        while i < n
            invariant
                i <= n,
                out@.len() == i,
                base == old(self).data@,
                base.len() >= 4,
                4 + 2 * i <= base.len(),
                n == le32_at(base),
                self.data@ == base.skip(4 + 2 * i),
            decreases n - i,
        {
            let ghost before = self.data@;
            let u = self.read_upvalue()?;
            proof {
                assert(before.len() == base.len() - (4 + 2 * i));
                assert(base.skip(4 + 2 * i).skip(2) =~= base.skip(4 + 2 * (i + 1)));
            }
            out.push(u);
            i = i + 1;
        }
        Ok(out)
    }

    /// Reads a count-prefixed vector of local-variable debug ranges.
    fn read_loc_var_vec(&mut self) -> (r: Result<Vec<LocVar>, ChunkError>)
        ensures
            final(self).data@.len() <= old(self).data@.len(),
            old(self).data@.len() < 4 ==> r == Err::<Vec<LocVar>, ChunkError>(
                ChunkError::Truncated,
            ),
            old(self).data@.len() >= 4 ==> (match loc_var_vec_parse(
                old(self).data@.skip(4),
                le32_at(old(self).data@) as nat,
            ) {
                Ok(u) => r matches Ok(v) && v@.len() == le32_at(old(self).data@) && final(self).data@ == old(self).data@.skip(4).skip(u) && 0 <= u <= old(self).data@.len() - 4,
                Err(e) => r == Err::<Vec<LocVar>, ChunkError>(e),
            }),
    {
        let n = self.read_uint32()? as usize;
        let ghost base = old(self).data@.skip(4);
        let ghost n0 = le32_at(old(self).data@) as nat;
        let mut out: Vec<LocVar> = Vec::new();
        let ghost used: int = 0;
        let mut i: usize = 0;
        proof {
            assert(base.skip(0) =~= base);
        }
        while i < n
            invariant
                i <= n,
                n == n0,
                out@.len() == i,
                old(self).data@.len() >= 4,
                base == old(self).data@.skip(4),
                n0 == le32_at(old(self).data@) as nat,
                0 <= used <= base.len(),
                self.data@ == base.skip(used),
                self.data@.len() <= old(self).data@.len(),
                loc_var_vec_parse(base, n0) == (match loc_var_vec_parse(
                    self.data@,
                    (n0 - i) as nat,
                ) {
                    Ok(u2) => Ok::<int, ChunkError>(used + u2),
                    Err(e) => Err::<int, ChunkError>(e),
                }),
            decreases n - i,
        {
            let ghost cur = self.data@;
            let l = self.read_loc_var()?;
            proof {
                let t = loc_var_parse(cur)->Ok_0;
                assert(loc_var_vec_parse(cur, (n0 - i) as nat) == (match loc_var_vec_parse(
                    cur.skip(t),
                    (n0 - i - 1) as nat,
                ) {
                    Ok(u3) => Ok::<int, ChunkError>(t + u3),
                    Err(e) => Err::<int, ChunkError>(e),
                }));
                assert(cur.skip(t) =~= base.skip(used + t));
                used = used + t;
            }
            out.push(l);
            i = i + 1;
        }
        proof {
            assert(loc_var_vec_parse(self.data@, 0) == Ok::<int, ChunkError>(0int));
        }
        Ok(out)
    }

    /// Reads a count-prefixed vector of strings.
    fn read_string_vec(&mut self) -> (r: Result<Vec<String>, ChunkError>)
        ensures
            final(self).data@.len() <= old(self).data@.len(),
            old(self).data@.len() < 4 ==> r == Err::<Vec<String>, ChunkError>(
                ChunkError::Truncated,
            ),
            old(self).data@.len() >= 4 ==> (match string_vec_parse(
                old(self).data@.skip(4),
                le32_at(old(self).data@) as nat,
            ) {
                Ok(u) => r matches Ok(v) && v@.len() == le32_at(old(self).data@) && final(self).data@ == old(self).data@.skip(4).skip(u) && 0 <= u <= old(self).data@.len() - 4,
                Err(e) => r == Err::<Vec<String>, ChunkError>(e),
            }),
    {
        let n = self.read_uint32()? as usize;
        let ghost base = old(self).data@.skip(4);
        let ghost n0 = le32_at(old(self).data@) as nat;
        let mut out: Vec<String> = Vec::new();
        let ghost used: int = 0;
        let mut i: usize = 0;
        proof {
            assert(base.skip(0) =~= base);
        }
        while i < n
            invariant
                i <= n,
                n == n0,
                out@.len() == i,
                old(self).data@.len() >= 4,
                base == old(self).data@.skip(4),
                n0 == le32_at(old(self).data@) as nat,
                0 <= used <= base.len(),
                self.data@ == base.skip(used),
                self.data@.len() <= old(self).data@.len(),
                string_vec_parse(base, n0) == (match string_vec_parse(
                    self.data@,
                    (n0 - i) as nat,
                ) {
                    Ok(u2) => Ok::<int, ChunkError>(used + u2),
                    Err(e) => Err::<int, ChunkError>(e),
                }),
            decreases n - i,
        {
            let ghost cur = self.data@;
            let st = self.read_string()?;
            proof {
                let t = string_parse(cur)->Ok_0.1;
                assert(string_vec_parse(cur, (n0 - i) as nat) == (match string_vec_parse(
                    cur.skip(t),
                    (n0 - i - 1) as nat,
                ) {
                    Ok(u3) => Ok::<int, ChunkError>(t + u3),
                    Err(e) => Err::<int, ChunkError>(e),
                }));
                assert(cur.skip(t) =~= base.skip(used + t));
                used = used + t;
            }
            out.push(st);
            i = i + 1;
        }
        proof {
            assert(string_vec_parse(self.data@, 0) == Ok::<int, ChunkError>(0int));
        }
        Ok(out)
    }

    /// Reads the fixed-layout header fields, without checking them.
    #[verifier::rlimit(100)]
    fn read_header(&mut self) -> (r: Result<Header, ChunkError>)
        ensures
            final(self).data@.len() <= old(self).data@.len(),
            old(self).data@.len() < 33 ==> r == Err::<Header, ChunkError>(ChunkError::Truncated),
            old(self).data@.len() >= 33 ==> (r matches Ok(h) && header_bytes(h) == old(self).data@.take(33) && final(self).data@ == old(self).data@.skip(33)),
    {
        if self.data.len() < 33 {
            return Err(ChunkError::Truncated);
        }
        let ghost base = old(self).data@;
        let s0 = self.read_byte()?;
        let s1 = self.read_byte()?;
        let s2 = self.read_byte()?;
        let s3 = self.read_byte()?;
        let version = self.read_byte()?;
        let format = self.read_byte()?;
        let d0 = self.read_byte()?;
        let d1 = self.read_byte()?;
        let d2 = self.read_byte()?;
        let d3 = self.read_byte()?;
        let d4 = self.read_byte()?;
        let d5 = self.read_byte()?;
        let cint_size = self.read_byte()?;
        let sizet_size = self.read_byte()?;
        let instruction_size = self.read_byte()?;
        let lua_integer_size = self.read_byte()?;
        let lua_number_size = self.read_byte()?;
        let luac_int = self.read_int64()?;
        let luac_num = self.read_uint64()?;
        let h = Header {
            signature: [s0, s1, s2, s3],
            version,
            format,
            luac_data: [d0, d1, d2, d3, d4, d5],
            cint_size,
            sizet_size,
            instruction_size,
            lua_integer_size,
            lua_number_size,
            luac_int,
            luac_num,
        };
        proof {
            lemma_le64_digits(base.skip(17));
            lemma_le64_digits(base.skip(25));
            assert(header_bytes(h) =~= base.take(33));
        }
        Ok(h)
    }

    /// Checks every header field against its compiled-in expected value,
    /// reporting the first mismatch in field order.
    fn check_header(&self, header: &Header) -> (r: Result<(), ChunkError>)
        ensures
            r == header_field_check(*header),
    {
        proof {
            let sg = header.signature@;
            if sg[0] == 0x1b && sg[1] == 0x4c && sg[2] == 0x75 && sg[3] == 0x61 {
                assert(sg =~= seq![0x1bu8, 0x4cu8, 0x75u8, 0x61u8]);
            }
            let ld = header.luac_data@;
            if ld[0] == 0x19 && ld[1] == 0x93 && ld[2] == 0x0d && ld[3] == 0x0a && ld[4] == 0x1a
                && ld[5] == 0x0a {
                assert(ld =~= seq![0x19u8, 0x93u8, 0x0du8, 0x0au8, 0x1au8, 0x0au8]);
            }
        }
        if !(header.signature[0] == 0x1b && header.signature[1] == 0x4c && header.signature[2]
            == 0x75 && header.signature[3] == 0x61) {
            Err(ChunkError::BadSignature)
        } else if header.version != LUAC_VERSION {
            Err(ChunkError::BadVersion)
        } else if header.format != LUAC_FORMAT {
            Err(ChunkError::BadFormat)
        } else if !(header.luac_data[0] == 0x19 && header.luac_data[1] == 0x93
            && header.luac_data[2] == 0x0d && header.luac_data[3] == 0x0a && header.luac_data[4]
            == 0x1a && header.luac_data[5] == 0x0a) {
            Err(ChunkError::BadMarker)
        } else if header.cint_size != CINT_SIZE {
            Err(ChunkError::BadCIntSize)
        } else if header.sizet_size != CSIZET_SIZE {
            Err(ChunkError::BadSizeTSize)
        } else if header.instruction_size != INSTRUCTION_SIZE {
            Err(ChunkError::BadInstructionSize)
        } else if header.lua_integer_size != LUA_INTEGER_SIZE {
            Err(ChunkError::BadIntegerSize)
        } else if header.lua_number_size != LUA_NUMBER_SIZE {
            Err(ChunkError::BadNumberSize)
        } else if header.luac_int != LUAC_INT {
            Err(ChunkError::BadEndianness)
        } else if header.luac_num != LUAC_NUM_BITS {
            Err(ChunkError::BadFloatFormat)
        } else {
            Ok(())
        }
    }

    /// Reads one prototype.  A prototype whose own source name is absent
    /// inherits `parent_source`, and hands the resolved name down to its
    /// nested prototypes.
    /// Reads `n` consecutive prototypes, handing each the same resolved
    /// parent source name.
    #[verifier::rlimit(100)]
    #[verifier::spinoff_prover]
    fn read_proto_vec(&mut self, n: usize, source: &String) -> (r: Result<
        Vec<Prototype>,
        ChunkError,
    >)
        ensures
            final(self).data@.len() <= old(self).data@.len(),
            match proto_vec_parse(old(self).data@, n as nat) {
                Ok(u) => r matches Ok(ps) && ps@.len() == n && final(self).data@ == old(self).data@.skip(u) && 0 <= u <= old(self).data@.len(),
                Err(e) => r == Err::<Vec<Prototype>, ChunkError>(e),
            },
            r matches Ok(ps) ==> (forall|j: int|
                0 <= j < ps@.len() ==> sources_ok(#[trigger] ps@[j]) && (ps@[j].source@.len() == 0
                    ==> source@.len() == 0)),
            r matches Ok(ps) ==> protos_parsed(old(self).data@, ps@, source@),
        decreases old(self).data@.len(), 2int,
    {
        let ghost base = old(self).data@;
        let mut out: Vec<Prototype> = Vec::new();
        let ghost used: int = 0;
        let mut i: usize = 0;
        proof {
            assert(base.skip(0) =~= base);
        }
        while i < n
            invariant
                i <= n,
                out@.len() == i,
                base == old(self).data@,
                0 <= used <= base.len(),
                self.data@ == base.skip(used),
                self.data@.len() <= base.len() - used,
                proto_vec_parse(base, n as nat) == (match proto_vec_parse(
                    self.data@,
                    (n - i) as nat,
                ) {
                    Ok(u2) => Ok::<int, ChunkError>(used + u2),
                    Err(e) => Err::<int, ChunkError>(e),
                }),
                proto_vec_parse(base, i as nat) == Ok::<int, ChunkError>(used),
                protos_parsed(base, out@, source@),
                forall|j: int|
                    0 <= j < out@.len() ==> sources_ok(#[trigger] out@[j]) && (
                    out@[j].source@.len() == 0 ==> source@.len() == 0),
            decreases n - i,
        {
            let ghost cur = self.data@;
            let p = self.read_proto(source)?;
            proof {
                let u = proto_parse(cur)->Ok_0;
                assert(proto_vec_parse(cur, (n - i) as nat) == (match proto_vec_parse(
                    cur.skip(u),
                    (n - i - 1) as nat,
                ) {
                    Ok(u3) => Ok::<int, ChunkError>(u + u3),
                    Err(e) => Err::<int, ChunkError>(e),
                }));
                assert(cur.skip(u) =~= base.skip(used + u));
                lemma_protos_parsed_push(base, out@, source@, p);
                lemma_proto_vec_snoc(base, i as nat);
                used = used + u;
            }
            out.push(p);
            i = i + 1;
        }
        proof {
            assert(proto_vec_parse(self.data@, 0) == Ok::<int, ChunkError>(0int));
        }
        Ok(out)
    }

    /// Reads a prototype's debug tail: line-info words, local-variable
    /// ranges, and upvalue names.
    #[verifier::rlimit(100)]
    #[verifier::spinoff_prover]
    fn read_tail(&mut self) -> (r: Result<(Vec<u32>, Vec<LocVar>, Vec<String>), ChunkError>)
        ensures
            final(self).data@.len() <= old(self).data@.len(),
            match tail_parse(old(self).data@) {
                Ok(u) => r is Ok && final(self).data@ == old(self).data@.skip(u) && 0 <= u <= old(self).data@.len(),
                Err(e) => r == Err::<(Vec<u32>, Vec<LocVar>, Vec<String>), ChunkError>(e),
            },
    {
        let ghost s00 = old(self).data@;
        proof {
            reveal(tail_parse);
        }
        let line_info = self.read_u32_vec()?;
        let ghost lu = u32_vec_parse(s00)->Ok_0;
        let ghost r7 = s00.skip(lu);
        let loc_vars = self.read_loc_var_vec()?;
        let ghost vu = loc_var_vec_parse(r7.skip(4), le32_at(r7) as nat)->Ok_0;
        let ghost r8 = r7.skip(4).skip(vu);
        let upvalue_names = self.read_string_vec()?;
        let ghost su = string_vec_parse(r8.skip(4), le32_at(r8) as nat)->Ok_0;
        proof {
            let total = lu + 4 + vu + 4 + su;
            assert(tail_parse(s00) == Ok::<int, ChunkError>(total));
            assert(r8.skip(4).skip(su) =~= r8.skip(4 + su));
            assert(r7.skip(4).skip(vu).skip(4 + su) =~= r7.skip(4 + vu + 4 + su));
            assert(s00.skip(lu).skip(4 + vu + 4 + su) =~= s00.skip(total));
            assert(self.data@ == s00.skip(total));
            assert(total <= s00.len()) by {
                assert(s00.skip(total).len() == self.data@.len());
            }
        }
        Ok((line_info, loc_vars, upvalue_names))
    }

    #[verifier::rlimit(100)]
    #[verifier::spinoff_prover]
    fn read_proto_head(&mut self, parent_source: &String) -> (r: Result<ProtoHead, ChunkError>)
        ensures
            final(self).data@.len() <= old(self).data@.len(),
            match proto_head_parse(old(self).data@) {
                Ok(hu) => r is Ok && final(self).data@ == old(self).data@.skip(hu) && 12 <= hu <= old(self).data@.len(),
                Err(e) => r == Err::<ProtoHead, ChunkError>(e),
            },
            r matches Ok(h) ==> head_parsed(old(self).data@, h, parent_source@),
        decreases old(self).data@.len(), 0int,
    {
        let ghost s00 = old(self).data@;
        proof {
            reveal(proto_head_parse);
        }
        let read_source = self.read_string()?;
        let ghost t0 = string_parse(s00)->Ok_0.0;
        let ghost used = string_parse(s00)->Ok_0.1;
        let ghost rest = s00.skip(used);
        let source = if read_source.as_str().is_empty() {
            parent_source.clone()
        } else {
            read_source
        };
        let line_defined = self.read_uint32()?;
        proof {
            assert(rest.skip(4) =~= s00.skip(used + 4));
        }
        let last_line_defined = self.read_uint32()?;
        proof {
            assert(rest.skip(4).skip(4) =~= rest.skip(8));
        }
        let num_params = self.read_byte()?;
        proof {
            assert(rest.skip(8).skip(1) =~= rest.skip(9));
        }
        let is_vararg = self.read_byte()?;
        proof {
            assert(rest.skip(9).skip(1) =~= rest.skip(10));
        }
        let max_stack_size = self.read_byte()?;
        proof {
            assert(rest.skip(10).skip(1) =~= rest.skip(11));
        }
        let code = self.read_u32_vec()?;
        let ghost cu = 4 + 4 * code@.len() as int;
        proof {
            assert(num_params == rest[8] && is_vararg == rest[9] && max_stack_size == rest[10]);
            assert(rest.len() >= 15 + 4 * code@.len());
            assert forall|ci: int| 0 <= ci < code@.len() implies code@[ci] == le32_at(
                #[trigger] rest.skip(15 + 4 * ci),
            ) by {
                assert(rest.skip(11).skip(4 + 4 * ci) =~= rest.skip(15 + 4 * ci));
            }
            assert(self.data@ =~= rest.skip(15 + 4 * (code@.len() as int)));
        }
        let ghost cs = rest.skip(15 + 4 * (code@.len() as int));
        let constants = self.read_constant_vec()?;
        let ghost kc = const_vec_parse(cs.skip(4), le32_at(cs) as nat)->Ok_0.1;
        let ghost r4 = cs.skip(4).skip(kc);
        let upvalues = self.read_upvalue_vec()?;
        let ghost uu = upvalue_vec_parse(r4)->Ok_0;
        proof {
            let total = used + 11 + cu + 4 + kc + uu;
            assert(proto_head_parse(s00) == Ok::<int, ChunkError>(total));
            assert(cs.skip(4).skip(kc).skip(uu) =~= cs.skip(4 + kc + uu));
            assert(rest.skip(11).skip(cu) =~= cs);
            assert(rest.skip(11).skip(cu + 4 + kc + uu) =~= rest.skip(11).skip(cu).skip(
                4 + kc + uu,
            ));
            assert(s00.skip(used).skip(11 + cu + 4 + kc + uu) =~= s00.skip(total));
            assert(rest.skip(11 + cu + 4 + kc + uu) =~= rest.skip(11).skip(cu + 4 + kc + uu));
            assert(self.data@ == s00.skip(total));
            assert(total <= s00.len()) by {
                assert(s00.skip(total).len() == self.data@.len());
            }
        }
        Ok(ProtoHead { source, line_defined, last_line_defined, num_params, is_vararg, max_stack_size, code, constants, upvalues })
    }

    #[verifier::rlimit(100)]
    #[verifier::spinoff_prover]
    fn read_proto(&mut self, parent_source: &String) -> (r: Result<Prototype, ChunkError>)
        ensures
            final(self).data@.len() < old(self).data@.len() || r is Err,
            final(self).data@.len() <= old(self).data@.len(),
            r matches Ok(p) ==> sources_ok(p) && (p.source@.len() == 0 ==> parent_source@.len()
                == 0),
            r matches Ok(p) ==> proto_prefix_parsed(old(self).data@, p, parent_source@),
            r matches Ok(p) ==> (proto_head_parse(old(self).data@) matches Ok(hu)
                && protos_parsed(old(self).data@.skip(hu).skip(4), p.protos@, p.source@)),
            match proto_parse(old(self).data@) {
                Ok(u) => r is Ok && final(self).data@ == old(self).data@.skip(u) && 1 <= u <= old(self).data@.len(),
                Err(e) => r == Err::<Prototype, ChunkError>(e),
            },
        decreases old(self).data@.len(), 1int,
    {
        let ghost s00 = old(self).data@;
        let head = self.read_proto_head(parent_source)?;
        let ghost hu = proto_head_parse(s00)->Ok_0;
        let ghost r5 = s00.skip(hu);
        let n_protos = self.read_uint32()? as usize;
        let ghost base5 = r5.skip(4);
        let source = head.source;
        let protos = self.read_proto_vec(n_protos, &source)?;
        let ghost pused = proto_vec_parse(base5, n_protos as nat)->Ok_0;
        let ghost r6 = base5.skip(pused);
        let tail = self.read_tail()?;
        let line_info = tail.0;
        let loc_vars = tail.1;
        let upvalue_names = tail.2;
        let ghost tu = tail_parse(r6)->Ok_0;
        proof {
            let total = hu + 4 + pused + tu;
            assert(proto_parse(s00) == Ok::<int, ChunkError>(total));
            assert(base5.skip(pused).skip(tu) =~= base5.skip(pused + tu));
            assert(r5.skip(4).skip(pused + tu) =~= r5.skip(4 + pused + tu));
            assert(s00.skip(hu).skip(4 + pused + tu) =~= s00.skip(total));
            assert(self.data@ == s00.skip(total));
            assert(total <= s00.len()) by {
                assert(s00.skip(total).len() == self.data@.len());
            }
        }
        let p = Prototype {
            source,
            line_defined: head.line_defined,
            last_line_defined: head.last_line_defined,
            num_params: head.num_params,
            is_vararg: head.is_vararg,
            max_stack_size: head.max_stack_size,
            code: head.code,
            constants: head.constants,
            upvalues: head.upvalues,
            protos,
            line_info,
            loc_vars,
            upvalue_names,
        };
        proof {
            assert(proto_prefix_parsed(s00, p, parent_source@));
        }
        Ok(p)
    }

    /// Reads a whole binary chunk: the header (checked against every
    /// expected value), the top-level upvalue count, and the main
    /// prototype tree.
    pub fn read_binary_chunk(&mut self) -> (r: Result<BinaryChunk, ChunkError>)
        ensures
            old(self).data@.len() < 33 ==> r == Err::<BinaryChunk, ChunkError>(
                ChunkError::Truncated,
            ),
            r matches Ok(bc) ==> old(self).data@.len() >= 34 && old(self).data@.take(33)
                == canonical_header_bytes() && header_bytes(bc.header) == old(self).data@.take(33)
                && bc.size_upvalues == old(self).data@[33] && sources_ok(bc.main_func)
                && proto_prefix_parsed(old(self).data@.skip(34), bc.main_func, Seq::empty()),
            r matches Ok(bc) ==> (proto_head_parse(old(self).data@.skip(34)) matches Ok(hu)
                && protos_parsed(
                old(self).data@.skip(34).skip(hu).skip(4),
                bc.main_func.protos@,
                bc.main_func.source@,
            )),
            r is Ok <==> (old(self).data@.len() >= 34 && old(self).data@.take(33)
                == canonical_header_bytes() && proto_parse(old(self).data@.skip(34)) is Ok),
            (old(self).data@.len() >= 34 && old(self).data@.take(33)
                == canonical_header_bytes()) ==> (proto_parse(old(self).data@.skip(34)) matches
                Err(e) ==> r == Err::<BinaryChunk, ChunkError>(e)),
    {
        let ghost base = old(self).data@;
        let header = self.read_header()?;
        proof {
            if base.len() >= 33 && base.take(33) == canonical_header_bytes() {
                lemma_canonical_field_check(header);
            }
        }
        self.check_header(&header)?;
        proof {
            if base.len() >= 33 {
                lemma_field_check_canonical(header, base);
            }
        }
        let size_upvalues = self.read_byte()?;
        proof {
            assert(base.skip(33).skip(1) =~= base.skip(34));
        }
        let empty_source = String::new();
        let main_func = self.read_proto(&empty_source)?;
        Ok(BinaryChunk { header, size_upvalues, main_func })
    }
}

/// The first mismatch, in field order, between a header's fields and
/// their compiled-in expected values.
pub open spec fn header_field_check(h: Header) -> Result<(), ChunkError> {
    if h.signature@ != seq![0x1bu8, 0x4cu8, 0x75u8, 0x61u8] {
        Err(ChunkError::BadSignature)
    } else if h.version != LUAC_VERSION {
        Err(ChunkError::BadVersion)
    } else if h.format != LUAC_FORMAT {
        Err(ChunkError::BadFormat)
    } else if h.luac_data@ != seq![0x19u8, 0x93u8, 0x0du8, 0x0au8, 0x1au8, 0x0au8] {
        Err(ChunkError::BadMarker)
    } else if h.cint_size != CINT_SIZE {
        Err(ChunkError::BadCIntSize)
    } else if h.sizet_size != CSIZET_SIZE {
        Err(ChunkError::BadSizeTSize)
    } else if h.instruction_size != INSTRUCTION_SIZE {
        Err(ChunkError::BadInstructionSize)
    } else if h.lua_integer_size != LUA_INTEGER_SIZE {
        Err(ChunkError::BadIntegerSize)
    } else if h.lua_number_size != LUA_NUMBER_SIZE {
        Err(ChunkError::BadNumberSize)
    } else if h.luac_int != LUAC_INT {
        Err(ChunkError::BadEndianness)
    } else if h.luac_num != LUAC_NUM_BITS {
        Err(ChunkError::BadFloatFormat)
    } else {
        Ok(())
    }
}

/// The little-endian digits of the value of the first eight bytes are
/// those bytes themselves.
#[verifier::rlimit(100)]
proof fn lemma_le64_digits(t: Seq<u8>)
    requires
        t.len() >= 8,
    ensures
        0 <= le64_at(t) < 0x10000000000000000,
        le8_bytes(le64_at(t) as u64) =~= t.take(8),
{
    let v = le64_at(t);
    let k0 = t[1] + t[2] * 0x100 + t[3] * 0x10000 + t[4] * 0x1000000 + t[5] * 0x100000000 + t[6]
        * 0x10000000000 + t[7] * 0x1000000000000;
    let k1 = t[2] + t[3] * 0x100 + t[4] * 0x10000 + t[5] * 0x1000000 + t[6] * 0x100000000 + t[7]
        * 0x10000000000;
    let k2 = t[3] + t[4] * 0x100 + t[5] * 0x10000 + t[6] * 0x1000000 + t[7] * 0x100000000;
    let k3 = t[4] + t[5] * 0x100 + t[6] * 0x10000 + t[7] * 0x1000000;
    let k4 = t[5] + t[6] * 0x100 + t[7] * 0x10000;
    let k5 = t[6] + t[7] * 0x100;
    let k6 = t[7] as int;
    assert(v == k0 * 0x100 + t[0]);
    vstd::arithmetic::div_mod::lemma_fundamental_div_mod_converse(v, 0x100, k0, t[0] as int);
    assert(k0 == k1 * 0x100 + t[1]);
    vstd::arithmetic::div_mod::lemma_fundamental_div_mod_converse(k0, 0x100, k1, t[1] as int);
    assert(k1 == k2 * 0x100 + t[2]);
    vstd::arithmetic::div_mod::lemma_fundamental_div_mod_converse(k1, 0x100, k2, t[2] as int);
    assert(k2 == k3 * 0x100 + t[3]);
    vstd::arithmetic::div_mod::lemma_fundamental_div_mod_converse(k2, 0x100, k3, t[3] as int);
    assert(k3 == k4 * 0x100 + t[4]);
    vstd::arithmetic::div_mod::lemma_fundamental_div_mod_converse(k3, 0x100, k4, t[4] as int);
    assert(k4 == k5 * 0x100 + t[5]);
    vstd::arithmetic::div_mod::lemma_fundamental_div_mod_converse(k4, 0x100, k5, t[5] as int);
    assert(k5 == k6 * 0x100 + t[6]);
    vstd::arithmetic::div_mod::lemma_fundamental_div_mod_converse(k5, 0x100, k6, t[6] as int);
    vstd::arithmetic::div_mod::lemma_fundamental_div_mod_converse(k6, 0x100, 0, t[7] as int);
    vstd::arithmetic::div_mod::lemma_div_denominator(v, 0x100, 0x100);
    vstd::arithmetic::div_mod::lemma_div_denominator(v, 0x10000, 0x100);
    vstd::arithmetic::div_mod::lemma_div_denominator(v, 0x1000000, 0x100);
    vstd::arithmetic::div_mod::lemma_div_denominator(v, 0x100000000, 0x100);
    vstd::arithmetic::div_mod::lemma_div_denominator(v, 0x10000000000, 0x100);
    vstd::arithmetic::div_mod::lemma_div_denominator(v, 0x1000000000000, 0x100);
    assert(v / 0x10000 == k1);
    assert(v / 0x1000000 == k2);
    assert(v / 0x100000000 == k3);
    assert(v / 0x10000000000 == k4);
    assert(v / 0x1000000000000 == k5);
    assert(v / 0x100000000000000 == k6);
}

/// A header whose fields pass the check and whose serialized bytes are a
/// 33-byte prefix of `s` pins that prefix to the canonical bytes.
proof fn lemma_field_check_canonical(h: Header, s: Seq<u8>)
    requires
        s.len() >= 33,
        header_bytes(h) == s.take(33),
    ensures
        header_field_check(h) is Ok ==> s.take(33) == canonical_header_bytes(),
{
    if header_field_check(h) is Ok {
        assert(le8_bytes(u64_repr(h.luac_int)) =~= seq![
            0x78u8,
            0x56u8,
            0x00u8,
            0x00u8,
            0x00u8,
            0x00u8,
            0x00u8,
            0x00u8,
        ]);
        assert(le8_bytes(h.luac_num) =~= seq![
            0x00u8,
            0x00u8,
            0x00u8,
            0x00u8,
            0x00u8,
            0x28u8,
            0x77u8,
            0x40u8,
        ]);
        assert(header_bytes(h) =~= canonical_header_bytes());
    }
}

/// Header round trip, downward: an image that decodes successfully
/// starts with the canonical 33 bytes (see `undump`'s contract), and
/// `Header::encode` reproduces exactly those bytes; so changing any
/// single byte of a decodable header leaves a prefix that is no longer
/// canonical, and by `undump`'s contract the mutated image cannot
/// decode.
pub proof fn lemma_header_mutation(s: Seq<u8>, i: int, b: u8)
    requires
        s.len() >= 33,
        s.take(33) == canonical_header_bytes(),
        0 <= i < 33,
        b != s[i],
    ensures
        s.update(i, b).take(33) != canonical_header_bytes(),
{
    assert(s.update(i, b).take(33)[i] == b);
    assert(canonical_header_bytes()[i] == s.take(33)[i]);
    assert(s.take(33)[i] == s[i]);
}

/// A 64-bit value is reconstructed from its little-endian digits.
proof fn lemma_le8_reconstruct(x: u64)
    ensures
        le64_at(le8_bytes(x)) == x,
{
    vstd::arithmetic::div_mod::lemma_fundamental_div_mod(x as int, 0x100);
    vstd::arithmetic::div_mod::lemma_fundamental_div_mod(x as int / 0x100, 0x100);
    vstd::arithmetic::div_mod::lemma_fundamental_div_mod(x as int / 0x10000, 0x100);
    vstd::arithmetic::div_mod::lemma_fundamental_div_mod(x as int / 0x1000000, 0x100);
    vstd::arithmetic::div_mod::lemma_fundamental_div_mod(x as int / 0x100000000, 0x100);
    vstd::arithmetic::div_mod::lemma_fundamental_div_mod(x as int / 0x10000000000, 0x100);
    vstd::arithmetic::div_mod::lemma_fundamental_div_mod(x as int / 0x1000000000000, 0x100);
    vstd::arithmetic::div_mod::lemma_fundamental_div_mod(x as int / 0x100000000000000, 0x100);
    vstd::arithmetic::div_mod::lemma_div_denominator(x as int, 0x100, 0x100);
    vstd::arithmetic::div_mod::lemma_div_denominator(x as int, 0x10000, 0x100);
    vstd::arithmetic::div_mod::lemma_div_denominator(x as int, 0x1000000, 0x100);
    vstd::arithmetic::div_mod::lemma_div_denominator(x as int, 0x100000000, 0x100);
    vstd::arithmetic::div_mod::lemma_div_denominator(x as int, 0x10000000000, 0x100);
    vstd::arithmetic::div_mod::lemma_div_denominator(x as int, 0x1000000000000, 0x100);
    assert(x as int / 0x100000000000000 < 0x100) by {
        vstd::arithmetic::div_mod::lemma_div_is_ordered(
            x as int,
            0xffffffffffffffff,
            0x100000000000000,
        );
    }
}

/// A header whose serialized bytes are the canonical 33 passes the
/// field check.
#[verifier::rlimit(100)]
proof fn lemma_canonical_field_check(h: Header)
    requires
        header_bytes(h) == canonical_header_bytes(),
    ensures
        header_field_check(h) is Ok,
{
    assert(h.signature@.len() == 4);
    assert(h.luac_data@.len() == 6);
    assert(h.signature@ =~= seq![0x1bu8, 0x4cu8, 0x75u8, 0x61u8]);
    assert(h.luac_data@ =~= seq![0x19u8, 0x93u8, 0x0du8, 0x0au8, 0x1au8, 0x0au8]);
    lemma_le8_reconstruct(u64_repr(h.luac_int));
    lemma_le8_reconstruct(h.luac_num);
    assert(le8_bytes(u64_repr(h.luac_int)) =~= canonical_header_bytes().subrange(17, 25));
    assert(le8_bytes(h.luac_num) =~= canonical_header_bytes().subrange(25, 33));
    assert(le64_at(le8_bytes(u64_repr(h.luac_int))) == 0x5678);
    assert(le64_at(le8_bytes(h.luac_num)) == LUAC_NUM_BITS);
    assert(u64_repr(h.luac_int) == 0x5678);
    assert(h.luac_int == LUAC_INT);
    assert(h.luac_num == LUAC_NUM_BITS);
}

/// Decodes a whole binary chunk from raw bytes.
pub fn undump(data: Vec<u8>) -> (r: Result<BinaryChunk, ChunkError>)
    ensures
        data@.len() < 33 ==> r == Err::<BinaryChunk, ChunkError>(ChunkError::Truncated),
        r matches Ok(bc) ==> data@.len() >= 34 && data@.take(33) == canonical_header_bytes()
            && header_bytes(bc.header) == data@.take(33) && bc.size_upvalues == data@[33]
            && sources_ok(bc.main_func) && proto_prefix_parsed(
            data@.skip(34),
            bc.main_func,
            Seq::empty(),
        ),
        r matches Ok(bc) ==> (proto_head_parse(data@.skip(34)) matches Ok(hu) && protos_parsed(
            data@.skip(34).skip(hu).skip(4),
            bc.main_func.protos@,
            bc.main_func.source@,
        )),
        r is Ok <==> (data@.len() >= 34 && data@.take(33) == canonical_header_bytes()
            && proto_parse(data@.skip(34)) is Ok),
        (data@.len() >= 34 && data@.take(33) == canonical_header_bytes()) ==> (proto_parse(
            data@.skip(34),
        ) matches Err(e) ==> r == Err::<BinaryChunk, ChunkError>(e)),
{
    let mut reader = Reader { data };
    reader.read_binary_chunk()
}

} // verus!

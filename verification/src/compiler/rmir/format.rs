//! The RMIR binary format as mathematical byte sequences.
//!
//! Layout: a 12-byte header (`RMIR`, version 1 little endian, four flag
//! bytes), a metadata section (its byte length as u32, then timestamp,
//! source file name, compiler version and zero padding to a multiple of 16),
//! the instruction count and the instructions (opcode, argument count,
//! variable-length arguments), the proof goal count and the proof goals, and
//! a 32-byte checksum of everything before it.

use vstd::prelude::*;
use vstd::bytes::*;
use crate::compiler::rmir::encoder::ProofGoal as EncodedGoal;
use crate::compiler::rmir::decoder::ProofGoal as DecodedGoal;

verus! {

/// Length of the fixed header: magic, version and flags.
pub const HEADER_LEN: usize = 12;

/// Four little-endian bytes of a `u32`.
pub open spec fn le32(v: u32) -> Seq<u8> {
    spec_u32_to_le_bytes(v)
}

/// Eight little-endian bytes of a `u64`.
pub open spec fn le64(v: u64) -> Seq<u8> {
    spec_u64_to_le_bytes(v)
}

/// The magic bytes `RMIR`.
pub open spec fn magic() -> Seq<u8> {
    seq![0x52u8, 0x4Du8, 0x49u8, 0x52u8]
}

/// The header: magic, version 1, and four zero flag bytes.
pub open spec fn header_bytes() -> Seq<u8> {
    magic() + le32(1) + seq![0u8, 0u8, 0u8, 0u8]
}

/// `n` zero bytes.
pub open spec fn zeros(n: nat) -> Seq<u8> {
    Seq::new(n, |i: int| 0u8)
}

/// The metadata fields: timestamp, source name (length-prefixed with a u32)
/// and compiler version (length-prefixed with a byte).
pub open spec fn metadata_body(timestamp: u64, source: Seq<u8>, version: Seq<u8>) -> Seq<u8> {
    le64(timestamp) + le32(source.len() as u32) + source + seq![version.len() as u8] + version
}

/// Number of zero bytes that pad `n` bytes to a multiple of 16.
pub open spec fn padding_len(n: nat) -> nat {
    ((16 - (n % 16) as int) % 16) as nat
}

/// The metadata section: its padded length, the fields, and the padding.
pub open spec fn metadata_bytes(timestamp: u64, source: Seq<u8>, version: Seq<u8>) -> Seq<u8> {
    let body = metadata_body(timestamp, source, version);
    let pad = padding_len(body.len());
    le32((body.len() + pad) as u32) + body + zeros(pad)
}

/// Variable-length integer: one byte up to 0x7F, two bytes (high six bits
/// tagged with 0b10) up to 0x3FFF, otherwise the tag 0xC0 and four
/// little-endian bytes of the low 32 bits.
pub open spec fn varint_bytes(v: u64) -> Seq<u8> {
    if v <= 0x7F {
        seq![v as u8]
    } else if v <= 0x3FFF {
        seq![(0x80 + v / 256) as u8, (v % 256) as u8]
    } else {
        seq![0xC0u8] + le32(v as u32)
    }
}

/// The variable-length encodings of a sequence of arguments, in order.
pub open spec fn varints(args: Seq<u32>) -> Seq<u8>
    decreases args.len(),
{
    if args.len() == 0 {
        Seq::empty()
    } else {
        varints(args.drop_last()) + varint_bytes(args.last() as u64)
    }
}

/// One instruction: opcode, argument count (one byte) and arguments.
pub open spec fn instruction_bytes(opcode: u8, args: Seq<u32>) -> Seq<u8> {
    seq![opcode, args.len() as u8] + varints(args)
}

/// A sequence of instructions, in order.
pub open spec fn instructions_bytes(instrs: Seq<(u8, Seq<u32>)>) -> Seq<u8>
    decreases instrs.len(),
{
    if instrs.len() == 0 {
        Seq::empty()
    } else {
        instructions_bytes(instrs.drop_last()) + instruction_bytes(instrs.last().0, instrs.last().1)
    }
}

/// One proof goal: a tag byte and its operands.
pub open spec fn goal_bytes(g: EncodedGoal) -> Seq<u8> {
    match g {
        EncodedGoal::OwnershipInvariant(v) => seq![0x00u8] + le32(v),
        EncodedGoal::RegionSafety(r) => seq![0x01u8] + le32(r),
        EncodedGoal::LinearityConstraint(v) => seq![0x02u8] + le32(v),
        EncodedGoal::EffectOrdering(a, b) => seq![0x03u8] + le32(a) + le32(b),
        EncodedGoal::BoundsCheck(i, l) => seq![0x04u8] + le32(i) + le32(l),
        EncodedGoal::EffectPrecondition(k) => seq![0x05u8, k],
    }
}

/// A sequence of proof goals, in order, without the count.
pub open spec fn goal_list_bytes(goals: Seq<EncodedGoal>) -> Seq<u8>
    decreases goals.len(),
{
    if goals.len() == 0 {
        Seq::empty()
    } else {
        goal_list_bytes(goals.drop_last()) + goal_bytes(goals.last())
    }
}

/// The proof goal section: the count, then the goals.
pub open spec fn goals_bytes(goals: Seq<EncodedGoal>) -> Seq<u8> {
    le32(goals.len() as u32) + goal_list_bytes(goals)
}

/// The decoded form of an encoded proof goal.
pub open spec fn decoded_goal(g: EncodedGoal) -> DecodedGoal {
    match g {
        EncodedGoal::OwnershipInvariant(v) => DecodedGoal::OwnershipInvariant(v),
        EncodedGoal::RegionSafety(r) => DecodedGoal::RegionSafety(r),
        EncodedGoal::LinearityConstraint(v) => DecodedGoal::LinearityConstraint(v),
        EncodedGoal::EffectOrdering(a, b) => DecodedGoal::EffectOrdering(a, b),
        EncodedGoal::BoundsCheck(i, l) => DecodedGoal::BoundsCheck(i, l),
        EncodedGoal::EffectPrecondition(k) => DecodedGoal::EffectPrecondition(k),
    }
}

/// A complete program before its checksum.
pub open spec fn program_bytes(
    timestamp: u64,
    source: Seq<u8>,
    version: Seq<u8>,
    instrs: Seq<(u8, Seq<u32>)>,
    goals: Seq<EncodedGoal>,
) -> Seq<u8> {
    header_bytes() + metadata_bytes(timestamp, source, version) + le32(instrs.len() as u32)
        + instructions_bytes(instrs) + goals_bytes(goals)
}

// ---------------------------------------------------------------------------
// Reading

/// Why reading stopped.
#[derive(Clone, Copy, Debug, PartialEq, Eq, Structural)]
pub enum DecodeFault {
    /// The input ended before a field.
    Eof,
    /// A variable-length integer has a tag byte above 0xC0 or in 0xC1..=0xFF.
    InvalidVarint,
    /// A proof goal has a tag above 0x05.
    UnknownGoal,
}

/// One byte at `off`.
pub open spec fn parse_u8(b: Seq<u8>, off: int) -> Result<(u8, int), DecodeFault> {
    if 0 <= off < b.len() {
        Ok((b[off], off + 1))
    } else {
        Err(DecodeFault::Eof)
    }
}

/// A little-endian `u32` at `off`.
pub open spec fn parse_u32(b: Seq<u8>, off: int) -> Result<(u32, int), DecodeFault> {
    if 0 <= off && off + 4 <= b.len() {
        Ok((spec_u32_from_le_bytes(b.subrange(off, off + 4)), off + 4))
    } else {
        Err(DecodeFault::Eof)
    }
}

/// A variable-length integer at `off`.
pub open spec fn parse_varint(b: Seq<u8>, off: int) -> Result<(u64, int), DecodeFault> {
    match parse_u8(b, off) {
        Err(e) => Err(e),
        Ok((b1, o1)) => if b1 <= 0x7F {
            Ok((b1 as u64, o1))
        } else if b1 <= 0xBF {
            match parse_u8(b, o1) {
                Err(e) => Err(e),
                Ok((b2, o2)) => Ok((((b1 % 64) * 256 + b2) as u64, o2)),
            }
        } else if b1 == 0xC0 {
            match parse_u32(b, o1) {
                Err(e) => Err(e),
                Ok((v, o2)) => Ok((v as u64, o2)),
            }
        } else {
            Err(DecodeFault::InvalidVarint)
        },
    }
}

/// `n` variable-length arguments starting at `off`, each kept as its low 32 bits.
pub open spec fn parse_args(b: Seq<u8>, off: int, n: nat) -> Result<(Seq<u32>, int), DecodeFault>
    decreases n,
{
    if n == 0 {
        Ok((Seq::empty(), off))
    } else {
        match parse_args(b, off, (n - 1) as nat) {
            Err(e) => Err(e),
            Ok((vs, o)) => match parse_varint(b, o) {
                Err(e) => Err(e),
                Ok((v, o2)) => Ok((vs.push(v as u32), o2)),
            },
        }
    }
}

/// One instruction at `off`.
pub open spec fn parse_instr(b: Seq<u8>, off: int) -> Result<((u8, Seq<u32>), int), DecodeFault> {
    match parse_u8(b, off) {
        Err(e) => Err(e),
        Ok((op, o1)) => match parse_u8(b, o1) {
            Err(e) => Err(e),
            Ok((n, o2)) => match parse_args(b, o2, n as nat) {
                Err(e) => Err(e),
                Ok((args, o3)) => Ok(((op, args), o3)),
            },
        },
    }
}

/// `n` instructions starting at `off`.
pub open spec fn parse_instrs(b: Seq<u8>, off: int, n: nat) -> Result<(Seq<(u8, Seq<u32>)>, int), DecodeFault>
    decreases n,
{
    if n == 0 {
        Ok((Seq::empty(), off))
    } else {
        match parse_instrs(b, off, (n - 1) as nat) {
            Err(e) => Err(e),
            Ok((is, o)) => match parse_instr(b, o) {
                Err(e) => Err(e),
                Ok((i, o2)) => Ok((is.push(i), o2)),
            },
        }
    }
}

/// One proof goal at `off`.
pub open spec fn parse_goal(b: Seq<u8>, off: int) -> Result<(DecodedGoal, int), DecodeFault> {
    match parse_u8(b, off) {
        Err(e) => Err(e),
        Ok((tag, o1)) => if tag == 0x00 {
            match parse_u32(b, o1) { Err(e) => Err(e), Ok((v, o2)) => Ok((DecodedGoal::OwnershipInvariant(v), o2)) }
        } else if tag == 0x01 {
            match parse_u32(b, o1) { Err(e) => Err(e), Ok((v, o2)) => Ok((DecodedGoal::RegionSafety(v), o2)) }
        } else if tag == 0x02 {
            match parse_u32(b, o1) { Err(e) => Err(e), Ok((v, o2)) => Ok((DecodedGoal::LinearityConstraint(v), o2)) }
        } else if tag == 0x03 {
            match parse_u32(b, o1) {
                Err(e) => Err(e),
                Ok((x, o2)) => match parse_u32(b, o2) { Err(e) => Err(e), Ok((y, o3)) => Ok((DecodedGoal::EffectOrdering(x, y), o3)) },
            }
        } else if tag == 0x04 {
            match parse_u32(b, o1) {
                Err(e) => Err(e),
                Ok((x, o2)) => match parse_u32(b, o2) { Err(e) => Err(e), Ok((y, o3)) => Ok((DecodedGoal::BoundsCheck(x, y), o3)) },
            }
        } else if tag == 0x05 {
            match parse_u8(b, o1) { Err(e) => Err(e), Ok((k, o2)) => Ok((DecodedGoal::EffectPrecondition(k), o2)) }
        } else {
            Err(DecodeFault::UnknownGoal)
        },
    }
}

/// `n` proof goals starting at `off`.
pub open spec fn parse_goals(b: Seq<u8>, off: int, n: nat) -> Result<(Seq<DecodedGoal>, int), DecodeFault>
    decreases n,
{
    if n == 0 {
        Ok((Seq::empty(), off))
    } else {
        match parse_goals(b, off, (n - 1) as nat) {
            Err(e) => Err(e),
            Ok((gs, o)) => match parse_goal(b, o) {
                Err(e) => Err(e),
                Ok((g, o2)) => Ok((gs.push(g), o2)),
            },
        }
    }
}

/// The whole program body after the header: the metadata is skipped by its
/// length field, then the instructions and the proof goals are read.
pub open spec fn spec_decode(b: Seq<u8>) -> Result<(Seq<(u8, Seq<u32>)>, Seq<DecodedGoal>), DecodeFault> {
    match parse_u32(b, HEADER_LEN as int) {
        Err(e) => Err(e),
        Ok((meta, o1)) => match parse_u32(b, o1 + meta) {
            Err(e) => Err(e),
            Ok((ni, o2)) => match parse_instrs(b, o2, ni as nat) {
                Err(e) => Err(e),
                Ok((instrs, o3)) => match parse_u32(b, o3) {
                    Err(e) => Err(e),
                    Ok((ng, o4)) => match parse_goals(b, o4, ng as nat) {
                        Err(e) => Err(e),
                        Ok((goals, o5)) => Ok((instrs, goals)),
                    },
                },
            },
        },
    }
}

// ---------------------------------------------------------------------------
// Reading back what was written

/// `seg` stands in `b` starting at `off`.
pub open spec fn has_at(b: Seq<u8>, off: int, seg: Seq<u8>) -> bool {
    0 <= off && off + seg.len() <= b.len() && b.subrange(off, off + seg.len()) == seg
}

proof fn lemma_split(b: Seq<u8>, off: int, s1: Seq<u8>, s2: Seq<u8>)
    requires
        has_at(b, off, s1 + s2),
    ensures
        has_at(b, off, s1),
        has_at(b, off + s1.len(), s2),
{
    let whole = b.subrange(off, off + (s1 + s2).len());
    assert(whole == s1 + s2);
    assert forall|i: int| 0 <= i < s1.len() implies #[trigger] b.subrange(off, off + s1.len())[i] == s1[i] by {
        assert(whole[i] == b[off + i]);
        assert((s1 + s2)[i] == s1[i]);
    }
    assert(b.subrange(off, off + s1.len()) =~= s1);
    assert forall|i: int| 0 <= i < s2.len() implies #[trigger] b.subrange(off + s1.len(), off + s1.len() + s2.len())[i] == s2[i] by {
        assert(whole[s1.len() + i] == b[off + s1.len() + i]);
        assert((s1 + s2)[s1.len() + i] == s2[i]);
    }
    assert(b.subrange(off + s1.len(), off + s1.len() + s2.len()) =~= s2);
}

proof fn lemma_prefix(x: Seq<u8>, t: Seq<u8>)
    ensures
        has_at(x + t, 0, x),
{
    assert((x + t).subrange(0, x.len() as int) =~= x);
}

proof fn lemma_parse_u32_at(b: Seq<u8>, off: int, v: u32)
    requires
        has_at(b, off, le32(v)),
    ensures
        parse_u32(b, off) == Ok::<(u32, int), DecodeFault>((v, off + 4)),
{
    lemma_auto_spec_u32_to_from_le_bytes();
}

proof fn lemma_parse_varint_at(b: Seq<u8>, off: int, v: u64)
    requires
        v <= u32::MAX,
        has_at(b, off, varint_bytes(v)),
    ensures
        parse_varint(b, off) == Ok::<(u64, int), DecodeFault>((v, off + varint_bytes(v).len())),
{
    lemma_auto_spec_u32_to_from_le_bytes();
    if v <= 0x7F {
        assert(b[off] == varint_bytes(v)[0]);
    } else if v <= 0x3FFF {
        assert(b[off] == varint_bytes(v)[0]);
        assert(b[off + 1] == varint_bytes(v)[1]);
        let b1 = (0x80 + v / 256) as u8;
        assert(b1 == 0x80 + v / 256);
        assert((b1 % 64) * 256 + (v % 256) == v);
    } else {
        assert(b[off] == varint_bytes(v)[0]);
        lemma_split(b, off, seq![0xC0u8], le32(v as u32));
        lemma_parse_u32_at(b, off + 1, v as u32);
    }
}

proof fn lemma_parse_args_at(b: Seq<u8>, off: int, args: Seq<u32>)
    requires
        has_at(b, off, varints(args)),
    ensures
        parse_args(b, off, args.len()) == Ok::<(Seq<u32>, int), DecodeFault>((args, off + varints(args).len())),
    decreases args.len(),
{
    if args.len() > 0 {
        let init = args.drop_last();
        lemma_split(b, off, varints(init), varint_bytes(args.last() as u64));
        lemma_parse_args_at(b, off, init);
        lemma_parse_varint_at(b, off + varints(init).len(), args.last() as u64);
        assert(init.push(args.last()) =~= args);
    } else {
        assert(args =~= Seq::<u32>::empty());
    }
}

proof fn lemma_parse_instr_at(b: Seq<u8>, off: int, op: u8, args: Seq<u32>)
    requires
        args.len() <= 255,
        has_at(b, off, instruction_bytes(op, args)),
    ensures
        parse_instr(b, off) == Ok::<((u8, Seq<u32>), int), DecodeFault>(((op, args), off + instruction_bytes(op, args).len())),
{
    lemma_split(b, off, seq![op, args.len() as u8], varints(args));
    assert(b[off] == instruction_bytes(op, args)[0]);
    assert(b[off + 1] == instruction_bytes(op, args)[1]);
    lemma_parse_args_at(b, off + 2, args);
}

proof fn lemma_parse_instrs_at(b: Seq<u8>, off: int, instrs: Seq<(u8, Seq<u32>)>)
    requires
        forall|i: int| 0 <= i < instrs.len() ==> (#[trigger] instrs[i]).1.len() <= 255,
        has_at(b, off, instructions_bytes(instrs)),
    ensures
        parse_instrs(b, off, instrs.len()) == Ok::<(Seq<(u8, Seq<u32>)>, int), DecodeFault>((instrs, off + instructions_bytes(instrs).len())),
    decreases instrs.len(),
{
    if instrs.len() > 0 {
        let init = instrs.drop_last();
        let last = instrs.last();
        assert(last == instrs[instrs.len() - 1]);
        lemma_split(b, off, instructions_bytes(init), instruction_bytes(last.0, last.1));
        assert forall|i: int| 0 <= i < init.len() implies (#[trigger] init[i]).1.len() <= 255 by {
            assert(init[i] == instrs[i]);
        }
        lemma_parse_instrs_at(b, off, init);
        lemma_parse_instr_at(b, off + instructions_bytes(init).len(), last.0, last.1);
        assert(init.push(last) =~= instrs);
    } else {
        assert(instrs =~= Seq::<(u8, Seq<u32>)>::empty());
    }
}

proof fn lemma_parse_goal_at(b: Seq<u8>, off: int, g: EncodedGoal)
    requires
        has_at(b, off, goal_bytes(g)),
    ensures
        parse_goal(b, off) == Ok::<(DecodedGoal, int), DecodeFault>((decoded_goal(g), off + goal_bytes(g).len())),
{
    lemma_auto_spec_u32_to_from_le_bytes();
    assert(b[off] == goal_bytes(g)[0]);
    match g {
        EncodedGoal::OwnershipInvariant(v) => {
            lemma_split(b, off, seq![0x00u8], le32(v));
            lemma_parse_u32_at(b, off + 1, v);
        },
        EncodedGoal::RegionSafety(v) => {
            lemma_split(b, off, seq![0x01u8], le32(v));
            lemma_parse_u32_at(b, off + 1, v);
        },
        EncodedGoal::LinearityConstraint(v) => {
            lemma_split(b, off, seq![0x02u8], le32(v));
            lemma_parse_u32_at(b, off + 1, v);
        },
        EncodedGoal::EffectOrdering(x, y) => {
            lemma_split(b, off, seq![0x03u8] + le32(x), le32(y));
            lemma_split(b, off, seq![0x03u8], le32(x));
            lemma_parse_u32_at(b, off + 1, x);
            lemma_parse_u32_at(b, off + 5, y);
        },
        EncodedGoal::BoundsCheck(x, y) => {
            lemma_split(b, off, seq![0x04u8] + le32(x), le32(y));
            lemma_split(b, off, seq![0x04u8], le32(x));
            lemma_parse_u32_at(b, off + 1, x);
            lemma_parse_u32_at(b, off + 5, y);
        },
        EncodedGoal::EffectPrecondition(k) => {
            assert(b[off + 1] == goal_bytes(g)[1]);
        },
    }
}

proof fn lemma_parse_goals_at(b: Seq<u8>, off: int, goals: Seq<EncodedGoal>)
    requires
        has_at(b, off, goal_list_bytes(goals)),
    ensures
        parse_goals(b, off, goals.len()) == Ok::<(Seq<DecodedGoal>, int), DecodeFault>((goals.map_values(|g: EncodedGoal| decoded_goal(g)), off + goal_list_bytes(goals).len())),
    decreases goals.len(),
{
    if goals.len() > 0 {
        let init = goals.drop_last();
        lemma_split(b, off, goal_list_bytes(init), goal_bytes(goals.last()));
        lemma_parse_goals_at(b, off, init);
        lemma_parse_goal_at(b, off + goal_list_bytes(init).len(), goals.last());
        assert(init.map_values(|g: EncodedGoal| decoded_goal(g)).push(decoded_goal(goals.last())) =~= goals.map_values(|g: EncodedGoal| decoded_goal(g)));
    } else {
        assert(goals.map_values(|g: EncodedGoal| decoded_goal(g)) =~= Seq::<DecodedGoal>::empty());
    }
}

/// Reading back what the encoder writes: for a program written as header,
/// metadata, instruction count, instructions and proof goals, followed by any
/// trailing bytes (the checksum), decoding gives back exactly the
/// instructions and the proof goals, provided every count fits the field
/// that holds it.
pub proof fn lemma_decode_encoded_program(
    timestamp: u64,
    source: Seq<u8>,
    version: Seq<u8>,
    instrs: Seq<(u8, Seq<u32>)>,
    goals: Seq<EncodedGoal>,
    trailer: Seq<u8>,
)
    requires
        version.len() <= 255,
        source.len() + version.len() + 28 <= u32::MAX,
        instrs.len() <= u32::MAX,
        goals.len() <= u32::MAX,
        forall|i: int| 0 <= i < instrs.len() ==> (#[trigger] instrs[i]).1.len() <= 255,
    ensures
        spec_decode(program_bytes(timestamp, source, version, instrs, goals) + trailer)
            == Ok::<(Seq<(u8, Seq<u32>)>, Seq<DecodedGoal>), DecodeFault>((instrs, goals.map_values(|g: EncodedGoal| decoded_goal(g)))),
{
    let header = header_bytes();
    let meta = metadata_bytes(timestamp, source, version);
    let body = metadata_body(timestamp, source, version);
    let pad = padding_len(body.len());
    let count = le32(instrs.len() as u32);
    let ib = instructions_bytes(instrs);
    let gb = goals_bytes(goals);
    let b = program_bytes(timestamp, source, version, instrs, goals) + trailer;
    lemma_prefix(header + meta + count + ib + gb, trailer);
    lemma_split(b, 0, header + meta + count + ib, gb);
    lemma_split(b, 0, header + meta + count, ib);
    lemma_split(b, 0, header + meta, count);
    lemma_split(b, 0, header, meta);
    assert(header.len() == 12) by {
        lemma_auto_spec_u32_to_from_le_bytes();
    }
    assert(body.len() == 8 + 4 + source.len() + 1 + version.len()) by {
        lemma_auto_spec_u32_to_from_le_bytes();
        lemma_auto_spec_u64_to_from_le_bytes();
    }
    let total = body.len() + pad;
    lemma_split(b, 12, le32(total as u32) + body, zeros(pad));
    lemma_split(b, 12, le32(total as u32), body);
    lemma_parse_u32_at(b, 12, total as u32);
    assert(le32(total as u32).len() == 4) by {
        lemma_auto_spec_u32_to_from_le_bytes();
    }
    assert(meta.len() == 4 + total);
    let o2: int = 12int + meta.len();
    lemma_parse_u32_at(b, o2, instrs.len() as u32);
    assert(count.len() == 4) by {
        lemma_auto_spec_u32_to_from_le_bytes();
    }
    lemma_parse_instrs_at(b, o2 + 4, instrs);
    let o4: int = o2 + 4 + ib.len();
    lemma_split(b, o4, le32(goals.len() as u32), goal_list_bytes(goals));
    lemma_parse_u32_at(b, o4, goals.len() as u32);
    assert(le32(goals.len() as u32).len() == 4) by {
        lemma_auto_spec_u32_to_from_le_bytes();
    }
    lemma_parse_goals_at(b, o4 + 4, goals);
}

} // verus!

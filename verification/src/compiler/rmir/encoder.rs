//! RMIR binary encoder: writes the sections of the format one by one into a
//! buffer and seals it with a BLAKE3 checksum.

use vstd::prelude::*;
use vstd::bytes::*;
use vstd::string::StringSliceAdditionalSpecFns;
use crate::compiler::rmir::format::{HEADER_LEN, magic, header_bytes, le32, le64, zeros, metadata_body, metadata_bytes, padding_len, varint_bytes, varints, instruction_bytes, goal_bytes, goal_list_bytes, goals_bytes, DecodeFault, parse_u8, parse_u32, parse_varint, parse_args, parse_instr, parse_instrs, parse_goal, parse_goals, spec_decode};
use crate::error::IoError;
use crate::outside::{blake3_hash, spec_blake3};

verus! {

/// A proof goal attached to an encoded program.
#[derive(Clone, Copy, Debug)]
pub enum ProofGoal {
    OwnershipInvariant(u32),
    RegionSafety(u32),
    LinearityConstraint(u32),
    EffectOrdering(u32, u32),
    BoundsCheck(u32, u32),
    EffectPrecondition(u8),
}

/// Encodes an RMIR program to bytecode.
pub struct RmirEncoder {
    pub buffer: Vec<u8>,
    pub proof_goals: Vec<ProofGoal>,
}

/// Appends the bytes of a slice to a vector.
pub fn push_bytes(buf: &mut Vec<u8>, bytes: &[u8])
    ensures
        final(buf)@ == old(buf)@ + bytes@,
{
    let mut i: usize = 0;
    while i < bytes.len()
        invariant
            i <= bytes@.len(),
            buf@ == old(buf)@ + bytes@.subrange(0, i as int),
        decreases bytes@.len() - i,
    {
        buf.push(bytes[i]);
        assert(bytes@.subrange(0, i + 1) =~= bytes@.subrange(0, i as int).push(bytes@[i as int]));
        i = i + 1;
    }
    assert(bytes@.subrange(0, bytes@.len() as int) =~= bytes@);
}

impl RmirEncoder {
    /// Creates an encoder with an empty buffer and no proof goals.
    pub fn new() -> (e: Self)
        ensures
            e.buffer@ == Seq::<u8>::empty(),
            e.proof_goals@ == Seq::<ProofGoal>::empty(),
    {
        Self { buffer: Vec::with_capacity(4096), proof_goals: Vec::new() }
    }

    /// Writes the header: magic `RMIR`, version 1, and four zero flag bytes.
    pub fn encode_header(&mut self) -> (r: Result<(), IoError>)
        ensures
            r is Ok,
            final(self).buffer@ == old(self).buffer@ + header_bytes(),
            final(self).proof_goals@ == old(self).proof_goals@,
    {
        self.buffer.push(0x52);
        self.buffer.push(0x4D);
        self.buffer.push(0x49);
        self.buffer.push(0x52);
        let _ = self.write_u32_le(0x00000001);
        self.buffer.push(0x00);
        self.buffer.push(0x00);
        self.buffer.push(0x00);
        self.buffer.push(0x00);
        assert(self.buffer@ =~= old(self).buffer@ + header_bytes());
        Ok(())
    }

    /// Writes the metadata section: its padded length, the timestamp, the
    /// source file name and the compiler version, then zero padding to a
    /// multiple of 16 bytes.
    pub fn encode_metadata(&mut self, timestamp: u64, source_file: &str, compiler_version: &str) -> (r: Result<(), IoError>)
        ensures
            r is Ok,
            final(self).buffer@ == old(self).buffer@ + metadata_bytes(timestamp, source_file.spec_bytes(), compiler_version.spec_bytes()),
            final(self).proof_goals@ == old(self).proof_goals@,
    {
        let ghost start = self.buffer@;
        let ghost body = metadata_body(timestamp, source_file.spec_bytes(), compiler_version.spec_bytes());
        proof { lemma_auto_spec_u32_to_from_le_bytes(); }
        let len_pos = self.buffer.len();
        let _ = self.write_u32_le(0);
        let _ = self.write_u64_le(timestamp);
        let src = source_file.as_bytes();
        let ver = compiler_version.as_bytes();
        let _ = self.write_u32_le(src.len() as u32);
        push_bytes(&mut self.buffer, src);
        self.buffer.push(ver.len() as u8);
        push_bytes(&mut self.buffer, ver);
        assert(self.buffer@ =~= start + le32(0) + body);
        let metadata_len = self.buffer.len() - len_pos - 4;
        let padding = (16 - (metadata_len % 16)) % 16;
        let mut k: usize = 0;
        while k < padding
            invariant
                k <= padding,
                self.buffer@ == start + le32(0) + body + zeros(k as nat),
                self.proof_goals@ == old(self).proof_goals@,
            decreases padding - k,
        {
            self.buffer.push(0x00);
            assert(zeros((k + 1) as nat) =~= zeros(k as nat).push(0u8));
            k = k + 1;
        }
        let total = self.buffer.len() - len_pos - 4;
        let len_bytes = total as u32;
        assert(total == body.len() + padding_len(body.len()));
        let lb = u32_to_le_bytes(len_bytes);
        self.buffer.set(len_pos, lb[0]);
        self.buffer.set(len_pos + 1, lb[1]);
        self.buffer.set(len_pos + 2, lb[2]);
        self.buffer.set(len_pos + 3, lb[3]);
        proof {
            lemma_auto_spec_u32_to_from_le_bytes();
            let expected = start + metadata_bytes(timestamp, source_file.spec_bytes(), compiler_version.spec_bytes());
            assert(le32(0).len() == 4);
            assert(le32(len_bytes).len() == 4);
            assert(self.buffer@.len() == expected.len());
            assert forall|i: int| 0 <= i < expected.len() implies self.buffer@[i] == expected[i] by {
                if i < start.len() + 4 && i >= start.len() {
                    assert(expected[i] == le32(len_bytes)[i - start.len()]);
                }
            }
            assert(self.buffer@ =~= expected);
        }
        Ok(())
    }

    /// Writes the instruction count.
    pub fn encode_instruction_header(&mut self, count: u32) -> (r: Result<(), IoError>)
        ensures
            r is Ok,
            final(self).buffer@ == old(self).buffer@ + le32(count),
            final(self).proof_goals@ == old(self).proof_goals@,
    {
        self.write_u32_le(count)
    }

    /// Writes one instruction: the opcode, the argument count as one byte,
    /// and each argument as a variable-length integer.
    pub fn encode_instruction(&mut self, opcode: u8, args: &[u32]) -> (r: Result<(), IoError>)
        ensures
            r is Ok,
            final(self).buffer@ == old(self).buffer@ + instruction_bytes(opcode, args@),
            final(self).proof_goals@ == old(self).proof_goals@,
    {
        self.buffer.push(opcode);
        self.buffer.push(args.len() as u8);
        let ghost head = self.buffer@;
        let mut i: usize = 0;
        while i < args.len()
            invariant
                i <= args@.len(),
                self.buffer@ == head + varints(args@.subrange(0, i as int)),
                self.proof_goals@ == old(self).proof_goals@,
            decreases args@.len() - i,
        {
            let _ = self.write_varint(args[i] as u64);
            assert(args@.subrange(0, i + 1).drop_last() =~= args@.subrange(0, i as int));
            i = i + 1;
        }
        assert(args@.subrange(0, args@.len() as int) =~= args@);
        assert(self.buffer@ =~= old(self).buffer@ + instruction_bytes(opcode, args@));
        Ok(())
    }

    /// Records a proof goal and returns its index (as a `u32`).
    pub fn add_proof_goal(&mut self, goal: ProofGoal) -> (id: u32)
        ensures
            id == old(self).proof_goals@.len() as u32,
            final(self).proof_goals@ == old(self).proof_goals@.push(goal),
            final(self).buffer@ == old(self).buffer@,
    {
        let id = self.proof_goals.len() as u32;
        self.proof_goals.push(goal);
        id
    }

    /// Writes the proof goal section: the number of recorded goals, then
    /// each goal as a tag byte and its operands.
    pub fn encode_proof_goals(&mut self) -> (r: Result<(), IoError>)
        ensures
            r is Ok,
            final(self).buffer@ == old(self).buffer@ + goals_bytes(old(self).proof_goals@),
            final(self).proof_goals@ == old(self).proof_goals@,
    {
        let _ = self.write_u32_le(self.proof_goals.len() as u32);
        let ghost head = self.buffer@;
        let mut i: usize = 0;
        while i < self.proof_goals.len()
            invariant
                i <= self.proof_goals@.len(),
                self.proof_goals@ == old(self).proof_goals@,
                self.buffer@ == head + goal_list_bytes(self.proof_goals@.subrange(0, i as int)),
            decreases self.proof_goals@.len() - i,
        {
            let goal = self.proof_goals[i];
            let ghost before = self.buffer@;
            match goal {
                ProofGoal::OwnershipInvariant(val_id) => {
                    self.buffer.push(0x00);
                    let _ = self.write_u32_le(val_id);
                },
                ProofGoal::RegionSafety(region_id) => {
                    self.buffer.push(0x01);
                    let _ = self.write_u32_le(region_id);
                },
                ProofGoal::LinearityConstraint(val_id) => {
                    self.buffer.push(0x02);
                    let _ = self.write_u32_le(val_id);
                },
                ProofGoal::EffectOrdering(e1, e2) => {
                    self.buffer.push(0x03);
                    let _ = self.write_u32_le(e1);
                    let _ = self.write_u32_le(e2);
                },
                ProofGoal::BoundsCheck(idx, len) => {
                    self.buffer.push(0x04);
                    let _ = self.write_u32_le(idx);
                    let _ = self.write_u32_le(len);
                },
                ProofGoal::EffectPrecondition(kind) => {
                    self.buffer.push(0x05);
                    self.buffer.push(kind);
                },
            }
            assert(self.buffer@ =~= before + goal_bytes(goal));
            assert(self.proof_goals@.subrange(0, i + 1).drop_last() =~= self.proof_goals@.subrange(0, i as int));
            i = i + 1;
        }
        assert(self.proof_goals@.subrange(0, self.proof_goals@.len() as int) =~= self.proof_goals@);
        assert(self.buffer@ =~= old(self).buffer@ + goals_bytes(old(self).proof_goals@));
        Ok(())
    }

    /// Appends the BLAKE3 checksum of everything written so far and returns
    /// the bytes.
    pub fn finish(self) -> (r: Result<Vec<u8>, IoError>)
        ensures
            r is Ok,
            r matches Ok(v) && v@ == self.buffer@ + spec_blake3(self.buffer@),
    {
        let mut buffer = self.buffer;
        let hash = blake3_hash(buffer.as_slice());
        push_bytes(&mut buffer, hash.as_slice());
        Ok(buffer)
    }

    /// Writes a little-endian `u32`.
    pub fn write_u32_le(&mut self, value: u32) -> (r: Result<(), IoError>)
        ensures
            r is Ok,
            final(self).buffer@ == old(self).buffer@ + le32(value),
            final(self).proof_goals@ == old(self).proof_goals@,
    {
        let bytes = u32_to_le_bytes(value);
        push_bytes(&mut self.buffer, bytes.as_slice());
        Ok(())
    }

    /// Writes a little-endian `u64`.
    pub fn write_u64_le(&mut self, value: u64) -> (r: Result<(), IoError>)
        ensures
            r is Ok,
            final(self).buffer@ == old(self).buffer@ + le64(value),
            final(self).proof_goals@ == old(self).proof_goals@,
    {
        let bytes = u64_to_le_bytes(value);
        push_bytes(&mut self.buffer, bytes.as_slice());
        Ok(())
    }

    /// Writes a variable-length integer: one byte up to 0x7F, two bytes up
    /// to 0x3FFF, otherwise the tag 0xC0 and the low 32 bits little endian.
    pub fn write_varint(&mut self, value: u64) -> (r: Result<(), IoError>)
        ensures
            r is Ok,
            final(self).buffer@ == old(self).buffer@ + varint_bytes(value),
            final(self).proof_goals@ == old(self).proof_goals@,
    {
        if value <= 0x7F {
            self.buffer.push(value as u8);
        } else if value <= 0x3FFF {
            self.buffer.push((0x80 + value / 256) as u8);
            self.buffer.push((value % 256) as u8);
        } else {
            self.buffer.push(0xC0);
            let _ = self.write_u32_le(value as u32);
        }
        assert(self.buffer@ =~= old(self).buffer@ + varint_bytes(value));
        Ok(())
    }
}

} // verus!

//! RMIR binary decoder: checks the header and the checksum, then reads the
//! instructions and proof goals back (see `format` for the layout).

use vstd::prelude::*;
use vstd::bytes::*;
use vstd::slice::slice_subrange;
use crate::compiler::rmir::format::{HEADER_LEN, magic, header_bytes, le32, le64, zeros, metadata_body, metadata_bytes, padding_len, varint_bytes, varints, instruction_bytes, goal_bytes, goal_list_bytes, goals_bytes, DecodeFault, parse_u8, parse_u32, parse_varint, parse_args, parse_instr, parse_instrs, parse_goal, parse_goals, spec_decode};
use crate::error::{IoError, IoErrorKind};
use crate::outside::{blake3_hash, spec_blake3};

verus! {

/// Decodes RMIR bytecode.
pub struct RmirDecoder<'a> {
    pub bytes: &'a [u8],
    pub offset: usize,
}

/// A decoded program: `(opcode, arguments)` pairs and proof goals.
#[derive(Clone, Debug)]
pub struct RmirProgram {
    pub instructions: Vec<(u8, Vec<u32>)>,
    pub proof_goals: Vec<ProofGoal>,
}

/// A proof goal read from bytecode.
#[derive(Clone, Copy, Debug, PartialEq, Eq, Structural)]
pub enum ProofGoal {
    OwnershipInvariant(u32),
    RegionSafety(u32),
    LinearityConstraint(u32),
    EffectOrdering(u32, u32),
    BoundsCheck(u32, u32),
    EffectPrecondition(u8),
}

/// The mathematical form of decoded instructions.
pub open spec fn instrs_view(v: Seq<(u8, Vec<u32>)>) -> Seq<(u8, Seq<u32>)> {
    v.map_values(|p: (u8, Vec<u32>)| (p.0, p.1@))
}

impl RmirProgram {
    /// The instructions and proof goals as sequences.
    pub open spec fn view_parts(&self) -> (Seq<(u8, Seq<u32>)>, Seq<ProofGoal>) {
        (instrs_view(self.instructions@), self.proof_goals@)
    }
}

/// The error kind reported for a reading fault.
pub open spec fn fault_kind(f: DecodeFault) -> IoErrorKind {
    match f {
        DecodeFault::Eof => IoErrorKind::UnexpectedEof,
        _ => IoErrorKind::InvalidData,
    }
}

/// The message reported for a reading fault.
pub open spec fn fault_message(f: DecodeFault) -> Seq<char> {
    match f {
        DecodeFault::Eof => "EOF"@,
        DecodeFault::InvalidVarint => "Invalid varint"@,
        DecodeFault::UnknownGoal => "Unknown proof goal"@,
    }
}

/// `e` is the error reported for fault `f`.
pub open spec fn reports_fault(e: IoError, f: DecodeFault) -> bool {
    e.kind == fault_kind(f) && e.message@ == fault_message(f)
}

/// `e` has the given kind and message.
pub open spec fn is_error(e: IoError, kind: IoErrorKind, message: Seq<char>) -> bool {
    e.kind == kind && e.message@ == message
}

fn fault_error(f: DecodeFault) -> (e: IoError)
    ensures
        reports_fault(e, f),
{
    match f {
        DecodeFault::Eof => IoError::new(IoErrorKind::UnexpectedEof, "EOF"),
        DecodeFault::InvalidVarint => IoError::new(IoErrorKind::InvalidData, "Invalid varint"),
        DecodeFault::UnknownGoal => IoError::new(IoErrorKind::InvalidData, "Unknown proof goal"),
    }
}

proof fn lemma_args_err_persists(b: Seq<u8>, off: int, k: nat, n: nat)
    requires
        k <= n,
        parse_args(b, off, k) is Err,
    ensures
        parse_args(b, off, n) == parse_args(b, off, k),
    decreases n,
{
    if n > k {
        lemma_args_err_persists(b, off, k, (n - 1) as nat);
    }
}

proof fn lemma_instrs_err_persists(b: Seq<u8>, off: int, k: nat, n: nat)
    requires
        k <= n,
        parse_instrs(b, off, k) is Err,
    ensures
        parse_instrs(b, off, n) == parse_instrs(b, off, k),
    decreases n,
{
    if n > k {
        lemma_instrs_err_persists(b, off, k, (n - 1) as nat);
    }
}

proof fn lemma_goals_err_persists(b: Seq<u8>, off: int, k: nat, n: nat)
    requires
        k <= n,
        parse_goals(b, off, k) is Err,
    ensures
        parse_goals(b, off, n) == parse_goals(b, off, k),
    decreases n,
{
    if n > k {
        lemma_goals_err_persists(b, off, k, (n - 1) as nat);
    }
}

impl<'a> RmirDecoder<'a> {
    /// Creates a decoder after checking the header: at least the 12 header
    /// bytes, the magic `RMIR`, and version 1.
    pub fn new(bytes: &'a [u8]) -> (r: Result<Self, IoError>)
        ensures
            bytes@.len() < HEADER_LEN ==> (r matches Err(e) && is_error(e, IoErrorKind::InvalidData, "Bytecode too short"@)),
            bytes@.len() >= HEADER_LEN && bytes@.subrange(0, 4) != magic() ==> (r matches Err(e) && is_error(e, IoErrorKind::InvalidData, "Invalid magic"@)),
            bytes@.len() >= HEADER_LEN && bytes@.subrange(0, 4) == magic() && spec_u32_from_le_bytes(bytes@.subrange(4, 8)) != 1
                ==> (r matches Err(e) && is_error(e, IoErrorKind::InvalidData, "Unsupported version"@)),
            bytes@.len() >= HEADER_LEN && bytes@.subrange(0, 4) == magic() && spec_u32_from_le_bytes(bytes@.subrange(4, 8)) == 1
                ==> (r matches Ok(d) && d.bytes == bytes && d.offset == 0),
    {
        if bytes.len() < HEADER_LEN {
            return Err(IoError::new(IoErrorKind::InvalidData, "Bytecode too short"));
        }
        if !(bytes[0] == 0x52 && bytes[1] == 0x4D && bytes[2] == 0x49 && bytes[3] == 0x52) {
            assert(bytes@.subrange(0, 4) != magic()) by {
                if bytes@.subrange(0, 4) == magic() {
                    assert(bytes@[0] == bytes@.subrange(0, 4)[0]);
                    assert(bytes@[1] == bytes@.subrange(0, 4)[1]);
                    assert(bytes@[2] == bytes@.subrange(0, 4)[2]);
                    assert(bytes@[3] == bytes@.subrange(0, 4)[3]);
                }
            }
            return Err(IoError::new(IoErrorKind::InvalidData, "Invalid magic"));
        }
        assert(bytes@.subrange(0, 4) =~= magic());
        let version = u32_from_le_bytes(slice_subrange(bytes, 4, 8));
        if version != 0x00000001 {
            return Err(IoError::new(IoErrorKind::InvalidData, "Unsupported version"));
        }
        Ok(Self { bytes, offset: 0 })
    }

    /// Checks that the last 32 bytes are the BLAKE3 digest of the bytes
    /// before them.
    pub fn verify_checksum(&self) -> (r: Result<(), IoError>)
        ensures
            self.bytes@.len() < 32 ==> (r matches Err(e) && is_error(e, IoErrorKind::InvalidData, "No checksum"@)),
            self.bytes@.len() >= 32 ==> {
                let n = self.bytes@.len() - 32;
                if spec_blake3(self.bytes@.subrange(0, n)) == self.bytes@.subrange(n, self.bytes@.len() as int) {
                    r is Ok
                } else {
                    r matches Err(e) && is_error(e, IoErrorKind::InvalidData, "Checksum mismatch"@)
                }
            },
    {
        if self.bytes.len() < 32 {
            return Err(IoError::new(IoErrorKind::InvalidData, "No checksum"));
        }
        let total_len = self.bytes.len();
        let data_len = total_len - 32;
        let data = slice_subrange(self.bytes, 0, data_len);
        let computed = blake3_hash(data);
        assert(computed@ == spec_blake3(self.bytes@.subrange(0, data_len as int)));
        let ghost stored = self.bytes@.subrange(data_len as int, self.bytes@.len() as int);
        let mut i: usize = 0;
        while i < 32
            invariant
                self.bytes@.len() >= 32,
                total_len == self.bytes@.len(),
                data_len == total_len - 32,
                computed@.len() == 32,
                computed@ == spec_blake3(self.bytes@.subrange(0, data_len as int)),
                stored == self.bytes@.subrange(data_len as int, self.bytes@.len() as int),
                i <= 32,
                forall|j: int| 0 <= j < i ==> computed@[j] == stored[j],
            decreases 32 - i,
        {
            if computed[i] != self.bytes[data_len + i] {
                assert(stored[i as int] == self.bytes@[data_len + i]);
                assert(computed@[i as int] != stored[i as int]);
                assert(computed@ != stored);
                return Err(IoError::new(IoErrorKind::InvalidData, "Checksum mismatch"));
            }
            i = i + 1;
        }
        assert(computed@ =~= stored);
        Ok(())
    }

    /// Reads the program after the header: skips the metadata by its length
    /// field, then reads the instructions and the proof goals.
    #[verifier::loop_isolation(false)]
    pub fn decode_all(self) -> (r: Result<RmirProgram, IoError>)
        ensures
            match spec_decode(self.bytes@) {
                Ok(parts) => r matches Ok(p) && p.view_parts() == parts,
                Err(f) => r matches Err(e) && reports_fault(e, f),
            },
    {
        let ghost b = self.bytes@;
        let mut this = self;
        this.offset = HEADER_LEN;
        let meta_len = match this.read_u32_le() {
            Ok(v) => v as usize,
            Err(f) => { return Err(fault_error(f)); },
        };
        this.offset = match this.offset.checked_add(meta_len) {
            Some(o) => o,
            None => {
                let total_len = this.bytes.len();
                assert(total_len == b.len());
                return Err(fault_error(DecodeFault::Eof));
            },
        };
        let instr_count = match this.read_u32_le() {
            Ok(v) => v as usize,
            Err(f) => { return Err(fault_error(f)); },
        };
        let ghost o2 = this.offset as int;
        let mut instructions: Vec<(u8, Vec<u32>)> = Vec::new();
        assert(instrs_view(instructions@) =~= Seq::<(u8, Seq<u32>)>::empty());
        let mut i: usize = 0;
        while i < instr_count
            invariant
                this.bytes@ == b,
                i <= instr_count,
                parse_instrs(b, o2, i as nat) == Ok::<(Seq<(u8, Seq<u32>)>, int), DecodeFault>((instrs_view(instructions@), this.offset as int)),
            decreases instr_count - i,
        {
            let instr = match this.read_instr() {
                Ok(v) => v,
                Err(f) => {
                    proof { lemma_instrs_err_persists(b, o2, (i + 1) as nat, instr_count as nat); }
                    return Err(fault_error(f));
                },
            };
            let ghost prev = instructions@;
            let ghost iv = (instr.0, instr.1@);
            instructions.push(instr);
            assert(instrs_view(instructions@) =~= instrs_view(prev).push(iv));
            i = i + 1;
        }
        let goal_count = match this.read_u32_le() {
            Ok(v) => v as usize,
            Err(f) => { return Err(fault_error(f)); },
        };
        let ghost o4 = this.offset as int;
        let mut proof_goals: Vec<ProofGoal> = Vec::new();
        let mut k: usize = 0;
        while k < goal_count
            invariant
                this.bytes@ == b,
                k <= goal_count,
                parse_goals(b, o4, k as nat) == Ok::<(Seq<ProofGoal>, int), DecodeFault>((proof_goals@, this.offset as int)),
            decreases goal_count - k,
        {
            let goal = match this.read_goal() {
                Ok(g) => g,
                Err(f) => {
                    proof { lemma_goals_err_persists(b, o4, (k + 1) as nat, goal_count as nat); }
                    return Err(fault_error(f));
                },
            };
            proof_goals.push(goal);
            k = k + 1;
        }
        Ok(RmirProgram { instructions, proof_goals })
    }

    fn read_args(&mut self, count: usize) -> (r: Result<Vec<u32>, DecodeFault>)
        ensures
            final(self).bytes == old(self).bytes,
            match parse_args(old(self).bytes@, old(self).offset as int, count as nat) {
                Ok((vs, o)) => (r matches Ok(v) && v@ == vs) && final(self).offset == o,
                Err(f) => r == Err::<Vec<u32>, DecodeFault>(f),
            },
    {
        let ghost b = self.bytes@;
        let ghost o = self.offset as int;
        let mut args: Vec<u32> = Vec::new();
        let mut j: usize = 0;
        while j < count
            invariant
                self.bytes@ == b,
                self.bytes == old(self).bytes,
                o == old(self).offset as int,
                j <= count,
                parse_args(b, o, j as nat) == Ok::<(Seq<u32>, int), DecodeFault>((args@, self.offset as int)),
            decreases count - j,
        {
            let v = match self.read_varint() {
                Ok(v) => v,
                Err(f) => {
                    proof { lemma_args_err_persists(b, o, (j + 1) as nat, count as nat); }
                    return Err(f);
                },
            };
            args.push(v as u32);
            j = j + 1;
        }
        Ok(args)
    }

    fn read_instr(&mut self) -> (r: Result<(u8, Vec<u32>), DecodeFault>)
        ensures
            final(self).bytes == old(self).bytes,
            match parse_instr(old(self).bytes@, old(self).offset as int) {
                Ok((iv, o)) => (r matches Ok(v) && v.0 == iv.0 && v.1@ == iv.1) && final(self).offset == o,
                Err(f) => r == Err::<(u8, Vec<u32>), DecodeFault>(f),
            },
    {
        let opcode = self.read_u8()?;
        let arg_count = self.read_u8()? as usize;
        let args = self.read_args(arg_count)?;
        Ok((opcode, args))
    }

    fn read_goal(&mut self) -> (r: Result<ProofGoal, DecodeFault>)
        ensures
            final(self).bytes == old(self).bytes,
            match parse_goal(old(self).bytes@, old(self).offset as int) {
                Ok((g, o)) => r == Ok::<ProofGoal, DecodeFault>(g) && final(self).offset == o,
                Err(f) => r == Err::<ProofGoal, DecodeFault>(f),
            },
    {
        let goal_type = self.read_u8()?;
        if goal_type == 0x00 {
            Ok(ProofGoal::OwnershipInvariant(self.read_u32_le()?))
        } else if goal_type == 0x01 {
            Ok(ProofGoal::RegionSafety(self.read_u32_le()?))
        } else if goal_type == 0x02 {
            Ok(ProofGoal::LinearityConstraint(self.read_u32_le()?))
        } else if goal_type == 0x03 {
            let e1 = self.read_u32_le()?;
            let e2 = self.read_u32_le()?;
            Ok(ProofGoal::EffectOrdering(e1, e2))
        } else if goal_type == 0x04 {
            let idx = self.read_u32_le()?;
            let len = self.read_u32_le()?;
            Ok(ProofGoal::BoundsCheck(idx, len))
        } else if goal_type == 0x05 {
            Ok(ProofGoal::EffectPrecondition(self.read_u8()?))
        } else {
            Err(DecodeFault::UnknownGoal)
        }
    }

    /// Reads one byte.
    fn read_u8(&mut self) -> (r: Result<u8, DecodeFault>)
        ensures
            final(self).bytes == old(self).bytes,
            match parse_u8(old(self).bytes@, old(self).offset as int) {
                Ok((v, o)) => r == Ok::<u8, DecodeFault>(v) && final(self).offset == o,
                Err(f) => r == Err::<u8, DecodeFault>(f) && final(self).offset == old(self).offset,
            },
    {
        if self.offset >= self.bytes.len() {
            return Err(DecodeFault::Eof);
        }
        let value = self.bytes[self.offset];
        self.offset = self.offset + 1;
        Ok(value)
    }

    /// Reads a little-endian `u32`.
    fn read_u32_le(&mut self) -> (r: Result<u32, DecodeFault>)
        ensures
            final(self).bytes == old(self).bytes,
            match parse_u32(old(self).bytes@, old(self).offset as int) {
                Ok((v, o)) => r == Ok::<u32, DecodeFault>(v) && final(self).offset == o,
                Err(f) => r == Err::<u32, DecodeFault>(f) && final(self).offset == old(self).offset,
            },
    {
        if self.bytes.len() < 4 || self.offset > self.bytes.len() - 4 {
            return Err(DecodeFault::Eof);
        }
        let v = u32_from_le_bytes(slice_subrange(self.bytes, self.offset, self.offset + 4));
        self.offset = self.offset + 4;
        Ok(v)
    }

    /// Reads a variable-length integer.
    fn read_varint(&mut self) -> (r: Result<u64, DecodeFault>)
        ensures
            final(self).bytes == old(self).bytes,
            match parse_varint(old(self).bytes@, old(self).offset as int) {
                Ok((v, o)) => r == Ok::<u64, DecodeFault>(v) && final(self).offset == o,
                Err(f) => r == Err::<u64, DecodeFault>(f),
            },
    {
        let b1 = self.read_u8()?;
        if b1 <= 0x7F {
            Ok(b1 as u64)
        } else if b1 >= 0x80 && b1 <= 0xBF {
            let b2 = self.read_u8()?;
            Ok(((b1 % 64) as u64) * 256 + b2 as u64)
        } else if b1 == 0xC0 {
            let val = self.read_u32_le()?;
            Ok(val as u64)
        } else {
            Err(DecodeFault::InvalidVarint)
        }
    }
}

} // verus!

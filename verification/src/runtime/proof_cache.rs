//! Proof caching with a write-once ledger: certificates are sealed with the
//! BLAKE3 digest of their contents, kept in a bounded cache keyed by the
//! BLAKE3 digest of the bytecode they prove, and every write, hit and invalidation is
//! appended to a ledger that is never rewritten.

use vstd::prelude::*;
use crate::compiler::rmir::format::le64;
use crate::outside::{blake3_hash, spec_blake3};
use crate::error::{IoError, IoErrorKind};
use crate::text::{hex_bytes, to_hex};

verus! {

broadcast use vstd::array::group_array_axioms;

/// A 32-byte BLAKE3 digest.
#[derive(Clone, Copy, Debug, PartialEq, Eq, Hash)]
pub struct Blake3Digest(pub [u8; 32]);

impl Blake3Digest {
    /// The BLAKE3 digest of `bytecode`.
    pub fn from_bytecode(bytecode: &[u8]) -> (d: Blake3Digest)
        ensures
            d.0@ == spec_blake3(bytecode@),
    {
        let bytes = blake3_hash(bytecode);
        let mut digest = [0u8; 32];
        let mut j: usize = 0;
        while j < 32
            invariant
                j <= 32,
                bytes@ == spec_blake3(bytecode@),
                bytes@.len() == 32,
                forall|k: int| 0 <= k < j ==> digest@[k] == bytes@[k],
            decreases 32 - j,
        {
            digest[j] = bytes[j];
            j = j + 1;
        }
        assert(digest@ =~= bytes@);
        Blake3Digest(digest)
    }

    /// The digest in lowercase hexadecimal.
    pub fn as_hex(&self) -> (s: String)
        ensures
            s@ == hex_bytes(self.0@),
    {
        to_hex(self.0.as_slice())
    }

    /// Whether two digests are equal.
    pub fn same(&self, other: &Blake3Digest) -> (r: bool)
        ensures
            r == (*self == *other),
    {
        let mut i: usize = 0;
        while i < 32
            invariant
                i <= 32,
                forall|k: int| 0 <= k < i ==> self.0@[k] == other.0@[k],
            decreases 32 - i,
        {
            if self.0[i] != other.0[i] {
                return false;
            }
            i = i + 1;
        }
        assert(self.0 =~= other.0);
        true
    }
}

} // verus!

verus! {

/// A verified proof: the digest of the bytecode, the proof, when it was
/// made, a seal over all three, and how long verification took.
#[derive(Debug)]
pub struct ProofCertificate {
    pub bytecode_hash: Blake3Digest,
    pub proof_data: Vec<u8>,
    pub timestamp: u64,
    pub seal: Blake3Digest,
    pub verification_ms: u32,
}

/// A certificate with its proof bytes as a sequence.
pub struct CertView {
    pub bytecode_hash: Blake3Digest,
    pub proof_data: Seq<u8>,
    pub timestamp: u64,
    pub seal: Blake3Digest,
    pub verification_ms: u32,
}

impl View for ProofCertificate {
    type V = CertView;

    open spec fn view(&self) -> CertView {
        CertView {
            bytecode_hash: self.bytecode_hash,
            proof_data: self.proof_data@,
            timestamp: self.timestamp,
            seal: self.seal,
            verification_ms: self.verification_ms,
        }
    }
}

/// The bytes a seal is computed over: the bytecode digest, the proof, and
/// the little-endian timestamp.
pub open spec fn seal_input(hash: Blake3Digest, proof: Seq<u8>, timestamp: u64) -> Seq<u8> {
    hash.0@ + proof + le64(timestamp)
}

/// Whether a certificate's seal is the digest of its sealed contents.
pub open spec fn sealed(c: CertView) -> bool {
    c.seal.0@ == spec_blake3(seal_input(c.bytecode_hash, c.proof_data, c.timestamp))
}

fn seal_of(hash: &Blake3Digest, proof_data: &Vec<u8>, timestamp: u64) -> (d: Blake3Digest)
    ensures
        d.0@ == spec_blake3(seal_input(*hash, proof_data@, timestamp)),
{
    let mut input: Vec<u8> = Vec::new();
    let mut i: usize = 0;
    while i < 32
        invariant
            i <= 32,
            input@ == hash.0@.take(i as int),
        decreases 32 - i,
    {
        input.push(hash.0[i]);
        assert(input@ =~= hash.0@.take(i + 1));
        i = i + 1;
    }
    assert(hash.0@.take(32) =~= hash.0@);
    let mut j: usize = 0;
    while j < proof_data.len()
        invariant
            j <= proof_data@.len(),
            input@ == hash.0@ + proof_data@.take(j as int),
        decreases proof_data@.len() - j,
    {
        input.push(proof_data[j]);
        assert(input@ =~= hash.0@ + proof_data@.take(j + 1));
        j = j + 1;
    }
    assert(proof_data@.take(proof_data@.len() as int) =~= proof_data@);
    let ts = vstd::bytes::u64_to_le_bytes(timestamp);
    let mut k: usize = 0;
    proof { vstd::bytes::lemma_auto_spec_u64_to_from_le_bytes(); }
    while k < ts.len()
        invariant
            k <= ts@.len(),
            ts@ == le64(timestamp),
            input@ == hash.0@ + proof_data@ + ts@.take(k as int),
        decreases ts@.len() - k,
    {
        input.push(ts[k]);
        assert(input@ =~= hash.0@ + proof_data@ + ts@.take(k + 1));
        k = k + 1;
    }
    assert(ts@.take(ts@.len() as int) =~= ts@);
    Blake3Digest::from_bytecode(input.as_slice())
}

impl ProofCertificate {
    /// A sealed certificate made at `timestamp`.
    pub fn sealed_at(bytecode_hash: Blake3Digest, proof_data: Vec<u8>, verification_ms: u32, timestamp: u64) -> (c: Self)
        ensures
            c@ == (CertView {
                bytecode_hash,
                proof_data: proof_data@,
                timestamp,
                seal: c.seal,
                verification_ms,
            }),
            sealed(c@),
    {
        let seal = seal_of(&bytecode_hash, &proof_data, timestamp);
        ProofCertificate { bytecode_hash, proof_data, timestamp, seal, verification_ms }
    }

    /// A sealed certificate made now.
    pub fn new(bytecode_hash: Blake3Digest, proof_data: Vec<u8>, verification_ms: u32) -> (c: Self)
        ensures
            c.bytecode_hash == bytecode_hash,
            c.proof_data@ == proof_data@,
            c.verification_ms == verification_ms,
            sealed(c@),
    {
        let timestamp = crate::outside::now_unix_secs();
        Self::sealed_at(bytecode_hash, proof_data, verification_ms, timestamp)
    }

    /// Whether the seal matches the sealed contents.
    pub fn verify_seal(&self) -> (r: bool)
        ensures
            r == sealed(self@),
    {
        let computed = seal_of(&self.bytecode_hash, &self.proof_data, self.timestamp);
        let r = computed.same(&self.seal);
        proof {
            if computed.0@ == self.seal.0@ {
                assert forall|i: int| 0 <= i < 32 implies computed.0[i] == self.seal.0[i] by {
                    assert(computed.0@[i] == self.seal.0@[i]);
                }
                assert(computed.0 =~= self.seal.0);
            }
        }
        r
    }
}

impl Clone for ProofCertificate {
    fn clone(&self) -> (r: Self)
        ensures
            r@ == self@,
    {
        ProofCertificate {
            bytecode_hash: self.bytecode_hash,
            proof_data: self.proof_data.clone(),
            timestamp: self.timestamp,
            seal: self.seal,
            verification_ms: self.verification_ms,
        }
    }
}

/// A ledger entry: its position, the certificate, and the operation
/// (`write`, `cache_hit` or `invalidate`).
#[derive(Debug)]
pub struct WormEntry {
    pub index: u64,
    pub certificate: ProofCertificate,
    pub operation: String,
}

/// A ledger entry with its certificate and operation as views.
pub struct EntryView {
    pub index: u64,
    pub certificate: CertView,
    pub operation: Seq<char>,
}

impl View for WormEntry {
    type V = EntryView;

    open spec fn view(&self) -> EntryView {
        EntryView { index: self.index, certificate: self.certificate@, operation: self.operation@ }
    }
}

/// Counters of the cache.
#[derive(Clone, Copy, Debug)]
pub struct CacheStats {
    pub total_proofs: u64,
    pub cache_hits: u64,
    pub cache_misses: u64,
    pub bytes_cached: u64,
    pub total_verification_ms: u64,
}

impl Default for CacheStats {
    fn default() -> (s: Self)
        ensures
            s.total_proofs == 0 && s.cache_hits == 0 && s.cache_misses == 0,
            s.bytes_cached == 0 && s.total_verification_ms == 0,
    {
        CacheStats { total_proofs: 0, cache_hits: 0, cache_misses: 0, bytes_cached: 0, total_verification_ms: 0 }
    }
}

} // verus!

verus! {

/// The views of a sequence of certificates.
pub open spec fn cert_views(s: Seq<ProofCertificate>) -> Seq<CertView> {
    s.map_values(|c: ProofCertificate| c@)
}

/// The views of a sequence of ledger entries.
pub open spec fn entry_views(s: Seq<WormEntry>) -> Seq<EntryView> {
    s.map_values(|e: WormEntry| e@)
}

/// Whether some certificate in `s` is for the bytecode digest `h`.
pub open spec fn holds(s: Seq<CertView>, h: Blake3Digest) -> bool {
    exists|i: int| 0 <= i < s.len() && s[i].bytecode_hash == h
}

/// The position of the certificate for `h` in `s`.
pub open spec fn slot(s: Seq<CertView>, h: Blake3Digest) -> int {
    choose|i: int| 0 <= i < s.len() && s[i].bytecode_hash == h
}

/// No two certificates are for the same digest.
pub open spec fn hashes_unique(s: Seq<CertView>) -> bool {
    forall|i: int, j: int| 0 <= i < j < s.len() ==> s[i].bytecode_hash != s[j].bytecode_hash
}

/// The cache after making room: when it holds `max` or more certificates
/// (and at least one), the oldest is dropped.
pub open spec fn after_evict(s: Seq<CertView>, max: nat) -> Seq<CertView> {
    if s.len() >= max && s.len() > 0 {
        s.drop_first()
    } else {
        s
    }
}

/// The cache with `c` stored: it replaces the certificate for the same
/// digest, or else is added as the newest.
pub open spec fn put(s: Seq<CertView>, c: CertView) -> Seq<CertView> {
    if holds(s, c.bytecode_hash) {
        s.update(slot(s, c.bytecode_hash), c)
    } else {
        s.push(c)
    }
}

/// Law: what is stored is what is found. After storing `c` (with or
/// without an eviction first), the cache holds exactly one certificate for
/// `c`'s digest, and it is `c`; digests stay unique.
pub proof fn lemma_store_then_find(s: Seq<CertView>, max: nat, c: CertView)
    requires
        hashes_unique(s),
    ensures
        ({
            let t = put(after_evict(s, max), c);
            &&& hashes_unique(t)
            &&& holds(t, c.bytecode_hash)
            &&& forall|i: int| 0 <= i < t.len() && t[i].bytecode_hash == c.bytecode_hash ==> t[i] == c
        }),
{
    let e = after_evict(s, max);
    assert(hashes_unique(e)) by {
        if s.len() >= max && s.len() > 0 {
            assert forall|i: int, j: int| 0 <= i < j < e.len() implies e[i].bytecode_hash != e[j].bytecode_hash by {
                assert(e[i] == s[i + 1] && e[j] == s[j + 1]);
            }
        }
    }
    let t = put(e, c);
    if holds(e, c.bytecode_hash) {
        let k = slot(e, c.bytecode_hash);
        assert(t[k] == c);
        assert forall|i: int| 0 <= i < t.len() && t[i].bytecode_hash == c.bytecode_hash implies t[i] == c by {
            if i != k {
                assert(e[i].bytecode_hash == e[k].bytecode_hash);
            }
        }
        assert forall|i: int, j: int| 0 <= i < j < t.len() implies t[i].bytecode_hash != t[j].bytecode_hash by {
            if i == k {
                assert(e[j].bytecode_hash != e[k].bytecode_hash);
            } else if j == k {
                assert(e[i].bytecode_hash != e[k].bytecode_hash);
            }
        }
    } else {
        assert(t[e.len() as int] == c);
        assert forall|i: int| 0 <= i < t.len() && t[i].bytecode_hash == c.bytecode_hash implies t[i] == c by {
            if i < e.len() {
                assert(e[i].bytecode_hash == c.bytecode_hash);
            }
        }
    }
}

/// The total size of the proofs in `s`.
pub open spec fn total_bytes(s: Seq<CertView>) -> nat
    decreases s.len(),
{
    if s.len() == 0 {
        0
    } else {
        total_bytes(s.drop_last()) + s.last().proof_data.len()
    }
}

/// With digests unique, a certificate found for `h` sits at `slot(s, h)`.
pub proof fn lemma_slot_unique(s: Seq<CertView>, h: Blake3Digest, i: int)
    requires
        hashes_unique(s),
        0 <= i < s.len(),
        s[i].bytecode_hash == h,
    ensures
        slot(s, h) == i,
{
    let j = slot(s, h);
    assert(0 <= j < s.len() && s[j].bytecode_hash == h);
    if j < i {
        assert(s[j].bytecode_hash != s[i].bytecode_hash);
    } else if i < j {
        assert(s[i].bytecode_hash != s[j].bytecode_hash);
    }
}

/// A bounded cache of sealed certificates with an append-only ledger.
pub struct ProofCache {
    certificates: Vec<ProofCertificate>,
    worm_ledger: Vec<WormEntry>,
    stats: CacheStats,
    max_cache_size: usize,
}

impl ProofCache {
    /// The cached certificates, oldest first.
    pub closed spec fn entries(&self) -> Seq<CertView> {
        cert_views(self.certificates@)
    }

    /// The ledger.
    pub closed spec fn ledger(&self) -> Seq<EntryView> {
        entry_views(self.worm_ledger@)
    }

    /// The counters.
    pub closed spec fn counters(&self) -> CacheStats {
        self.stats
    }

    /// The capacity the cache was made with.
    pub closed spec fn capacity(&self) -> nat {
        self.max_cache_size as nat
    }

    /// Cached digests are unique, every certificate in the cache and in
    /// the ledger is sealed, and each ledger entry records its position.
    pub open spec fn wf(&self) -> bool {
        &&& hashes_unique(self.entries())
        &&& forall|i: int| 0 <= i < self.entries().len() ==> sealed(#[trigger] self.entries()[i])
        &&& forall|i: int| 0 <= i < self.ledger().len() ==> (#[trigger] self.ledger()[i]).index == i
        &&& forall|i: int| 0 <= i < self.ledger().len() ==> sealed((#[trigger] self.ledger()[i]).certificate)
    }

    /// An empty cache holding at most `max_cache_size` certificates.
    pub fn new(max_cache_size: usize) -> (c: Self)
        ensures
            c.wf(),
            c.entries() == Seq::<CertView>::empty(),
            c.ledger() == Seq::<EntryView>::empty(),
            c.capacity() == max_cache_size,
            c.counters() == (CacheStats { total_proofs: 0, cache_hits: 0, cache_misses: 0, bytes_cached: 0, total_verification_ms: 0 }),
    {
        let c = ProofCache {
            certificates: Vec::new(),
            worm_ledger: Vec::new(),
            stats: CacheStats::default(),
            max_cache_size,
        };
        assert(c.entries() =~= Seq::<CertView>::empty());
        assert(c.ledger() =~= Seq::<EntryView>::empty());
        c
    }

    fn find(&self, h: &Blake3Digest) -> (r: Option<usize>)
        ensures
            match r {
                Some(i) => i < self.entries().len() && self.entries()[i as int].bytecode_hash == *h,
                None => !holds(self.entries(), *h),
            },
    {
        let mut i: usize = 0;
        while i < self.certificates.len()
            invariant
                i <= self.certificates@.len(),
                forall|j: int| 0 <= j < i ==> self.entries()[j].bytecode_hash != *h,
            decreases self.certificates@.len() - i,
        {
            if self.certificates[i].bytecode_hash.same(h) {
                return Some(i);
            }
            i = i + 1;
        }
        None
    }

    fn append_entry(&mut self, certificate: ProofCertificate, operation: &str)
        requires
            old(self).wf(),
            sealed(certificate@),
        ensures
            final(self).ledger() == old(self).ledger().push(EntryView {
                index: old(self).ledger().len() as u64,
                certificate: certificate@,
                operation: operation@,
            }),
            final(self).entries() == old(self).entries(),
            final(self).stats == old(self).stats,
            final(self).max_cache_size == old(self).max_cache_size,
            final(self).wf(),
    {
        let entry = WormEntry {
            index: self.worm_ledger.len() as u64,
            certificate,
            operation: String::from_str(operation),
        };
        self.worm_ledger.push(entry);
        assert(self.ledger() =~= old(self).ledger().push(entry@));
    }

    /// Seals and caches a proof for `bytecode`, evicting the oldest
    /// certificate when the cache is full, and records the write in the
    /// ledger. Returns the bytecode's digest.
    pub fn store_proof(&mut self, bytecode: &[u8], proof_data: Vec<u8>, verification_ms: u32) -> (r: Result<Blake3Digest, IoError>)
        requires
            old(self).wf(),
            old(self).counters().total_proofs < u64::MAX,
            old(self).counters().total_verification_ms + verification_ms <= u64::MAX,
        ensures
            final(self).wf(),
            r matches Ok(h) && h.0@ == spec_blake3(bytecode@) && {
                let c = final(self).ledger().last().certificate;
                &&& final(self).ledger() == old(self).ledger().push(EntryView {
                        index: old(self).ledger().len() as u64,
                        certificate: c,
                        operation: "write"@,
                    })
                &&& c.bytecode_hash == h
                &&& c.proof_data == proof_data@
                &&& c.verification_ms == verification_ms
                &&& sealed(c)
                &&& final(self).entries() == put(after_evict(old(self).entries(), old(self).capacity()), c)
            },
            final(self).counters() == (CacheStats {
                total_proofs: (old(self).counters().total_proofs + 1) as u64,
                total_verification_ms: (old(self).counters().total_verification_ms + verification_ms) as u64,
                ..old(self).counters()
            }),
            final(self).capacity() == old(self).capacity(),
    {
        let hash = Blake3Digest::from_bytecode(bytecode);
        if self.certificates.len() >= self.max_cache_size && self.certificates.len() > 0 {
            let _evicted = self.certificates.remove(0);
            proof {
                assert(self.entries() =~= old(self).entries().drop_first());
                assert forall|i: int, j: int| 0 <= i < j < self.entries().len()
                    implies self.entries()[i].bytecode_hash != self.entries()[j].bytecode_hash by {
                    assert(self.entries()[i] == old(self).entries()[i + 1]);
                    assert(self.entries()[j] == old(self).entries()[j + 1]);
                }
                assert forall|i: int| 0 <= i < self.entries().len() implies sealed(#[trigger] self.entries()[i]) by {
                    assert(self.entries()[i] == old(self).entries()[i + 1]);
                }
            }
        }
        let ghost kept = self.entries();
        assert(kept == after_evict(old(self).entries(), old(self).capacity()));
        let cert = ProofCertificate::new(hash, proof_data, verification_ms);
        if !cert.verify_seal() {
            return Err(IoError::new(IoErrorKind::InvalidData, "Seal verification failed"));
        }
        let copy = cert.clone();
        match self.find(&hash) {
            Some(i) => {
                proof { lemma_slot_unique(kept, hash, i as int); }
                self.certificates.set(i, copy);
                proof {
                    assert(self.entries() =~= kept.update(i as int, cert@));
                    assert forall|a: int, b: int| 0 <= a < b < self.entries().len()
                        implies self.entries()[a].bytecode_hash != self.entries()[b].bytecode_hash by {
                        if a != i && b != i {
                            assert(kept[a].bytecode_hash != kept[b].bytecode_hash);
                        } else if a == i {
                            assert(kept[i as int].bytecode_hash != kept[b].bytecode_hash);
                        } else {
                            assert(kept[a].bytecode_hash != kept[i as int].bytecode_hash);
                        }
                    }
                    assert forall|a: int| 0 <= a < self.entries().len() implies sealed(#[trigger] self.entries()[a]) by {
                        if a != i {
                            assert(self.entries()[a] == kept[a]);
                        }
                    }
                }
            },
            None => {
                self.certificates.push(copy);
                proof {
                    assert(self.entries() =~= kept.push(cert@));
                    assert forall|a: int, b: int| 0 <= a < b < self.entries().len()
                        implies self.entries()[a].bytecode_hash != self.entries()[b].bytecode_hash by {
                        if b == kept.len() {
                            assert(kept[a].bytecode_hash != hash);
                        }
                    }
                    assert forall|a: int| 0 <= a < self.entries().len() implies sealed(#[trigger] self.entries()[a]) by {
                        if a < kept.len() {
                            assert(self.entries()[a] == kept[a]);
                        }
                    }
                }
            },
        }
        assert(self.entries() == put(kept, cert@));
        assert(hashes_unique(self.entries()));
        assert(forall|i: int| 0 <= i < self.entries().len() ==> sealed(#[trigger] self.entries()[i]));
        assert(self.ledger() == old(self).ledger());
        self.append_entry(cert, "write");
        self.stats.total_proofs = self.stats.total_proofs + 1;
        self.stats.total_verification_ms = self.stats.total_verification_ms + verification_ms as u64;
        Ok(hash)
    }
}

} // verus!

verus! {

impl ProofCache {
    /// Looks up the certificate for `bytecode`. A hit is counted and
    /// recorded in the ledger; a miss is counted.
    pub fn get_proof(&mut self, bytecode: &[u8]) -> (r: Option<ProofCertificate>)
        requires
            old(self).wf(),
            old(self).counters().cache_hits < u64::MAX,
            old(self).counters().cache_misses < u64::MAX,
        ensures
            final(self).wf(),
            final(self).entries() == old(self).entries(),
            final(self).capacity() == old(self).capacity(),
            match r {
                Some(c) => {
                    let s = old(self).entries();
                    &&& exists|i: int| 0 <= i < s.len() && s[i].bytecode_hash.0@ == spec_blake3(bytecode@) && c@ == s[i]
                    &&& final(self).ledger() == old(self).ledger().push(EntryView {
                            index: old(self).ledger().len() as u64,
                            certificate: c@,
                            operation: "cache_hit"@,
                        })
                    &&& final(self).counters() == (CacheStats { cache_hits: (old(self).counters().cache_hits + 1) as u64, ..old(self).counters() })
                },
                None => {
                    let s = old(self).entries();
                    &&& forall|i: int| 0 <= i < s.len() ==> s[i].bytecode_hash.0@ != spec_blake3(bytecode@)
                    &&& final(self).ledger() == old(self).ledger()
                    &&& final(self).counters() == (CacheStats { cache_misses: (old(self).counters().cache_misses + 1) as u64, ..old(self).counters() })
                },
            },
    {
        let hash = Blake3Digest::from_bytecode(bytecode);
        match self.find(&hash) {
            Some(i) => {
                let logged = self.certificates[i].clone();
                let result = self.certificates[i].clone();
                assert(sealed(self.entries()[i as int]));
                self.append_entry(logged, "cache_hit");
                self.stats.cache_hits = self.stats.cache_hits + 1;
                Some(result)
            },
            None => {
                self.stats.cache_misses = self.stats.cache_misses + 1;
                proof {
                    assert forall|i: int| 0 <= i < self.entries().len()
                        implies self.entries()[i].bytecode_hash.0@ != spec_blake3(bytecode@) by {
                        if self.entries()[i].bytecode_hash.0@ == spec_blake3(bytecode@) {
                            assert(self.entries()[i].bytecode_hash.0 =~= hash.0);
                        }
                    }
                    assert(self.entries() == old(self).entries());
                    assert(self.ledger() == old(self).ledger());
                }
                None
            },
        }
    }
}

} // verus!

verus! {

impl ProofCache {
    /// Drops the certificate for `bytecode` from the cache and records the
    /// invalidation in the ledger; the ledger keeps every earlier entry.
    pub fn invalidate_proof(&mut self, bytecode: &[u8]) -> (r: Result<(), IoError>)
        requires
            old(self).wf(),
        ensures
            final(self).wf(),
            final(self).counters() == old(self).counters(),
            final(self).capacity() == old(self).capacity(),
            ({
                let s = old(self).entries();
                match r {
                    Ok(()) => exists|i: int| 0 <= i < s.len() && s[i].bytecode_hash.0@ == spec_blake3(bytecode@)
                        && final(self).entries() == s.remove(i)
                        && final(self).ledger() == old(self).ledger().push(EntryView {
                            index: old(self).ledger().len() as u64,
                            certificate: s[i],
                            operation: "invalidate"@,
                        }),
                    Err(e) => (forall|i: int| 0 <= i < s.len() ==> s[i].bytecode_hash.0@ != spec_blake3(bytecode@))
                        && e.kind == IoErrorKind::NotFound && e.message@ == "Proof not in cache"@
                        && final(self).entries() == s && final(self).ledger() == old(self).ledger(),
                }
            }),
    {
        let hash = Blake3Digest::from_bytecode(bytecode);
        match self.find(&hash) {
            Some(i) => {
                let ghost s = self.entries();
                let cert = self.certificates.remove(i);
                proof {
                    assert(self.entries() =~= s.remove(i as int));
                    assert(sealed(s[i as int]));
                    assert forall|a: int, b: int| 0 <= a < b < self.entries().len()
                        implies self.entries()[a].bytecode_hash != self.entries()[b].bytecode_hash by {
                        let a2 = if a < i { a } else { a + 1 };
                        let b2 = if b < i { b } else { b + 1 };
                        assert(self.entries()[a] == s[a2]);
                        assert(self.entries()[b] == s[b2]);
                    }
                    assert forall|a: int| 0 <= a < self.entries().len() implies sealed(#[trigger] self.entries()[a]) by {
                        let a2 = if a < i { a } else { a + 1 };
                        assert(self.entries()[a] == s[a2]);
                    }
                    assert(self.ledger() == old(self).ledger());
                }
                self.append_entry(cert, "invalidate");
                Ok(())
            },
            None => {
                proof {
                    assert forall|i: int| 0 <= i < self.entries().len()
                        implies self.entries()[i].bytecode_hash.0@ != spec_blake3(bytecode@) by {
                        if self.entries()[i].bytecode_hash.0@ == spec_blake3(bytecode@) {
                            assert(self.entries()[i].bytecode_hash.0 =~= hash.0);
                        }
                    }
                }
                Err(IoError::new(IoErrorKind::NotFound, "Proof not in cache"))
            },
        }
    }

    /// The counters.
    pub fn stats(&self) -> (s: &CacheStats)
        ensures
            *s == self.counters(),
    {
        &self.stats
    }

    /// The total size of the cached proofs.
    pub fn cache_bytes(&self) -> (n: usize)
        requires
            total_bytes(self.entries()) <= usize::MAX,
        ensures
            n == total_bytes(self.entries()),
    {
        let mut total: usize = 0;
        let mut i: usize = 0;
        while i < self.certificates.len()
            invariant
                i <= self.certificates@.len(),
                total == total_bytes(self.entries().take(i as int)),
                total_bytes(self.entries()) <= usize::MAX,
            decreases self.certificates@.len() - i,
        {
            proof {
                assert(self.entries().take(i + 1).drop_last() =~= self.entries().take(i as int));
                lemma_total_bytes_prefix(self.entries(), i + 1);
            }
            total = total + self.certificates[i].proof_data.len();
            i = i + 1;
        }
        assert(self.entries().take(i as int) =~= self.entries());
        total
    }

    /// The number of cached certificates.
    pub fn certificate_count(&self) -> (n: usize)
        ensures
            n == self.entries().len(),
    {
        self.certificates.len()
    }

    /// The number of ledger entries.
    pub fn ledger_entries(&self) -> (n: usize)
        ensures
            n == self.ledger().len(),
    {
        self.worm_ledger.len()
    }

    /// The ledger entries, oldest first.
    pub fn worm_entries(&self) -> (l: &[WormEntry])
        ensures
            entry_views(l@) == self.ledger(),
    {
        self.worm_ledger.as_slice()
    }
}

/// The proofs of a prefix weigh no more than the whole.
pub proof fn lemma_total_bytes_prefix(s: Seq<CertView>, n: int)
    requires
        0 <= n <= s.len(),
    ensures
        total_bytes(s.take(n)) <= total_bytes(s),
    decreases s.len(),
{
    if n < s.len() {
        assert(s.drop_last().take(n) =~= s.take(n));
        lemma_total_bytes_prefix(s.drop_last(), n);
    } else {
        assert(s.take(n) =~= s);
    }
}

impl Default for ProofCache {
    fn default() -> (c: Self)
        ensures
            c.wf(),
            c.entries() == Seq::<CertView>::empty(),
            c.ledger() == Seq::<EntryView>::empty(),
            c.capacity() == 1024,
    {
        Self::new(1024)
    }
}

} // verus!

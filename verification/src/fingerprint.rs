//! Fingerprints of generated assets: a short prefix, an XXH64-derived hash,
//! and the exact size. A fingerprint can be searched for inside a larger
//! byte region, which is how embedded-asset presence in a compiled binary is
//! checked.

use vstd::prelude::*;

verus! {

/// The 64-bit XXH64 digest of a byte sequence under a seed.
pub uninterp spec fn xxh64_of(seed: u64, bytes: Seq<u8>) -> u64;

/// Relies on `twox_hash::XxHash64::oneshot`: the XXH64 digest is a function
/// of the seed and the hashed bytes alone, on every machine.
#[verifier::external_body]
pub(crate) fn xxh64(seed: u64, bytes: &[u8]) -> (r: u64)
    ensures
        r == xxh64_of(seed, bytes@),
{
    twox_hash::XxHash64::oneshot(seed, bytes)
}

/// The upper half of the zero-seeded XXH64 digest, the 32-bit hash that
/// fingerprints are built from.
pub open spec fn xxh32_of(bytes: Seq<u8>) -> u32 {
    (xxh64_of(0, bytes) >> 32) as u32
}

/// The low 32 bits of a digest's upper half: the last four little-endian
/// bytes of the 64-bit value, read back as a little-endian 32-bit value.
pub fn u32_from_last_half_u64(uint: u64) -> (r: u32)
    ensures
        r == (uint >> 32) as u32,
{
    (uint >> 32) as u32
}

/// The 32-bit hash of a byte region, as used in asset fingerprints.
pub fn xxhash(bytes: &[u8]) -> (r: u32)
    ensures
        r == xxh32_of(bytes@),
{
    let uint = xxh64(0, bytes);
    u32_from_last_half_u64(uint)
}

/// The mathematical content of an [`AssetFingerprint`].
pub struct FingerprintView {
    pub prefix: Seq<u8>,
    pub hash: u32,
    pub size: nat,
}

/// A fingerprint of one generated asset.
#[derive(Clone, Debug, PartialEq, Eq)]
pub struct AssetFingerprint {
    prefix: Vec<u8>,
    hash: u32,
    size: usize,
}

impl View for AssetFingerprint {
    type V = FingerprintView;

    closed spec fn view(&self) -> FingerprintView {
        FingerprintView { prefix: self.prefix@, hash: self.hash, size: self.size as nat }
    }
}

/// The fingerprint's prefix occurs at `start` in `bytes`.
pub open spec fn prefix_match_at(fp: FingerprintView, bytes: Seq<u8>, start: int) -> bool {
    bytes.subrange(start, start + fp.prefix.len()) == fp.prefix
}

/// The prefix occurs at `start` and the full asset both fits and hashes to
/// the fingerprint's hash there.
pub open spec fn asset_at(fp: FingerprintView, bytes: Seq<u8>, start: int) -> bool {
    &&& prefix_match_at(fp, bytes, start)
    &&& start + fp.size <= bytes.len()
    &&& xxh32_of(bytes.subrange(start, start + fp.size)) == fp.hash
}

/// The prefix occurs at `start` but fewer than `size` bytes remain: the scan
/// gives up at such a position.
pub open spec fn truncated_match_at(fp: FingerprintView, bytes: Seq<u8>, start: int) -> bool {
    prefix_match_at(fp, bytes, start) && start + fp.size > bytes.len()
}

/// What the fingerprint scan finds: a position where the whole asset
/// matches, scanning left to right, not preceded by a position where the
/// prefix matches but the remaining bytes are too short (the scan stops
/// there), and short of the last `prefix.len()` positions (the scan never
/// reaches them).
pub open spec fn found_within_spec(fp: FingerprintView, bytes: Seq<u8>) -> bool {
    exists|start: int|
        {
            &&& 0 <= start < bytes.len() - fp.prefix.len()
            &&& #[trigger] asset_at(fp, bytes, start)
            &&& forall|earlier: int| 0 <= earlier < start ==> !truncated_match_at(fp, bytes, earlier)
        }
}

/// Compares two byte regions for equality.
fn bytes_eq(a: &[u8], b: &[u8]) -> (r: bool)
    ensures
        r == (a@ == b@),
{
    if a.len() != b.len() {
        proof {
            assert(a@.len() != b@.len());
        }
        return false;
    }
    let n = a.len();
    let mut i: usize = 0;
    while i < n
        invariant
            n == a@.len(),
            n == b@.len(),
            i <= n,
            forall|j: int| 0 <= j < i ==> a@[j] == b@[j],
        decreases n - i,
    {
        if a[i] != b[i] {
            return false;
        }
        i += 1;
    }
    proof {
        assert(a@ =~= b@);
    }
    true
}

impl AssetFingerprint {
    /// Fingerprints an asset: its size, its 32-bit hash, and its first
    /// `prefix_len` bytes (or all of them, when the asset is shorter).
    pub fn new(prefix_len: usize, bytes: &[u8]) -> (r: AssetFingerprint)
        ensures
            r@.size == bytes@.len(),
            r@.hash == xxh32_of(bytes@),
            r@.prefix == bytes@.take(if prefix_len <= bytes@.len() {
                prefix_len as int
            } else {
                bytes@.len() as int
            }),
    {
        let size = bytes.len();
        let hash = xxhash(bytes);
        let cut = if prefix_len < size {
            prefix_len
        } else {
            size
        };
        let prefix_slice = vstd::slice::slice_subrange(bytes, 0, cut);
        let mut prefix: Vec<u8> = Vec::new();
        let mut i: usize = 0;
        while i < cut
            invariant
                cut <= bytes@.len(),
                prefix_slice@ == bytes@.subrange(0, cut as int),
                i <= cut,
                prefix_slice@.len() == cut,
                prefix@ == bytes@.subrange(0, i as int),
            decreases cut - i,
        {
            prefix.push(prefix_slice[i]);
            proof {
                assert(prefix@ =~= bytes@.subrange(0, i + 1));
            }
            i += 1;
        }
        let r = AssetFingerprint { prefix, hash, size };
        proof {
            assert(r@.prefix =~= bytes@.take(if prefix_len <= bytes@.len() {
                prefix_len as int
            } else {
                bytes@.len() as int
            }));
        }
        r
    }

    /// The stored prefix of the fingerprinted asset.
    pub fn prefix(&self) -> (r: &Vec<u8>)
        ensures
            r@ == self@.prefix,
    {
        &self.prefix
    }

    /// The 32-bit hash of the fingerprinted asset.
    pub fn hash(&self) -> (r: u32)
        ensures
            r == self@.hash,
    {
        self.hash
    }

    /// The exact size of the fingerprinted asset.
    pub fn size(&self) -> (r: usize)
        ensures
            r == self@.size,
    {
        self.size
    }

    /// Scans a byte region for this fingerprint's asset: a position where
    /// the prefix occurs and the following `size` bytes hash to the
    /// fingerprint's hash. The scan stops early at a prefix occurrence with
    /// too few bytes left after it.
    pub fn is_found_within(&self, bytes: &[u8]) -> (r: bool)
        ensures
            r == found_within_spec(self@, bytes@),
    {
        let prefix_len = self.prefix.len();
        let len = bytes.len();
        if len < prefix_len {
            proof {
                assert forall|start: int|
                    0 <= start < bytes@.len() - self@.prefix.len() implies !asset_at(
                    self@,
                    bytes@,
                    start,
                ) by {}
            }
            return false;
        }
        let upper_bound = len - prefix_len;
        let mut start_idx: usize = 0;
        while start_idx < upper_bound
            invariant
                prefix_len == self@.prefix.len(),
                len == bytes@.len(),
                prefix_len <= len,
                upper_bound == len - prefix_len,
                start_idx <= upper_bound,
                forall|s: int| 0 <= s < start_idx ==> !asset_at(self@, bytes@, s),
                forall|s: int| 0 <= s < start_idx ==> !truncated_match_at(self@, bytes@, s),
            decreases upper_bound - start_idx,
        {
            let maybe_prefix = vstd::slice::slice_subrange(bytes, start_idx, start_idx + prefix_len);
            if bytes_eq(self.prefix.as_slice(), maybe_prefix) {
                proof {
                    assert(prefix_match_at(self@, bytes@, start_idx as int));
                }
                if self.size > len - start_idx {
                    proof {
                        assert(truncated_match_at(self@, bytes@, start_idx as int));
                        assert forall|start: int|
                            {
                                &&& 0 <= start < bytes@.len() - self@.prefix.len()
                                &&& #[trigger] asset_at(self@, bytes@, start)
                            } implies !(forall|earlier: int|
                            0 <= earlier < start ==> !truncated_match_at(
                                self@,
                                bytes@,
                                earlier,
                            )) by {
                            if start < start_idx {
                                assert(!asset_at(self@, bytes@, start));
                            } else {
                                assert(0 <= (start_idx as int) < start || start == start_idx);
                                if start == start_idx {
                                    assert(!asset_at(self@, bytes@, start));
                                } else {
                                    assert(truncated_match_at(self@, bytes@, start_idx as int));
                                }
                            }
                        }
                    }
                    return false;
                }
                let maybe_asset = vstd::slice::slice_subrange(bytes, start_idx, start_idx + self.size);
                let maybe_hash = xxhash(maybe_asset);
                if self.hash == maybe_hash {
                    proof {
                        assert(asset_at(self@, bytes@, start_idx as int));
                    }
                    return true;
                }
                proof {
                    assert(!asset_at(self@, bytes@, start_idx as int));
                }
            } else {
                proof {
                    assert(!prefix_match_at(self@, bytes@, start_idx as int));
                    assert(!asset_at(self@, bytes@, start_idx as int));
                    assert(!truncated_match_at(self@, bytes@, start_idx as int));
                }
            }
            start_idx += 1;
        }
        proof {
            assert forall|start: int|
                {
                    &&& 0 <= start < bytes@.len() - self@.prefix.len()
                    &&& #[trigger] asset_at(self@, bytes@, start)
                } implies false by {
                assert(!asset_at(self@, bytes@, start));
            }
        }
        false
    }
}

} // verus!

//! The pure decisions of the asset-generation pipeline: which files are
//! staged, deterministic path ordering, the exemption check for
//! license-like files, and the names of the generated syntax assets.

use crate::fingerprint::{xxh64, xxh64_of};
use crate::text::{eq_ignore_ascii_case, seq_eq_ignore_ascii_case, str_eq};
use vstd::multiset::Multiset;
use vstd::prelude::*;
use vstd::relations::{sorted_by, total_ordering};
use vstd::seq_lib::lemma_sorted_unique;

verus! {

/// Whether compiled syntax definitions treat the trailing newline of a line
/// as part of the text that patterns can match.
#[derive(Clone, Copy, PartialEq, Eq, Structural)]
pub enum IncludeNewlines {
    Yes,
    No,
}

/// The regex engine that the highlighting engine was compiled against.
/// Syntax assets are generated once per engine, since the engines accept
/// different pattern sets.
#[derive(Clone, Copy, Debug, PartialEq, Eq, Structural)]
pub enum RegexImpl {
    Onig,
    Fancy,
}

/// The file name of the newline-inclusive syntax asset for each engine.
pub open spec fn newlines_asset_name_spec(r: RegexImpl) -> Seq<char> {
    match r {
        RegexImpl::Onig => "syntaxes-onig-newlines.bin"@,
        RegexImpl::Fancy => "syntaxes-fancy-newlines.bin"@,
    }
}

/// The file name of the newline-exclusive syntax asset for each engine.
pub open spec fn no_newlines_asset_name_spec(r: RegexImpl) -> Seq<char> {
    match r {
        RegexImpl::Onig => "syntaxes-onig-no-newlines.bin"@,
        RegexImpl::Fancy => "syntaxes-fancy-no-newlines.bin"@,
    }
}

impl RegexImpl {
    /// The asset file that newline-inclusive syntaxes are written to.
    pub fn newlines_asset_name(self) -> (r: &'static str)
        ensures
            r@ == newlines_asset_name_spec(self),
    {
        match self {
            RegexImpl::Fancy => "syntaxes-fancy-newlines.bin",
            RegexImpl::Onig => "syntaxes-onig-newlines.bin",
        }
    }

    /// The asset file that newline-exclusive syntaxes are written to.
    pub fn no_newlines_asset_name(self) -> (r: &'static str)
        ensures
            r@ == no_newlines_asset_name_spec(self),
    {
        match self {
            RegexImpl::Fancy => "syntaxes-fancy-no-newlines.bin",
            RegexImpl::Onig => "syntaxes-onig-no-newlines.bin",
        }
    }
}

/// The extensions (compared without regard to ASCII case) of the files that
/// the staging step copies into the scratch workspace.
pub open spec fn relevant_ext_spec(ext: Seq<char>) -> bool {
    ||| seq_eq_ignore_ascii_case(ext, "patch"@)
    ||| seq_eq_ignore_ascii_case(ext, "sublime-syntax"@)
    ||| seq_eq_ignore_ascii_case(ext, "tmtheme"@)
}

/// The file-name stems (compared without regard to ASCII case) that mark a
/// file as license-like.
pub open spec fn license_stem_spec(stem: Seq<char>) -> bool {
    ||| seq_eq_ignore_ascii_case(stem, "copying"@)
    ||| seq_eq_ignore_ascii_case(stem, "notice"@)
    ||| seq_eq_ignore_ascii_case(stem, "license"@)
}

/// Whether an extension is on the staging allow-list.
pub fn is_relevant_ext(ext: &str) -> (r: bool)
    ensures
        r == relevant_ext_spec(ext@),
{
    eq_ignore_ascii_case(ext, "patch") || eq_ignore_ascii_case(ext, "sublime-syntax")
        || eq_ignore_ascii_case(ext, "tmtheme")
}

/// Whether a file-name stem follows the license/notice naming convention.
pub fn is_license_stem(stem: &str) -> (r: bool)
    ensures
        r == license_stem_spec(stem@),
{
    eq_ignore_ascii_case(stem, "copying") || eq_ignore_ascii_case(stem, "notice")
        || eq_ignore_ascii_case(stem, "license")
}

/// The view of an optional path component.
pub open spec fn opt_str_view(s: Option<&str>) -> Option<Seq<char>> {
    match s {
        Some(inner) => Some(inner@),
        None => None,
    }
}

/// The staging rule on a file's name: staged when its extension is on the
/// allow-list or its stem follows the license naming convention; a file
/// without the relevant component fails that half of the rule.
pub open spec fn should_stage_spec(stem: Option<Seq<char>>, ext: Option<Seq<char>>) -> bool {
    (match ext {
        Some(e) => relevant_ext_spec(e),
        None => false,
    }) || (match stem {
        Some(s) => license_stem_spec(s),
        None => false,
    })
}

/// Decides whether the staging step copies a file, from its file-name stem
/// and extension.
pub fn should_stage(stem: Option<&str>, ext: Option<&str>) -> (r: bool)
    ensures
        r == should_stage_spec(opt_str_view(stem), opt_str_view(ext)),
{
    let ext_wanted = match ext {
        Some(e) => is_relevant_ext(e),
        None => false,
    };
    let stem_wanted = match stem {
        Some(s) => is_license_stem(s),
        None => false,
    };
    ext_wanted || stem_wanted
}

/// Byte-wise lexicographic order: the order file paths are walked in, so
/// that generated assets are byte-stable across runs.
pub open spec fn bytes_le(a: Seq<u8>, b: Seq<u8>) -> bool
    decreases a.len(),
{
    if a.len() == 0 {
        true
    } else if b.len() == 0 {
        false
    } else if a[0] < b[0] {
        true
    } else if a[0] > b[0] {
        false
    } else {
        bytes_le(a.drop_first(), b.drop_first())
    }
}

/// [`bytes_le`] as a binary relation value.
pub open spec fn bytes_le_rel() -> spec_fn(Seq<u8>, Seq<u8>) -> bool {
    |a: Seq<u8>, b: Seq<u8>| bytes_le(a, b)
}

proof fn lemma_bytes_le_refl(a: Seq<u8>)
    ensures
        bytes_le(a, a),
    decreases a.len(),
{
    if a.len() > 0 {
        lemma_bytes_le_refl(a.drop_first());
    }
}

proof fn lemma_bytes_le_antisym(a: Seq<u8>, b: Seq<u8>)
    requires
        bytes_le(a, b),
        bytes_le(b, a),
    ensures
        a == b,
    decreases a.len(),
{
    if a.len() == 0 {
        assert(b.len() == 0);
        assert(a =~= b);
    } else {
        assert(b.len() > 0);
        assert(a[0] == b[0]);
        let at = a.drop_first();
        let bt = b.drop_first();
        lemma_bytes_le_antisym(at, bt);
        assert(a.len() == b.len());
        assert forall|i: int| 0 <= i < a.len() implies a[i] == b[i] by {
            if i > 0 {
                assert(a[i] == at[i - 1]);
                assert(b[i] == bt[i - 1]);
            }
        }
        assert(a =~= b);
    }
}

proof fn lemma_bytes_le_trans(a: Seq<u8>, b: Seq<u8>, c: Seq<u8>)
    requires
        bytes_le(a, b),
        bytes_le(b, c),
    ensures
        bytes_le(a, c),
    decreases a.len(),
{
    if a.len() > 0 && b.len() > 0 && c.len() > 0 {
        if a[0] == b[0] && b[0] == c[0] {
            lemma_bytes_le_trans(a.drop_first(), b.drop_first(), c.drop_first());
        }
    }
}

proof fn lemma_bytes_le_connected(a: Seq<u8>, b: Seq<u8>)
    ensures
        bytes_le(a, b) || bytes_le(b, a),
    decreases a.len(),
{
    if a.len() > 0 && b.len() > 0 && a[0] == b[0] {
        lemma_bytes_le_connected(a.drop_first(), b.drop_first());
    }
}

/// Byte-wise lexicographic order is a total ordering on byte sequences.
pub proof fn lemma_bytes_le_total_ordering()
    ensures
        total_ordering(bytes_le_rel()),
{
    let leq = bytes_le_rel();
    assert forall|a: Seq<u8>| #[trigger] leq(a, a) by {
        lemma_bytes_le_refl(a);
    }
    assert forall|a: Seq<u8>, b: Seq<u8>| #[trigger] leq(a, b) && #[trigger] leq(b, a) implies a
        == b by {
        lemma_bytes_le_antisym(a, b);
    }
    assert forall|a: Seq<u8>, b: Seq<u8>, c: Seq<u8>|
        #[trigger] leq(a, b) && #[trigger] leq(b, c) implies leq(a, c) by {
        lemma_bytes_le_trans(a, b, c);
    }
    assert forall|a: Seq<u8>, b: Seq<u8>| !(#[trigger] leq(a, b)) implies leq(b, a) by {
        lemma_bytes_le_connected(a, b);
    }
}

/// The mathematical paths of a path vector.
pub open spec fn paths_view(s: Seq<Vec<u8>>) -> Seq<Seq<u8>> {
    s.map_values(|p: Vec<u8>| p@)
}

/// Compares two paths in byte-wise lexicographic order.
fn bytes_le_exec(a: &Vec<u8>, b: &Vec<u8>) -> (r: bool)
    ensures
        r == bytes_le(a@, b@),
{
    let a_len = a.len();
    let b_len = b.len();
    let mut i: usize = 0;
    proof {
        assert(a@.skip(0) =~= a@);
        assert(b@.skip(0) =~= b@);
    }
    loop
        invariant
            a_len == a@.len(),
            b_len == b@.len(),
            i <= a_len,
            i <= b_len,
            bytes_le(a@, b@) == bytes_le(a@.skip(i as int), b@.skip(i as int)),
            bytes_le(b@, a@) == bytes_le(b@.skip(i as int), a@.skip(i as int)),
        decreases a_len - i,
    {
        if i == a_len {
            proof {
                assert(a@.skip(i as int).len() == 0);
            }
            return true;
        }
        if i == b_len {
            proof {
                assert(b@.skip(i as int).len() == 0);
                assert(a@.skip(i as int).len() > 0);
            }
            return false;
        }
        let ca = a[i];
        let cb = b[i];
        proof {
            assert(a@.skip(i as int)[0] == a@[i as int]);
            assert(b@.skip(i as int)[0] == b@[i as int]);
        }
        if ca < cb {
            return true;
        }
        if ca > cb {
            return false;
        }
        proof {
            assert(a@.skip(i as int).drop_first() =~= a@.skip(i + 1));
            assert(b@.skip(i as int).drop_first() =~= b@.skip(i + 1));
        }
        i += 1;
    }
}

/// Sorts a listing of paths into byte-wise lexicographic order. The result
/// is exactly the mathematical sort of the input: the walk order of the
/// pipeline is a function of the set of paths alone.
pub fn sort_paths(paths: Vec<Vec<u8>>) -> (r: Vec<Vec<u8>>)
    ensures
        sorted_by(paths_view(r@), bytes_le_rel()),
        paths_view(r@).to_multiset() == paths_view(paths@).to_multiset(),
        paths_view(r@) == paths_view(paths@).sort_by(bytes_le_rel()),
{
    broadcast use vstd::seq_lib::group_to_multiset_ensures;

    proof {
        lemma_bytes_le_total_ordering();
    }
    let mut rest = paths;
    let mut out: Vec<Vec<u8>> = Vec::new();
    let ghost input = paths_view(rest@);
    while rest.len() > 0
        invariant
            paths_view(out@).to_multiset().add(paths_view(rest@).to_multiset())
                == input.to_multiset(),
            sorted_by(paths_view(out@), bytes_le_rel()),
            forall|i: int, j: int|
                0 <= i < out@.len() && 0 <= j < rest@.len() ==> bytes_le(
                    #[trigger] paths_view(out@)[i],
                    #[trigger] paths_view(rest@)[j],
                ),
        decreases rest@.len(),
    {
        // Find the least remaining path.
        let mut m: usize = 0;
        let mut k: usize = 1;
        proof {
            lemma_bytes_le_refl(rest@[0]@);
        }
        while k < rest.len()
            invariant
                rest@.len() > 0,
                m < rest@.len(),
                k <= rest@.len(),
                forall|j: int| 0 <= j < k ==> bytes_le(rest@[m as int]@, #[trigger] rest@[j]@),
            decreases rest@.len() - k,
        {
            if !bytes_le_exec(&rest[m], &rest[k]) {
                proof {
                    lemma_bytes_le_connected(rest@[m as int]@, rest@[k as int]@);
                    assert forall|j: int| 0 <= j < k + 1 implies bytes_le(
                        rest@[k as int]@,
                        #[trigger] rest@[j]@,
                    ) by {
                        if j < k {
                            lemma_bytes_le_trans(rest@[k as int]@, rest@[m as int]@, rest@[j]@);
                        } else {
                            lemma_bytes_le_refl(rest@[k as int]@);
                        }
                    }
                }
                m = k;
            }
            k += 1;
        }
        let ghost old_out = out@;
        let ghost old_rest = rest@;
        let least = rest.remove(m);
        out.push(least);
        proof {
            broadcast use vstd::seq_lib::group_to_multiset_ensures;

            let gm = m as int;
            assert(paths_view(old_rest)[gm] == old_rest[gm]@);
            assert(paths_view(old_rest).remove(gm) =~= paths_view(rest@));
            assert(paths_view(out@) =~= paths_view(old_out).push(least@));
            // Multiset bookkeeping for moving one element across.
            assert(paths_view(old_out).push(least@).to_multiset() =~= paths_view(
                old_out,
            ).to_multiset().insert(least@));
            assert(paths_view(out@).to_multiset() =~= paths_view(old_out).to_multiset().insert(
                least@,
            ));
            assert(paths_view(old_rest).remove(gm).to_multiset() =~= paths_view(
                old_rest,
            ).to_multiset().remove(paths_view(old_rest)[gm]));
            assert(paths_view(rest@).to_multiset() =~= paths_view(old_rest).to_multiset().remove(
                least@,
            ));
            assert(paths_view(old_rest).to_multiset().contains(least@));
            assert(paths_view(out@).to_multiset().add(paths_view(rest@).to_multiset())
                =~= paths_view(old_out).to_multiset().add(paths_view(old_rest).to_multiset()));
            // The new element keeps the output sorted and below the rest.
            assert forall|i: int, j: int|
                0 <= i < out@.len() && 0 <= j < rest@.len() implies bytes_le(
                #[trigger] paths_view(out@)[i],
                #[trigger] paths_view(rest@)[j],
            ) by {
                let rj = if j < gm {
                    j
                } else {
                    j + 1
                };
                assert(paths_view(rest@)[j] == paths_view(old_rest)[rj]);
                if i < out@.len() - 1 {
                    assert(paths_view(out@)[i] == paths_view(old_out)[i]);
                } else {
                    assert(paths_view(out@)[i] == least@);
                    assert(bytes_le(old_rest[gm]@, old_rest[rj]@));
                }
            }
            assert forall|i: int, j: int| 0 <= i < j < out@.len() implies bytes_le_rel()(
                paths_view(out@)[i],
                paths_view(out@)[j],
            ) by {
                if j < out@.len() - 1 {
                    assert(bytes_le_rel()(paths_view(old_out)[i], paths_view(old_out)[j]));
                } else {
                    assert(paths_view(out@)[j] == least@);
                    assert(bytes_le(paths_view(old_out)[i], paths_view(old_rest)[gm]));
                }
            }
        }
    }
    proof {
        assert(paths_view(rest@).to_multiset() =~= Multiset::empty());
        assert(paths_view(out@).to_multiset() =~= input.to_multiset());
        input.lemma_sort_by_ensures(bytes_le_rel());
        lemma_sorted_unique(paths_view(out@), input.sort_by(bytes_le_rel()), bytes_le_rel());
    }
    out
}

/// Two path listings that are each sorted and hold the same paths are
/// identical: repeated walks over an unchanged corpus stage, compile, and
/// record files in the same order, which keeps regenerated assets
/// byte-stable.
pub proof fn lemma_sorted_paths_unique(x: Seq<Seq<u8>>, y: Seq<Seq<u8>>)
    requires
        sorted_by(x, bytes_le_rel()),
        sorted_by(y, bytes_le_rel()),
        x.to_multiset() == y.to_multiset(),
    ensures
        x == y,
{
    lemma_bytes_le_total_ordering();
    lemma_sorted_unique(x, y, bytes_le_rel());
}

/// The file, named by its path relative to the asset corpus root, whose
/// contents look license-like but are known not to be a license, together
/// with the digest its contents are expected to have.
pub open spec fn exemption_spec(rel_path: Seq<char>) -> Option<u64> {
    if rel_path == "syntaxes/02_Extra/Idris2/NOTICE"@ {
        Some(0x432a39028e111f67u64)
    } else {
        None
    }
}

/// The seed that exemption digests are computed under.
pub const EXEMPTION_HASH_SEED: u64 = 0xc0ffee;

/// Looks a relative path up in the exemption list.
pub fn exemption_expected_hash(rel_path: &str) -> (r: Option<u64>)
    ensures
        r == exemption_spec(rel_path@),
{
    // Idris2's NOTICE file states their license policy in layman's terms in
    // addition to their LICENSE file, so it is skipped rather than
    // classified.
    if str_eq(rel_path, "syntaxes/02_Extra/Idris2/NOTICE") {
        Some(0x432a39028e111f67)
    } else {
        None
    }
}

/// How the license walk treats one license-like file.
#[derive(Clone, Copy, Debug, PartialEq, Eq, Structural)]
pub enum ExemptionCheck {
    /// Not on the exemption list: classify the file.
    NotExempt,
    /// On the list with its contents unchanged: skip the file.
    Exempt,
    /// On the list but with different contents: the exemption no longer
    /// holds and generation must abort so the change is looked at.
    HashMismatch,
}

/// Decides whether a license-like file is exempt from classification: a
/// file on the exemption list is skipped only while its contents still hash
/// to the recorded digest, so silent upstream changes are caught.
pub fn check_exemption(rel_path: &str, contents: &[u8]) -> (r: ExemptionCheck)
    ensures
        r == (match exemption_spec(rel_path@) {
            None => ExemptionCheck::NotExempt,
            Some(expected) => {
                if xxh64_of(EXEMPTION_HASH_SEED, contents@) == expected {
                    ExemptionCheck::Exempt
                } else {
                    ExemptionCheck::HashMismatch
                }
            },
        }),
{
    match exemption_expected_hash(rel_path) {
        None => ExemptionCheck::NotExempt,
        Some(expected) => {
            let hash = xxh64(EXEMPTION_HASH_SEED, contents);
            if hash == expected {
                ExemptionCheck::Exempt
            } else {
                ExemptionCheck::HashMismatch
            }
        },
    }
}

} // verus!

//! The dry run: where each file would go, and how much would be written.

use vstd::prelude::*;
use crate::config::{ConvertType, FormatConfig};
use crate::file_structure::AudioFile;
use crate::paths::{set_extension, with_extension};

verus! {

/// Bytes in a binary megabyte.
pub const MEGABYTE: u64 = 1048576;

/// Whole binary megabytes in `bytes`, rounded down.
pub open spec fn whole_mb(bytes: u64) -> int {
    bytes as int / MEGABYTE as int
}

/// The sum of the whole megabytes of each size.
pub open spec fn total_mb(sizes: Seq<u64>) -> int
    decreases sizes.len(),
{
    if sizes.len() == 0 {
        0
    } else {
        total_mb(sizes.drop_last()) + whole_mb(sizes.last())
    }
}

/// The size a preview reports: the files' total when nothing is
/// transcoded, and 0 otherwise, sizes before transcoding saying nothing of
/// those after.
pub open spec fn reported_mb(policy: ConvertType, sizes: Seq<u64>) -> int {
    if policy == ConvertType::Never {
        total_mb(sizes)
    } else {
        0
    }
}

proof fn lemma_total_prefix(s: Seq<u64>, i: int)
    requires
        0 <= i <= s.len(),
    ensures
        0 <= total_mb(s.subrange(0, i)) <= total_mb(s),
    decreases s.len(),
{
    if s.len() > 0 {
        if i == s.len() {
            assert(s.subrange(0, i) == s);
            lemma_total_prefix(s.drop_last(), i - 1);
            assert(s.drop_last().subrange(0, i - 1) == s.drop_last());
        } else {
            lemma_total_prefix(s.drop_last(), i);
            assert(s.drop_last().subrange(0, i) == s.subrange(0, i));
        }
    }
}

/// What a preview shows.
#[derive(Clone, Debug)]
pub struct PreviewReport {
    /// Each file's source and the destination it would take.
    pub entries: Vec<(String, String)>,
    /// How many files would be transferred.
    pub count: usize,
    /// Their total size in whole megabytes, where it is known.
    pub size_mb: u64,
}

/// Lists where each file would go under the profile's extension, and sums
/// the sizes (`sizes[i]` in bytes for `files[i]`) where nothing is
/// transcoded.
pub fn preview(
    files: &Vec<AudioFile>,
    policy: ConvertType,
    profile: &FormatConfig,
    sizes: &Vec<u64>,
) -> (r: PreviewReport)
    requires
        sizes@.len() == files@.len(),
        reported_mb(policy, sizes@) <= u64::MAX,
    ensures
        r.count == files@.len(),
        r.entries@.len() == files@.len(),
        forall|i: int|
            0 <= i < files@.len() ==> {
                &&& (#[trigger] r.entries@[i]).0@ == files@[i].orig_path@
                &&& r.entries@[i].1@ == with_extension(files@[i].new_path@, profile.extension@)
            },
        r.size_mb == reported_mb(policy, sizes@),
{
    let mut entries: Vec<(String, String)> = Vec::new();
    let mut size: u64 = 0;
    let mut count: usize = 0;
    let sum = policy == ConvertType::Never;
    assert(sizes@.subrange(0, 0) == Seq::<u64>::empty());
    while count < files.len()
        invariant
            count <= files@.len(),
            sizes@.len() == files@.len(),
            sum == (policy == ConvertType::Never),
            reported_mb(policy, sizes@) <= u64::MAX,
            entries@.len() == count,
            forall|i: int|
                0 <= i < count ==> {
                    &&& (#[trigger] entries@[i]).0@ == files@[i].orig_path@
                    &&& entries@[i].1@ == with_extension(files@[i].new_path@, profile.extension@)
                },
            sum ==> size == total_mb(sizes@.subrange(0, count as int)),
            !sum ==> size == 0,
        decreases files@.len() - count,
    {
        let f = &files[count];
        let dest = set_extension(f.new_path.as_str(), profile.extension.as_str());
        entries.push((f.orig_path.clone(), dest));
        if sum {
            proof {
                lemma_total_prefix(sizes@, count + 1);
                assert(sizes@.subrange(0, count + 1).drop_last() == sizes@.subrange(0, count as int));
            }
            size = size + sizes[count] / MEGABYTE;
        }
        count += 1;
    }
    assert(sizes@.subrange(0, count as int) == sizes@);
    PreviewReport { entries, count, size_mb: size }
}

} // verus!

//! The batch: which scanned files enter it, the work planned for each, and
//! the summary of what the work gave.

use vstd::prelude::*;
use crate::config::{Config, ConvertType, FormatConfig};
use crate::paths::extension;
use crate::file_structure::{entry_for, metadata_view, planned, AudioFile, AudioFileView, Step};

verus! {

/// A file found by the scan, with the metadata fields of its container.
#[derive(Clone, Debug)]
pub struct Candidate {
    /// Where the file was found.
    pub path: String,
    /// Its metadata, as pairs of key and value.
    pub metadata: Vec<(String, String)>,
}

/// Each candidate as its path and its metadata pairs.
pub open spec fn candidates_view(c: Seq<Candidate>) -> Seq<(Seq<char>, Seq<(Seq<char>, Seq<char>)>)> {
    c.map_values(|x: Candidate| (x.path@, metadata_view(x.metadata@)))
}

/// The views of a list of files.
pub open spec fn file_views(v: Seq<AudioFile>) -> Seq<AudioFileView> {
    v.map_values(|f: AudioFile| f@)
}

/// The entries made from the candidates, in their order; a candidate for
/// which no entry is made is left out.
pub open spec fn batch_of(
    c: Seq<(Seq<char>, Seq<(Seq<char>, Seq<char>)>)>,
    root: Seq<char>,
    template: Seq<char>,
) -> Seq<AudioFileView>
    decreases c.len(),
{
    if c.len() == 0 {
        seq![]
    } else {
        let before = batch_of(c.drop_last(), root, template);
        match entry_for(c.last().0, root, template, c.last().1) {
            Ok(f) => before.push(f),
            Err(_) => before,
        }
    }
}

/// A file whose container holds no metadata adds nothing to the batch:
/// the batch is the one made without it.
pub proof fn lemma_untagged_file_dropped(
    c: Seq<(Seq<char>, Seq<(Seq<char>, Seq<char>)>)>,
    root: Seq<char>,
    template: Seq<char>,
    i: int,
)
    requires
        0 <= i < c.len(),
        c[i].1.len() == 0,
    ensures
        batch_of(c, root, template) == batch_of(c.remove(i), root, template),
    decreases c.len(),
{
    if i == c.len() - 1 {
        assert(c.remove(i) == c.drop_last());
    } else {
        lemma_untagged_file_dropped(c.drop_last(), root, template, i);
        assert(c.remove(i).drop_last() == c.drop_last().remove(i));
        assert(c.remove(i).last() == c.last());
    }
}

/// Makes the batch from the scanned candidates.
pub fn discover(candidates: &Vec<Candidate>, config: &Config) -> (r: Vec<AudioFile>)
    ensures
        file_views(r@) == batch_of(
            candidates_view(candidates@),
            config.storage_path@,
            config.music_files_template@,
        ),
        forall|i: int| 0 <= i < r@.len() ==> (#[trigger] r@[i]).wf(),
{
    let ghost cv = candidates_view(candidates@);
    let ghost root = config.storage_path@;
    let ghost template = config.music_files_template@;
    let mut out: Vec<AudioFile> = Vec::new();
    let mut i: usize = 0;
    assert(cv.subrange(0, 0) == Seq::<(Seq<char>, Seq<(Seq<char>, Seq<char>)>)>::empty());
    assert(file_views(out@) == Seq::<AudioFileView>::empty());
    while i < candidates.len()
        invariant
            i <= candidates@.len(),
            cv == candidates_view(candidates@),
            root == config.storage_path@,
            template == config.music_files_template@,
            file_views(out@) == batch_of(cv.subrange(0, i as int), root, template),
            forall|j: int| 0 <= j < out@.len() ==> (#[trigger] out@[j]).wf(),
        decreases candidates@.len() - i,
    {
        let c = &candidates[i];
        assert(cv.subrange(0, i + 1).drop_last() == cv.subrange(0, i as int));
        assert(cv.subrange(0, i + 1).last() == cv[i as int]);
        match AudioFile::new(c.path.clone(), config, &c.metadata) {
            Ok(f) => {
                assert(file_views(out@.push(f)) == file_views(out@).push(f@));
                out.push(f);
            },
            Err(_) => {},
        }
        i += 1;
    }
    assert(cv.subrange(0, candidates@.len() as int) == cv);
    out
}

/// Decides and readies every file of the batch, and returns the work for
/// each, in the same order.
pub fn plan_batch(files: &mut Vec<AudioFile>, policy: ConvertType, profile: &FormatConfig) -> (steps:
    Vec<Step>)
    requires
        forall|i: int|
            0 <= i < old(files)@.len() ==> extension((#[trigger] old(files)@[i]).orig_path@) is Some,
    ensures
        final(files)@.len() == old(files)@.len(),
        steps@.len() == old(files)@.len(),
        forall|i: int|
            0 <= i < old(files)@.len() ==> planned(
                policy,
                *profile,
                (#[trigger] old(files)@[i])@,
                final(files)@[i]@,
                steps@[i],
            ),
{
    let ghost before = files@;
    let mut steps: Vec<Step> = Vec::new();
    let mut i: usize = 0;
    while i < files.len()
        invariant
            i <= files@.len(),
            files@.len() == before.len(),
            steps@.len() == i,
            forall|j: int| i <= j < before.len() ==> files@[j] == before[j],
            forall|j: int|
                0 <= j < before.len() ==> extension((#[trigger] before[j]).orig_path@) is Some,
            forall|j: int|
                0 <= j < i ==> planned(
                    policy,
                    *profile,
                    (#[trigger] before[j])@,
                    files@[j]@,
                    steps@[j],
                ),
        decreases before.len() - i,
    {
        assert(extension(before[i as int].orig_path@) is Some);
        assert(files@[i as int] == before[i as int]);
        let s = files[i].plan(policy, profile);
        steps.push(s);
        i += 1;
    }
    steps
}

/// Why the work for one file failed.
#[derive(Clone, Debug, PartialEq, Eq)]
pub enum OpError {
    /// Reading the source or writing the destination failed.
    Io(String),
    /// The encoder could not be started or reported failure.
    Encode(String),
}

impl OpError {
    /// An equal error.
    pub fn duplicate(&self) -> (r: OpError)
        ensures
            r == *self,
    {
        match self {
            OpError::Io(m) => OpError::Io(m.clone()),
            OpError::Encode(m) => OpError::Encode(m.clone()),
        }
    }
}

/// The outcome of an encoder run: only its exit status decides, and what
/// it printed is kept with a failure.
pub fn encoder_outcome(exit_ok: bool, output: String) -> (r: Result<(), OpError>)
    ensures
        exit_ok ==> r is Ok,
        !exit_ok ==> r == Err::<(), OpError>(OpError::Encode(output)),
{
    if exit_ok {
        Ok(())
    } else {
        Err(OpError::Encode(output))
    }
}

/// The failures among `s`, in order.
pub open spec fn failures_of(s: Seq<Result<(), OpError>>) -> Seq<OpError>
    decreases s.len(),
{
    if s.len() == 0 {
        seq![]
    } else {
        match s.last() {
            Ok(_) => failures_of(s.drop_last()),
            Err(e) => failures_of(s.drop_last()).push(e),
        }
    }
}

proof fn lemma_failures_bounded(s: Seq<Result<(), OpError>>)
    ensures
        failures_of(s).len() <= s.len(),
    decreases s.len(),
{
    if s.len() > 0 {
        lemma_failures_bounded(s.drop_last());
    }
}

/// How a batch went.
#[derive(Clone, Debug)]
pub struct BatchReport {
    /// How many files were copied or transcoded.
    pub succeeded: usize,
    /// How many failed.
    pub failed: usize,
    /// Why each failure happened, in batch order.
    pub failures: Vec<OpError>,
}

/// Sums up the outcomes of a batch: one failure does not hide the others.
pub fn summarize(outcomes: &Vec<Result<(), OpError>>) -> (r: BatchReport)
    ensures
        r.failures@ == failures_of(outcomes@),
        r.failed == failures_of(outcomes@).len(),
        r.succeeded + r.failed == outcomes@.len(),
{
    let mut failures: Vec<OpError> = Vec::new();
    let mut i: usize = 0;
    assert(outcomes@.subrange(0, 0) == Seq::<Result<(), OpError>>::empty());
    while i < outcomes.len()
        invariant
            i <= outcomes@.len(),
            failures@ == failures_of(outcomes@.subrange(0, i as int)),
        decreases outcomes@.len() - i,
    {
        assert(outcomes@.subrange(0, i + 1).drop_last() == outcomes@.subrange(0, i as int));
        match &outcomes[i] {
            Ok(_) => {},
            Err(e) => failures.push(e.duplicate()),
        }
        i += 1;
    }
    assert(outcomes@.subrange(0, outcomes@.len() as int) == outcomes@);
    proof {
        lemma_failures_bounded(outcomes@);
    }
    let failed = failures.len();
    BatchReport { succeeded: outcomes.len() - failed, failed, failures }
}

} // verus!

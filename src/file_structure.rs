//! One audio file of a run: where it comes from, where it goes, and how it
//! gets there.

use vstd::prelude::*;
use crate::config::{Config, ConvertType, FormatConfig};
use crate::paths::{
    extension, extension_of, has_name, join, join_path, lemma_extension_plain,
    lemma_with_extension_sets_extension, set_extension, with_extension,
};
use crate::text::{
    fill_placeholder, lower_of, lowercase, placeholder, replace_all, split_words, str_eq, views, words,
};

verus! {

/// Whether the lowercase extension `lowered` names a lossless format:
/// `flac`, `wav`, `aiff` or `m4a`.
pub open spec fn lossless_lowered(lowered: Seq<char>) -> bool {
    lowered == "flac"@ || lowered == "wav"@ || lowered == "aiff"@ || lowered == "m4a"@
}

/// Whether `ext` names a lossless format, in any letter case.
pub open spec fn lossless_ext(ext: Seq<char>) -> bool {
    lossless_lowered(lower_of(ext))
}

/// Whether the lowercase extension `lowered` names a lossless format.
pub fn is_lossless_lowered(lowered: &str) -> (r: bool)
    ensures
        r == lossless_lowered(lowered@),
{
    str_eq(lowered, "flac") || str_eq(lowered, "wav") || str_eq(lowered, "aiff") || str_eq(
        lowered,
        "m4a",
    )
}

/// Whether the extension `format` names a lossless format.
pub fn is_lossless(format: &str) -> (r: bool)
    ensures
        r == lossless_ext(format@),
{
    let lowered = lowercase(format);
    is_lossless_lowered(lowered.as_str())
}

/// The classification ignores letter case: two extensions with the same
/// lowercase form are both lossless or both lossy.
pub proof fn lemma_lossless_ignores_case(a: Seq<char>, b: Seq<char>)
    requires
        lower_of(a) == lower_of(b),
    ensures
        lossless_ext(a) == lossless_ext(b),
{
}

/// Why no entry was made for a file.
#[derive(Clone, Copy, Debug, PartialEq, Eq, Structural)]
pub enum FileError {
    /// The file holds no metadata field.
    NoMetadata,
    /// The file's path has no extension.
    UnknownExtension,
}

/// One file of the batch.
#[derive(Clone, Debug)]
pub struct AudioFile {
    /// Where the file is read from.
    pub orig_path: String,
    /// Where it is written to.
    pub new_path: String,
    /// Whether it was handed to the encoder.
    pub converted: bool,
    /// Whether its extension names a lossless format.
    pub lossless: bool,
}

/// An [`AudioFile`] with its paths as character sequences.
pub struct AudioFileView {
    /// The source path.
    pub orig_path: Seq<char>,
    /// The destination path.
    pub new_path: Seq<char>,
    /// Whether the file was handed to the encoder.
    pub converted: bool,
    /// Whether the source extension names a lossless format.
    pub lossless: bool,
}

impl View for AudioFile {
    type V = AudioFileView;

    open spec fn view(&self) -> AudioFileView {
        AudioFileView {
            orig_path: self.orig_path@,
            new_path: self.new_path@,
            converted: self.converted,
            lossless: self.lossless,
        }
    }
}

/// Metadata as pairs of key and value.
pub open spec fn metadata_view(m: Seq<(String, String)>) -> Seq<(Seq<char>, Seq<char>)> {
    m.map_values(|kv: (String, String)| (kv.0@, kv.1@))
}

/// `template` with the placeholder of each metadata key (the key in
/// lowercase between `<` and `>`) filled by its value, key after key in the
/// order given.
pub open spec fn render(template: Seq<char>, md: Seq<(Seq<char>, Seq<char>)>) -> Seq<char>
    decreases md.len(),
{
    if md.len() == 0 {
        template
    } else {
        replace_all(render(template, md.drop_last()), placeholder(lower_of(md.last().0)), md.last().1)
    }
}

/// The entry made for the file at `orig` with metadata `md`, or why none
/// is made.
pub open spec fn entry_for(
    orig: Seq<char>,
    root: Seq<char>,
    template: Seq<char>,
    md: Seq<(Seq<char>, Seq<char>)>,
) -> Result<AudioFileView, FileError> {
    if md.len() == 0 {
        Err(FileError::NoMetadata)
    } else if extension(orig) is None {
        Err(FileError::UnknownExtension)
    } else {
        Ok(
            AudioFileView {
                orig_path: orig,
                new_path: join(root, render(template, md)),
                converted: false,
                lossless: lossless_ext(extension(orig)->0),
            },
        )
    }
}

/// How a file reaches the library.
#[derive(Clone, Copy, Debug, PartialEq, Eq, Structural)]
pub enum Operation {
    /// Through the encoder.
    Transcode,
    /// Byte for byte.
    CopyVerbatim,
}

/// The operation that `policy` picks for a file, `target` being the
/// extension that the encoder writes.
pub open spec fn decision(policy: ConvertType, f: AudioFileView, target: Seq<char>) -> Operation {
    let convert = match policy {
        ConvertType::All => true,
        ConvertType::Never => false,
        ConvertType::IfNotSame => extension(f.orig_path) != Some(target),
        ConvertType::OnlyLossless => f.lossless,
    };
    if convert {
        Operation::Transcode
    } else {
        Operation::CopyVerbatim
    }
}

/// The encoder's argument for the template word `w`.
pub open spec fn encoder_arg(w: Seq<char>, input: Seq<char>, output: Seq<char>) -> Seq<char> {
    if w == "<inputfile>"@ {
        input
    } else if w == "<outputfile>"@ {
        output
    } else {
        w
    }
}

/// The encoder's arguments: the words of `command_line` with the two
/// placeholders replaced by the paths.
pub open spec fn encoder_args(command_line: Seq<char>, input: Seq<char>, output: Seq<char>) -> Seq<
    Seq<char>,
> {
    words(command_line).map_values(|w: Seq<char>| encoder_arg(w, input, output))
}

/// The outside work that one file needs.
#[derive(Clone, Debug)]
pub enum Step {
    /// Copy the bytes of `from` to `to`.
    Copy { from: String, to: String },
    /// Run `program` with `args` and wait for it.
    Encode { program: String, args: Vec<String> },
}

/// `after` and `step` are what readying `before` under `policy` and
/// `profile` gives: a copy to the destination under the source's extension,
/// or an encoder run writing the destination under the profile's extension.
pub open spec fn planned(
    policy: ConvertType,
    profile: FormatConfig,
    before: AudioFileView,
    after: AudioFileView,
    step: Step,
) -> bool {
    &&& after.orig_path == before.orig_path
    &&& after.lossless == before.lossless
    &&& after.converted == (decision(policy, before, profile.extension@) == Operation::Transcode)
    &&& decision(policy, before, profile.extension@) == Operation::CopyVerbatim ==> {
        &&& after.new_path == with_extension(before.new_path, extension(before.orig_path)->0)
        &&& step matches Step::Copy { from, to }
        &&& from@ == after.orig_path
        &&& to@ == after.new_path
    }
    &&& decision(policy, before, profile.extension@) == Operation::Transcode ==> {
        &&& after.new_path == with_extension(before.new_path, profile.extension@)
        &&& step matches Step::Encode { program, args }
        &&& program@ == profile.encoder@
        &&& views(args@) == encoder_args(profile.command_line@, after.orig_path, after.new_path)
    }
}

fn has_extension(p: &str, target: &str) -> (r: bool)
    ensures
        r == (extension(p@) == Some(target@)),
{
    match extension_of(p) {
        Some(x) => str_eq(x.as_str(), target),
        None => false,
    }
}

/// The operation that `policy` picks for `file`, `target` being the
/// extension that the encoder writes.
pub fn decide(policy: ConvertType, file: &AudioFile, target: &str) -> (r: Operation)
    ensures
        r == decision(policy, file@, target@),
{
    let convert = match policy {
        ConvertType::All => true,
        ConvertType::Never => false,
        ConvertType::IfNotSame => !has_extension(file.orig_path.as_str(), target),
        ConvertType::OnlyLossless => file.lossless,
    };
    if convert {
        Operation::Transcode
    } else {
        Operation::CopyVerbatim
    }
}

/// Fills the template with each metadata pair in turn.
pub fn render_template(template: &str, metadata: &Vec<(String, String)>) -> (r: String)
    ensures
        r@ == render(template@, metadata_view(metadata@)),
{
    let ghost md = metadata_view(metadata@);
    let mut out = String::from_str(template);
    let mut i: usize = 0;
    assert(md.subrange(0, 0) == Seq::<(Seq<char>, Seq<char>)>::empty());
    while i < metadata.len()
        invariant
            i <= metadata@.len(),
            md == metadata_view(metadata@),
            out@ == render(template@, md.subrange(0, i as int)),
        decreases metadata@.len() - i,
    {
        assert(md.subrange(0, i + 1).drop_last() == md.subrange(0, i as int));
        out = fill_placeholder(out.as_str(), metadata[i].0.as_str(), metadata[i].1.as_str());
        i += 1;
    }
    assert(md.subrange(0, metadata@.len() as int) == md);
    out
}

impl AudioFile {
    /// The source path has an extension, and `lossless` classifies it.
    pub open spec fn wf(&self) -> bool {
        &&& extension(self.orig_path@) is Some
        &&& self.lossless == lossless_ext(extension(self.orig_path@)->0)
    }

    /// Makes the entry for the file at `orig_path`, whose container holds
    /// `metadata`: its destination is the configured template, filled from
    /// the metadata, under the storage root.
    pub fn new(orig_path: String, config: &Config, metadata: &Vec<(String, String)>) -> (r: Result<
        AudioFile,
        FileError,
    >)
        ensures
            r matches Ok(f) ==> f.wf() && entry_for(
                orig_path@,
                config.storage_path@,
                config.music_files_template@,
                metadata_view(metadata@),
            ) == Ok::<AudioFileView, FileError>(f@),
            r matches Err(e) ==> entry_for(
                orig_path@,
                config.storage_path@,
                config.music_files_template@,
                metadata_view(metadata@),
            ) == Err::<AudioFileView, FileError>(e),
    {
        if metadata.len() == 0 {
            return Err(FileError::NoMetadata);
        }
        let ext = match extension_of(orig_path.as_str()) {
            Some(e) => e,
            None => return Err(FileError::UnknownExtension),
        };
        let rel = render_template(config.music_files_template.as_str(), metadata);
        let new_path = join_path(config.storage_path.as_str(), rel.as_str());
        let lossless = is_lossless(ext.as_str());
        Ok(AudioFile { orig_path, new_path, converted: false, lossless })
    }

    /// Readies a verbatim copy: the destination takes the source's
    /// extension.
    pub fn prepare_copy(&mut self)
        requires
            extension(old(self).orig_path@) is Some,
        ensures
            final(self).orig_path == old(self).orig_path,
            final(self).lossless == old(self).lossless,
            final(self).new_path@ == with_extension(
                old(self).new_path@,
                extension(old(self).orig_path@)->0,
            ),
            !final(self).converted,
    {
        let ext = match extension_of(self.orig_path.as_str()) {
            Some(e) => e,
            None => String::new(),
        };
        self.new_path = set_extension(self.new_path.as_str(), ext.as_str());
        self.converted = false;
    }

    /// Readies a transcode: the destination takes the profile's extension,
    /// and the encoder's arguments are returned.
    pub fn prepare_convert(&mut self, profile: &FormatConfig) -> (args: Vec<String>)
        ensures
            final(self).orig_path == old(self).orig_path,
            final(self).lossless == old(self).lossless,
            final(self).new_path@ == with_extension(old(self).new_path@, profile.extension@),
            final(self).converted,
            views(args@) == encoder_args(
                profile.command_line@,
                final(self).orig_path@,
                final(self).new_path@,
            ),
    {
        self.new_path = set_extension(self.new_path.as_str(), profile.extension.as_str());
        self.converted = true;
        let ws = split_words(profile.command_line.as_str());
        let ghost wv = views(ws@);
        let mut args: Vec<String> = Vec::new();
        let mut i: usize = 0;
        while i < ws.len()
            invariant
                i <= ws@.len(),
                wv == views(ws@),
                wv == words(profile.command_line@),
                views(args@) == wv.subrange(0, i as int).map_values(
                    |w: Seq<char>| encoder_arg(w, self.orig_path@, self.new_path@),
                ),
            decreases ws@.len() - i,
        {
            let w = ws[i].as_str();
            let a = if str_eq(w, "<inputfile>") {
                self.orig_path.clone()
            } else if str_eq(w, "<outputfile>") {
                self.new_path.clone()
            } else {
                String::from_str(w)
            };
            proof {
                assert(views(args@.push(a)) == views(args@).push(a@));
                assert(wv.subrange(0, i + 1) == wv.subrange(0, i as int).push(wv[i as int]));
            }
            args.push(a);
            i += 1;
        }
        assert(wv.subrange(0, ws@.len() as int) == wv);
        args
    }
    /// Decides under `policy` how the file reaches the library, readies
    /// the destination accordingly and returns the work to do.
    pub fn plan(&mut self, policy: ConvertType, profile: &FormatConfig) -> (r: Step)
        requires
            extension(old(self).orig_path@) is Some,
        ensures
            planned(policy, *profile, old(self)@, final(self)@, r),
    {
        match decide(policy, self, profile.extension.as_str()) {
            Operation::Transcode => {
                let args = self.prepare_convert(profile);
                Step::Encode { program: profile.encoder.clone(), args }
            },
            Operation::CopyVerbatim => {
                self.prepare_copy();
                Step::Copy { from: self.orig_path.clone(), to: self.new_path.clone() }
            },
        }
    }
}

/// Under the lossless-only policy, a well-formed file is transcoded exactly
/// when its source extension names a lossless format.
pub proof fn lemma_lossless_routing(f: AudioFile, target: Seq<char>)
    requires
        f.wf(),
    ensures
        decision(ConvertType::OnlyLossless, f@, target) == Operation::Transcode <==> lossless_ext(
            extension(f.orig_path@)->0,
        ),
{
}

/// Whatever the policy, a file planned as an encoder run gets a
/// destination with the profile's extension, and one planned as a copy
/// keeps the source's extension.
pub proof fn lemma_plan_extensions(
    policy: ConvertType,
    profile: FormatConfig,
    before: AudioFileView,
    after: AudioFileView,
    step: Step,
)
    requires
        planned(policy, profile, before, after, step),
        has_name(before.new_path),
        extension(before.orig_path) matches Some(e) && e.len() > 0,
        profile.extension@.len() > 0,
        forall|i: int|
            0 <= i < profile.extension@.len() ==> profile.extension@[i] != '/'
                && profile.extension@[i] != '.',
    ensures
        step is Encode ==> after.converted && extension(after.new_path) == Some(
            profile.extension@,
        ),
        step is Copy ==> !after.converted && extension(after.new_path) == extension(
            before.orig_path,
        ),
{
    if decision(policy, before, profile.extension@) == Operation::Transcode {
        lemma_with_extension_sets_extension(before.new_path, profile.extension@);
    } else {
        lemma_extension_plain(before.orig_path);
        lemma_with_extension_sets_extension(before.new_path, extension(before.orig_path)->0);
    }
}

/// Under the extension-differs policy, a source that already has the
/// encoder's extension `target` is copied, and any other is transcoded.
pub proof fn lemma_same_extension_copied(f: AudioFile, target: Seq<char>)
    ensures
        extension(f.orig_path@) == Some(target) ==> decision(ConvertType::IfNotSame, f@, target)
            == Operation::CopyVerbatim,
        extension(f.orig_path@) != Some(target) ==> decision(ConvertType::IfNotSame, f@, target)
            == Operation::Transcode,
{
}

} // verus!

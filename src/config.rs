//! Run configuration: where the library lives, how paths are named, which
//! encoder profile is used and when files are transcoded.

use vstd::prelude::*;

verus! {

/// When a file is transcoded rather than copied as it is.
#[derive(Clone, Copy, Debug, PartialEq, Eq, Structural)]
pub enum ConvertType {
    /// Every file is transcoded.
    All,
    /// No file is transcoded.
    Never,
    /// A file is transcoded where its extension differs from the one that
    /// the encoder writes, and copied where it is the same.
    IfNotSame,
    /// Lossless files are transcoded, the others copied.
    OnlyLossless,
}

/// The main configuration of a run.
#[derive(Clone, Debug)]
pub struct Config {
    /// Root of the destination library.
    pub storage_path: String,
    /// Destination path template, with placeholders such as `<artist>`.
    pub music_files_template: String,
    /// Name of the encoder profile to use.
    pub conversion_format: String,
    /// The conversion policy.
    pub convert: ConvertType,
}

/// An encoder profile.
#[derive(Clone, Debug)]
pub struct FormatConfig {
    /// Extension of the files that the encoder writes.
    pub extension: String,
    /// The encoder's executable.
    pub encoder: String,
    /// Argument template, whitespace-separated, holding the placeholders
    /// `<inputfile>` and `<outputfile>`.
    pub command_line: String,
}

} // verus!

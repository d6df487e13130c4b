use sinkmuzik::batch::{discover, encoder_outcome, plan_batch, summarize, Candidate, OpError};
use sinkmuzik::config::{Config, ConvertType, FormatConfig};
use sinkmuzik::file_structure::{
    decide, is_lossless, is_lossless_lowered, AudioFile, FileError, Operation, Step,
};
use sinkmuzik::opt_parser::{action_from_lowered, Action, CmdlineOptions, UsageError};
use sinkmuzik::paths::{extension_of, join_path, set_extension};
use sinkmuzik::preview::preview;
use sinkmuzik::text::{fill_placeholder, replace_pattern, split_words};

fn config(template: &str, policy: ConvertType) -> Config {
    Config {
        storage_path: "storage_root".to_string(),
        music_files_template: template.to_string(),
        conversion_format: "opus".to_string(),
        convert: policy,
    }
}

fn profile() -> FormatConfig {
    FormatConfig {
        extension: "opus".to_string(),
        encoder: "ffmpeg".to_string(),
        command_line: "-i <inputfile> -b:a 128k <outputfile>".to_string(),
    }
}

fn md(pairs: &[(&str, &str)]) -> Vec<(String, String)> {
    pairs.iter().map(|(k, v)| (k.to_string(), v.to_string())).collect()
}

fn file(orig: &str, dest: &str) -> AudioFile {
    let ext = extension_of(orig).unwrap();
    AudioFile {
        orig_path: orig.to_string(),
        new_path: dest.to_string(),
        converted: false,
        lossless: is_lossless(&ext),
    }
}

#[test]
fn lossless_extensions_in_any_case() {
    for e in ["flac", "wav", "aiff", "m4a", "FLAC", "Wav", "AiFf", "M4A"] {
        assert!(is_lossless(e), "{}", e);
    }
}

#[test]
fn lossy_and_unknown_extensions() {
    for e in ["mp3", "ogg", "unknown", "MP3", "", "flac2", "fla"] {
        assert!(!is_lossless(e), "{}", e);
    }
}

#[test]
fn template_filled_from_metadata() {
    let cfg = config("<artist>/<title>", ConvertType::All);
    let f = AudioFile::new("/music/x.flac".to_string(), &cfg, &md(&[("artist", "A"), ("title", "B")])).unwrap();
    assert_eq!(f.new_path, "storage_root/A/B");
    assert_eq!(f.orig_path, "/music/x.flac");
    assert!(f.lossless);
    assert!(!f.converted);
}

#[test]
fn absent_key_leaves_placeholder() {
    let cfg = config("<artist>/<missing>", ConvertType::All);
    let f = AudioFile::new("/music/x.mp3".to_string(), &cfg, &md(&[("artist", "A")])).unwrap();
    assert_eq!(f.new_path, "storage_root/A/<missing>");
    assert!(!f.lossless);
}

#[test]
fn metadata_keys_fold_case() {
    let cfg = config("<artist> - <album>/<artist>", ConvertType::All);
    let f = AudioFile::new("x.wav".to_string(), &cfg, &md(&[("ARTIST", "Z"), ("Album", "Q")])).unwrap();
    assert_eq!(f.new_path, "storage_root/Z - Q/Z");
}

#[test]
fn no_metadata_is_refused() {
    let cfg = config("<artist>", ConvertType::All);
    let r = AudioFile::new("x.flac".to_string(), &cfg, &Vec::new());
    assert!(matches!(r, Err(FileError::NoMetadata)));
}

#[test]
fn missing_extension_is_refused() {
    let cfg = config("<artist>", ConvertType::All);
    let r = AudioFile::new("/music/track".to_string(), &cfg, &md(&[("artist", "A")]));
    assert!(matches!(r, Err(FileError::UnknownExtension)));
}

#[test]
fn only_lossless_routes_by_format() {
    assert_eq!(decide(ConvertType::OnlyLossless, &file("a.flac", "lib/a"), "opus"), Operation::Transcode);
    assert_eq!(decide(ConvertType::OnlyLossless, &file("a.mp3", "lib/a"), "opus"), Operation::CopyVerbatim);
}

#[test]
fn extension_differs_routes_by_extension() {
    assert_eq!(decide(ConvertType::IfNotSame, &file("a.opus", "lib/a"), "opus"), Operation::CopyVerbatim);
    assert_eq!(decide(ConvertType::IfNotSame, &file("a.mp3", "lib/a"), "mp3"), Operation::CopyVerbatim);
    assert_eq!(decide(ConvertType::IfNotSame, &file("a.flac", "lib/a.flac"), "mp3"), Operation::Transcode);
    assert_eq!(decide(ConvertType::IfNotSame, &file("a.flac", "lib/a"), "opus"), Operation::Transcode);
}

#[test]
fn all_and_never_policies() {
    assert_eq!(decide(ConvertType::All, &file("a.mp3", "lib/a.mp3"), "mp3"), Operation::Transcode);
    assert_eq!(decide(ConvertType::Never, &file("a.flac", "lib/a"), "opus"), Operation::CopyVerbatim);
}

#[test]
fn extension_differs_plan() {
    let mut same = file("/in/a.opus", "lib/A/a");
    assert!(matches!(same.plan(ConvertType::IfNotSame, &profile()), Step::Copy { .. }));
    assert_eq!(same.new_path, "lib/A/a.opus");
    let mut other = file("/in/b.flac", "lib/A/b");
    assert!(matches!(other.plan(ConvertType::IfNotSame, &profile()), Step::Encode { .. }));
    assert_eq!(other.new_path, "lib/A/b.opus");
}

#[test]
fn copy_takes_source_extension() {
    let mut f = file("/in/a.flac", "lib/A/B");
    match f.plan(ConvertType::Never, &profile()) {
        Step::Copy { from, to } => {
            assert_eq!(from, "/in/a.flac");
            assert_eq!(to, "lib/A/B.flac");
        }
        _ => panic!("expected a copy"),
    }
    assert_eq!(f.new_path, "lib/A/B.flac");
    assert!(!f.converted);
}

#[test]
fn transcode_substitutes_placeholders() {
    let mut f = file("/in/a.flac", "lib/A/B");
    match f.plan(ConvertType::All, &profile()) {
        Step::Encode { program, args } => {
            assert_eq!(program, "ffmpeg");
            assert_eq!(args, vec!["-i", "/in/a.flac", "-b:a", "128k", "lib/A/B.opus"]);
        }
        _ => panic!("expected an encoder run"),
    }
    assert_eq!(f.new_path, "lib/A/B.opus");
    assert!(f.converted);
}

#[test]
fn plan_batch_keeps_order() {
    let mut files = vec![file("a.flac", "l/a"), file("b.mp3", "l/b")];
    let steps = plan_batch(&mut files, ConvertType::OnlyLossless, &profile());
    assert_eq!(steps.len(), 2);
    assert!(matches!(&steps[0], Step::Encode { .. }));
    assert!(matches!(&steps[1], Step::Copy { .. }));
    assert_eq!(files[0].new_path, "l/a.opus");
    assert_eq!(files[1].new_path, "l/b.mp3");
}

#[test]
fn summary_counts_failures() {
    let outcomes = vec![
        Ok(()),
        Err(OpError::Io("disk full".to_string())),
        Ok(()),
        Err(OpError::Encode("exit 1".to_string())),
        Ok(()),
    ];
    let r = summarize(&outcomes);
    assert_eq!(r.succeeded, 3);
    assert_eq!(r.failed, 2);
    assert_eq!(
        r.failures,
        vec![OpError::Io("disk full".to_string()), OpError::Encode("exit 1".to_string())]
    );
}

#[test]
fn summary_of_empty_batch() {
    let r = summarize(&Vec::new());
    assert_eq!((r.succeeded, r.failed), (0, 0));
}

#[test]
fn encoder_exit_status_decides() {
    assert_eq!(encoder_outcome(true, "noise".to_string()), Ok(()));
    assert_eq!(
        encoder_outcome(false, "bad input".to_string()),
        Err(OpError::Encode("bad input".to_string()))
    );
}

#[test]
fn preview_sums_sizes_without_conversion() {
    let files = vec![file("a.mp3", "l/a"), file("b.mp3", "l/b"), file("c.mp3", "l/c")];
    let mb = 1024 * 1024;
    let sizes = vec![mb + 100, 2 * mb + 5, 3 * mb + mb - 1];
    let r = preview(&files, ConvertType::Never, &profile(), &sizes);
    assert_eq!(r.count, 3);
    assert_eq!(r.size_mb, 6);
    assert_eq!(r.entries[2], ("c.mp3".to_string(), "l/c.opus".to_string()));
}

#[test]
fn preview_skips_sizes_when_converting() {
    let files = vec![file("a.mp3", "l/a"), file("b.mp3", "l/b"), file("c.mp3", "l/c")];
    let mb = 1024 * 1024;
    let r = preview(&files, ConvertType::All, &profile(), &vec![mb, 2 * mb, 3 * mb]);
    assert_eq!(r.count, 3);
    assert_eq!(r.size_mb, 0);
}

#[test]
fn untagged_files_left_out_of_batch() {
    let cfg = config("<title>", ConvertType::All);
    let cands = vec![
        Candidate { path: "a.flac".to_string(), metadata: md(&[("title", "A")]) },
        Candidate { path: "b.flac".to_string(), metadata: Vec::new() },
        Candidate { path: "c".to_string(), metadata: md(&[("title", "C")]) },
        Candidate { path: "d.mp3".to_string(), metadata: md(&[("title", "D")]) },
    ];
    let batch = discover(&cands, &cfg);
    assert_eq!(batch.len(), 2);
    assert_eq!(batch[0].orig_path, "a.flac");
    assert_eq!(batch[1].orig_path, "d.mp3");
    assert_eq!(batch[1].new_path, "storage_root/D");
    let steps_outcomes: Vec<Result<(), OpError>> = batch.iter().map(|_| Ok(())).collect();
    assert_eq!(summarize(&steps_outcomes).failed, 0);
}

#[test]
fn command_line_parsing() {
    let args = |v: &[&str]| v.iter().map(|s| s.to_string()).collect::<Vec<String>>();
    assert!(matches!(CmdlineOptions::new(&args(&["prog", "sync"])), Err(UsageError::MissingArguments)));
    assert!(matches!(
        CmdlineOptions::new(&args(&["prog", "move", "/m"])),
        Err(UsageError::UnknownAction(w)) if w == "move"
    ));
    let o = CmdlineOptions::new(&args(&["prog", "SYNC", "/m"])).unwrap();
    assert_eq!((o.action, o.path.as_str()), (Action::Sync, "/m"));
    let o = CmdlineOptions::new(&args(&["prog", "preview", "/n", "extra"])).unwrap();
    assert_eq!((o.action, o.path.as_str()), (Action::Preview, "/n"));
}

#[test]
fn path_helpers() {
    assert_eq!(extension_of("a/b.c/d.FLAC"), Some("FLAC".to_string()));
    assert_eq!(extension_of("a/b.c/d"), None);
    assert_eq!(extension_of("a/.hidden"), None);
    assert_eq!(extension_of("a/x.tar.gz"), Some("gz".to_string()));
    assert_eq!(set_extension("a/b.c/d", "mp3"), "a/b.c/d.mp3");
    assert_eq!(set_extension("a/x.tar.gz", "ogg"), "a/x.tar.ogg");
    assert_eq!(set_extension("a/x.flac", ""), "a/x");
    assert_eq!(set_extension("a/.hidden", "ogg"), "a/.hidden.ogg");
    assert_eq!(join_path("root", "A/B"), "root/A/B");
    assert_eq!(join_path("root/", "A"), "root/A");
    assert_eq!(join_path("root", "/abs"), "/abs");
    assert_eq!(join_path("", "A"), "A");
}

#[test]
fn text_helpers() {
    assert_eq!(split_words("  a  b\tc "), vec!["a", "b", "c"]);
    assert!(split_words("   ").is_empty());
    assert_eq!(fill_placeholder("<k>-<k>-<K>", "K", "v"), "v-v-<K>");
    assert_eq!(fill_placeholder("<<k>>", "k", "v"), "<v>");
    assert_eq!(fill_placeholder("<é>/<é>", "É", "v"), "v/v");
    assert_eq!(replace_pattern("aXbXX", "X", "--"), "a--b----");
    assert_eq!(replace_pattern("aaa", "aa", "b"), "ba");
}

#[test]
fn unicode_keys_are_lowered() {
    let cfg = config("<édition>/<title>", ConvertType::All);
    let f = AudioFile::new("x.flac".to_string(), &cfg, &md(&[("ÉDITION", "Deluxe"), ("TITLE", "T")])).unwrap();
    assert_eq!(f.new_path, "storage_root/Deluxe/T");
}

#[test]
fn trailing_separator_in_destination() {
    let cfg = config("<artist>/<album>/", ConvertType::Never);
    let mut f = AudioFile::new("/in/t.flac".to_string(), &cfg, &md(&[("artist", "A"), ("album", "B")])).unwrap();
    assert_eq!(f.new_path, "storage_root/A/B/");
    f.prepare_copy();
    assert_eq!(f.new_path, "storage_root/A/B.flac");
    assert_eq!(extension_of("a/b.mp3/"), Some("mp3".to_string()));
    assert_eq!(set_extension("a/b/", ""), "a/b");
    assert_eq!(set_extension("a/..", "mp3"), "a/..");
    assert_eq!(set_extension("/", "mp3"), "/");
    assert_eq!(extension_of("a/.."), None);
    assert_eq!(extension_of("a/b.mp3/."), Some("mp3".to_string()));
    assert_eq!(set_extension("a/b/.", "ogg"), "a/b.ogg");
    assert_eq!(set_extension("a/b/./", "ogg"), "a/b.ogg");
    assert_eq!(set_extension(".", "ogg"), ".");
    assert_eq!(extension_of("/."), None);
}

#[test]
fn parser_accepts_both_actions() {
    let args = |v: &[&str]| v.iter().map(|s| s.to_string()).collect::<Vec<String>>();
    let o = CmdlineOptions::new(&args(&["prog", "preview", "/music"])).unwrap();
    assert_eq!((o.action, o.path.as_str()), (Action::Preview, "/music"));
    let o = CmdlineOptions::new(&args(&["prog", "sync", "/music"])).unwrap();
    assert_eq!((o.action, o.path.as_str()), (Action::Sync, "/music"));
    let o = CmdlineOptions::new(&args(&["prog", "PreView", "/m"])).unwrap();
    assert_eq!(o.action, Action::Preview);
    assert!(CmdlineOptions::new(&args(&["prog"])).is_err());
    assert!(CmdlineOptions::new(&args(&["prog", "convert", "/m"])).is_err());
    assert_eq!(action_from_lowered("sync"), Some(Action::Sync));
    assert_eq!(action_from_lowered("SYNC"), None);
}

#[test]
fn lowered_classification() {
    assert!(is_lossless_lowered("m4a"));
    assert!(!is_lossless_lowered("M4A"));
    assert!(!is_lossless_lowered("ogg"));
}

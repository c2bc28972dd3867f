//! Exporting a session: which files go into the shared archive, which of
//! them are replaced by their redacted versions, and the data-URL forms in
//! which single files are handed to the interface.
//!
//! Reading files and writing the archive stay with the caller.

use vstd::prelude::*;

verus! {

use vstd::string::StringExecFns;
use base64::Engine;

/// What bytes encode to in the standard base64 alphabet with padding.
pub uninterp spec fn base64_of(bytes: Seq<u8>) -> Seq<char>;

/// Relies on base64's STANDARD engine: the bytes in base64, with padding.
/// The result depends on the bytes alone.
#[verifier::external_body]
fn base64_encode(bytes: &Vec<u8>) -> (r: String)
    ensures
        r@ == base64_of(bytes@),
{
    base64::engine::general_purpose::STANDARD.encode(bytes)
}

/// A video file as a data URL.
pub fn video_data_url(bytes: &Vec<u8>) -> (r: String)
    ensures
        r@ == "data:video/mp4;base64,"@ + base64_of(bytes@),
{
    let mut s = String::new();
    s.append("data:video/mp4;base64,");
    let b = base64_encode(bytes);
    s.append(b.as_str());
    proof {
        assert(s@ =~= "data:video/mp4;base64,"@ + base64_of(bytes@));
    }
    s
}

/// A screenshot as a data URL.
pub fn image_data_url(bytes: &Vec<u8>) -> (r: String)
    ensures
        r@ == "data:image/png;base64,"@ + base64_of(bytes@),
{
    let mut s = String::new();
    s.append("data:image/png;base64,");
    let b = base64_encode(bytes);
    s.append(b.as_str());
    proof {
        assert(s@ =~= "data:image/png;base64,"@ + base64_of(bytes@));
    }
    s
}

/// Which copy of a session file goes into the exported archive.
#[derive(Clone, Copy, Debug, PartialEq, Eq, Structural)]
pub enum ExportSource {
    /// The file as the session wrote it.
    Original,
    /// The redacted copy produced for this export.
    Redacted,
}

/// One member of the exported archive.
pub struct ExportEntry {
    pub name: String,
    pub source: ExportSource,
}

/// The exported archive holds exactly the event log, the metadata record
/// and the video, in that order. When private ranges were declared, the
/// log and the video are replaced by their redacted copies; the metadata
/// record always passes through unredacted.
pub fn export_manifest(has_private_ranges: bool) -> (r: Vec<ExportEntry>)
    ensures
        r@.len() == 3,
        r@[0].name@ == "input_log.jsonl"@,
        r@[1].name@ == "meta.json"@,
        r@[2].name@ == "recording.mp4"@,
        r@[1].source is Original,
        has_private_ranges ==> r@[0].source is Redacted && r@[2].source is Redacted,
        !has_private_ranges ==> r@[0].source is Original && r@[2].source is Original,
{
    let log_source = if has_private_ranges {
        ExportSource::Redacted
    } else {
        ExportSource::Original
    };
    let video_source = if has_private_ranges {
        ExportSource::Redacted
    } else {
        ExportSource::Original
    };
    let mut entries: Vec<ExportEntry> = Vec::new();
    entries.push(ExportEntry { name: "input_log.jsonl".to_owned(), source: log_source });
    entries.push(ExportEntry { name: "meta.json".to_owned(), source: ExportSource::Original });
    entries.push(ExportEntry { name: "recording.mp4".to_owned(), source: video_source });
    entries
}

/// How a recording file is returned to the interface.
#[derive(Clone, Copy, Debug, PartialEq, Eq, Structural)]
pub enum FileReturnMode {
    /// As a base64 data URL.
    DataUrl,
    /// As the file's path.
    Path,
    /// As the file's text.
    Text,
}

/// The return mode asked for: base64 wins over path, and text is the
/// default.
pub fn file_return_mode(as_base64: Option<bool>, as_path: Option<bool>) -> (r: FileReturnMode)
    ensures
        as_base64 == Some(true) ==> r is DataUrl,
        as_base64 != Some(true) && as_path == Some(true) ==> r is Path,
        as_base64 != Some(true) && as_path != Some(true) ==> r is Text,
{
    match as_base64 {
        Option::Some(true) => FileReturnMode::DataUrl,
        _ => match as_path {
            Option::Some(true) => FileReturnMode::Path,
            _ => FileReturnMode::Text,
        },
    }
}

} // verus!

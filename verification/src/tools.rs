//! Bootstrap decisions for the external media tools: which archive member
//! holds a binary on each platform, when a corrupted download is retried,
//! and the version record kept beside a downloaded binary.
//!
//! Downloading and unpacking stay with the caller.

use vstd::prelude::*;

verus! {

use vstd::string::StringExecFns;
use crate::logger::{json_quoted, json_quote};
use crate::numfmt::{dec_str, u64_to_dec};
use crate::textparse::{has_prefix, starts_with, str_eq};

/// The version record of one downloaded binary.
pub struct BinaryMetadata {
    pub version: String,
    pub build_timestamp: u64,
}

impl BinaryMetadata {
    pub fn new(version: String, build_timestamp: u64) -> (r: BinaryMetadata)
        ensures
            r.version == version,
            r.build_timestamp == build_timestamp,
    {
        BinaryMetadata { version, build_timestamp }
    }

    /// The record as one JSON object.
    pub fn to_json(&self) -> (r: String)
        ensures
            r@ == "{\"version\":"@ + json_quoted(self.version@) + ",\"build_timestamp\":"@
                + dec_str(self.build_timestamp as int) + "}"@,
    {
        let mut s = String::new();
        s.append("{\"version\":");
        let v = json_quote(self.version.as_str());
        s.append(v.as_str());
        s.append(",\"build_timestamp\":");
        let t = u64_to_dec(self.build_timestamp);
        s.append(t.as_str());
        s.append("}");
        proof {
            assert(s@ =~= "{\"version\":"@ + json_quoted(self.version@) + ",\"build_timestamp\":"@
                + dec_str(self.build_timestamp as int) + "}"@);
        }
        s
    }
}

/// Where a binary sits inside its downloaded archive.
#[derive(Clone, Debug)]
pub enum ArchivePlan {
    /// A zip archive; extract the member whose name holds this pattern.
    Zip { pattern: String },
    /// A tar.xz archive; extract the member matching the pattern, skipping
    /// names that hold the excluded pattern.
    TarXz { pattern: String, exclude: Option<String> },
}

/// Decide how to pull one binary out of a platform's archive.
///
/// Fails exactly when the platform name is none of the known three.
pub fn extract_binary_plan(os_type: &str, binary_name: &str) -> (r: Result<ArchivePlan, String>)
    ensures
        match r {
            Ok(plan) => match plan {
                ArchivePlan::Zip { pattern } => {
                    if has_prefix(os_type@, "windows"@) {
                        pattern@ == "/bin/"@ + binary_name@ + ".exe"@
                    } else {
                        has_prefix(os_type@, "macos"@) && pattern@ == binary_name@
                    }
                },
                ArchivePlan::TarXz { pattern, exclude } => {
                    &&& has_prefix(os_type@, "linux"@)
                    &&& !has_prefix(os_type@, "windows"@)
                    &&& !has_prefix(os_type@, "macos"@)
                    &&& pattern@ == binary_name@
                    &&& (binary_name@ == "ffmpeg"@ ==> (exclude matches Some(x) && x@
                        == "ffprobe"@))
                    &&& (binary_name@ != "ffmpeg"@ ==> exclude is None)
                },
            },
            Err(e) => {
                &&& !has_prefix(os_type@, "windows"@)
                &&& !has_prefix(os_type@, "macos"@)
                &&& !has_prefix(os_type@, "linux"@)
                &&& e@ == "Unsupported OS type: "@ + os_type@
            },
        },
{
    if starts_with(os_type, "windows") {
        let mut pattern = String::new();
        pattern.append("/bin/");
        pattern.append(binary_name);
        pattern.append(".exe");
        proof {
            assert(pattern@ =~= "/bin/"@ + binary_name@ + ".exe"@);
        }
        Ok(ArchivePlan::Zip { pattern })
    } else if starts_with(os_type, "macos") {
        Ok(ArchivePlan::Zip { pattern: binary_name.to_owned() })
    } else if starts_with(os_type, "linux") {
        let exclude: Option<String> = if str_eq(binary_name, "ffmpeg") {
            Some("ffprobe".to_owned())
        } else {
            None
        };
        Ok(ArchivePlan::TarXz { pattern: binary_name.to_owned(), exclude })
    } else {
        let mut e = String::new();
        e.append("Unsupported OS type: ");
        e.append(os_type);
        Err(e)
    }
}

/// How one extraction attempt ended.
#[derive(Clone, Debug)]
pub enum ExtractOutcome {
    /// The binary was found and written out.
    Extracted,
    /// The archive was read, but no member matched.
    NotFound,
    /// The archive would not open; a fresh download may fix it.
    CorruptArchive,
    /// Any other failure, to be surfaced as it is.
    OtherError { message: String },
}

/// What to do after an extraction attempt.
#[derive(Clone, Debug)]
pub enum ExtractStep {
    /// The binary is in place.
    Done,
    /// Delete the archive, download it again, and retry once.
    Redownload,
    /// Give up with this message.
    Fail { message: String },
}

/// The single-retry policy around a corrupted archive: retry once when a
/// download source is at hand, otherwise fail with the matching message.
pub fn extract_retry_decision(
    outcome: ExtractOutcome,
    binary_name: &str,
    retry_attempted: bool,
    url_known: bool,
) -> (r: ExtractStep)
    ensures
        match outcome {
            ExtractOutcome::Extracted => r is Done,
            ExtractOutcome::NotFound => r matches ExtractStep::Fail { message } && message@
                == "Could not find "@ + binary_name@ + " binary in archive"@,
            ExtractOutcome::CorruptArchive => {
                if !retry_attempted && url_known {
                    r is Redownload
                } else if !retry_attempted {
                    r matches ExtractStep::Fail { message } && message@
                        == "Archive is corrupted and no URL provided for retry"@
                } else {
                    r matches ExtractStep::Fail { message } && message@ == "RETRY_NEEDED"@
                }
            },
            ExtractOutcome::OtherError { message: m } => r matches ExtractStep::Fail { message }
                && message == m,
        },
{
    match outcome {
        ExtractOutcome::Extracted => ExtractStep::Done,
        ExtractOutcome::NotFound => {
            let mut m = String::new();
            m.append("Could not find ");
            m.append(binary_name);
            m.append(" binary in archive");
            ExtractStep::Fail { message: m }
        },
        ExtractOutcome::CorruptArchive => {
            if !retry_attempted && url_known {
                ExtractStep::Redownload
            } else if !retry_attempted {
                ExtractStep::Fail {
                    message: "Archive is corrupted and no URL provided for retry".to_owned(),
                }
            } else {
                ExtractStep::Fail { message: "RETRY_NEEDED".to_owned() }
            }
        },
        ExtractOutcome::OtherError { message } => ExtractStep::Fail { message },
    }
}

} // verus!

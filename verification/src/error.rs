//! The errors that the library reports.

use crate::version::{format_version, GodotVersion};
use vstd::prelude::*;
use vstd::string::*;

verus! {

/// Why an operation of the library failed.
#[derive(Debug, Clone, PartialEq, Eq)]
pub enum Error {
    /// The text is not a version identifier. Holds the offending text.
    CannotParseVersion(String),
    /// The text is not a pre-release marker. Holds the offending text.
    InvalidTestMark(String),
    /// The version is well formed but the package list has no download for
    /// it on the requested platform.
    VersionNotFound(GodotVersion),
    /// The version cannot be made current because it is not installed.
    NotInstalled(GodotVersion),
    /// Stored installation records name one version twice, or select a
    /// current version that is not among them.
    InvalidManifest,
    /// A stored package list names one version twice for one platform.
    InvalidPackageList,
    /// An installation was handed an event that its state does not expect.
    Unknown,
}

/// The text that `Error::message` gives for an error.
pub open spec fn message_spec(e: Error) -> Seq<char> {
    match e {
        Error::CannotParseVersion(text) => "cannot parse `"@ + text@
            + "`: not a valid godot version"@,
        Error::InvalidTestMark(text) => "Invalid testmark "@ + text@,
        Error::VersionNotFound(v) => "version not found: `"@ + format_version(v)
            + "` not found in package list"@,
        Error::NotInstalled(v) => "version `"@ + format_version(v) + "` is not installed"@,
        Error::InvalidManifest => "the manifest is not consistent"@,
        Error::InvalidPackageList => "the package list is not consistent"@,
        Error::Unknown => "unknown error"@,
    }
}

impl Error {
    /// The message to show for this error.
    pub fn message(&self) -> (text: String)
        ensures
            text@ == message_spec(*self),
    {
        match self {
            Error::CannotParseVersion(t) => {
                let mut out = "cannot parse `".to_owned();
                out.append(t.as_str());
                out.append("`: not a valid godot version");
                out
            },
            Error::InvalidTestMark(t) => {
                let mut out = "Invalid testmark ".to_owned();
                out.append(t.as_str());
                out
            },
            Error::VersionNotFound(v) => {
                let mut out = "version not found: `".to_owned();
                let name = v.to_string();
                out.append(name.as_str());
                out.append("` not found in package list");
                out
            },
            Error::NotInstalled(v) => {
                let mut out = "version `".to_owned();
                let name = v.to_string();
                out.append(name.as_str());
                out.append("` is not installed");
                out
            },
            Error::InvalidManifest => "the manifest is not consistent".to_owned(),
            Error::InvalidPackageList => "the package list is not consistent".to_owned(),
            Error::Unknown => "unknown error".to_owned(),
        }
    }
}

} // verus!

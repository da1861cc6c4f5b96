//! The Pi CLI itself: where its binary is, whether it is installed, and how
//! to log in.

use vstd::prelude::*;
use crate::text::{
    first_line, first_line_of, lemma_trimmed_idempotent, lossy_text, trim, trimmed, utf8_lossy,
};

verus! {

/// Whether the Pi CLI is installed, its version and its path.
pub struct PiCliStatus {
    pub installed: bool,
    pub version: Option<String>,
    pub path: Option<String>,
}

/// The view of a `PiCliStatus`.
pub struct PiCliStatusView {
    pub installed: bool,
    pub version: Option<Seq<char>>,
    pub path: Option<Seq<char>>,
}

impl View for PiCliStatus {
    type V = PiCliStatusView;

    open spec fn view(&self) -> PiCliStatusView {
        PiCliStatusView {
            installed: self.installed,
            version: match self.version {
                Some(v) => Some(v@),
                None => None,
            },
            path: match self.path {
                Some(p) => Some(p@),
                None => None,
            },
        }
    }
}

/// How to log in to Pi's providers.
pub struct PiLoginInfo {
    pub command: String,
    pub message: String,
}

/// How `pi --version` went: it ran, successfully or not, with its output;
/// or it could not be started.
pub enum VersionProbe {
    Ran { success: bool, stdout: Vec<u8> },
    NotStarted,
}

/// The version that `pi --version` printed: its output, read leniently and
/// trimmed, where that is not empty.
pub open spec fn printed_version(stdout: Seq<u8>) -> Option<Seq<char>> {
    let v = trimmed(utf8_lossy(stdout));
    if v.len() > 0 {
        Some(v)
    } else {
        None
    }
}

/// The status that a version probe of the binary at `path` shows: installed
/// where the probe succeeded; else not installed, with the path where the
/// probe ran and the binary exists.
pub open spec fn status_of(probe: VersionProbe, path: Seq<char>, exists: bool) -> PiCliStatusView {
    match probe {
        VersionProbe::Ran { success, stdout } => if success {
            PiCliStatusView { installed: true, version: printed_version(stdout@), path: Some(path) }
        } else {
            PiCliStatusView {
                installed: false,
                version: None,
                path: if exists {
                    Some(path)
                } else {
                    None
                },
            }
        },
        VersionProbe::NotStarted => PiCliStatusView { installed: false, version: None, path: None },
    }
}

/// The installation status of the Pi binary at `binary_path` (which exists
/// or not, as `binary_exists` says), from how `pi --version` went.
pub fn cli_status(probe: &VersionProbe, binary_path: &str, binary_exists: bool) -> (r: PiCliStatus)
    ensures
        r@ == status_of(*probe, binary_path@, binary_exists),
        r@.installed ==> r@.path is Some,
        !r@.installed ==> r@.version is None,
        r@.version matches Some(v) ==> v.len() > 0 && trimmed(v) == v,
{
    if let VersionProbe::Ran { stdout, .. } = probe {
        proof {
            lemma_trimmed_idempotent(utf8_lossy(stdout@));
        }
    }
    match probe {
        VersionProbe::Ran { success, stdout } => {
            if *success {
                let text = lossy_text(stdout.as_slice());
                let version = trim(text.as_str());
                PiCliStatus {
                    installed: true,
                    version: if version.is_empty() {
                        None
                    } else {
                        Some(version.to_owned())
                    },
                    path: Some(binary_path.to_owned()),
                }
            } else {
                PiCliStatus {
                    installed: false,
                    version: None,
                    path: if binary_exists {
                        Some(binary_path.to_owned())
                    } else {
                        None
                    },
                }
            }
        },
        VersionProbe::NotStarted => PiCliStatus { installed: false, version: None, path: None },
    }
}

/// The path that a successful `which pi` (or `where pi`) printed: the first
/// line of its output, read leniently and trimmed, where that is not empty.
pub open spec fn located_path(success: bool, stdout: Seq<u8>) -> Option<Seq<char>> {
    let p = trimmed(first_line(utf8_lossy(stdout)));
    if success && p.len() > 0 {
        Some(p)
    } else {
        None
    }
}

/// The path of the Pi binary that a lookup on the PATH printed, where it
/// succeeded and printed one.
pub fn binary_from_which(success: bool, stdout: &[u8]) -> (r: Option<String>)
    ensures
        match r {
            Some(p) => located_path(success, stdout@) == Some(p@),
            None => located_path(success, stdout@) is None,
        },
{
    if !success {
        return None;
    }
    let text = lossy_text(stdout);
    let path = trim(first_line_of(text.as_str()));
    if path.is_empty() {
        None
    } else {
        Some(path.to_owned())
    }
}

/// The name of the Pi binary: `pi.cmd` on Windows, `pi` elsewhere.
pub fn cli_binary_name(windows: bool) -> (r: &'static str)
    ensures
        r@ == if windows {
            "pi.cmd"@
        } else {
            "pi"@
        },
{
    if windows {
        "pi.cmd"
    } else {
        "pi"
    }
}

/// The program that looks a binary up on the PATH: `where` on Windows,
/// `which` elsewhere.
pub fn path_lookup_program(windows: bool) -> (r: &'static str)
    ensures
        r@ == if windows {
            "where"@
        } else {
            "which"@
        },
{
    if windows {
        "where"
    } else {
        "which"
    }
}

/// How to log in to Pi: the command to run, and what it and the API-key
/// variables are for.
pub fn pi_login() -> (r: Result<PiLoginInfo, String>)
    ensures
        r matches Ok(info) && info.command@ == "pi /login"@ && info.message@
            == "Run `pi /login` in a terminal for OAuth providers, or set provider API-key environment variables such as OPENROUTER_API_KEY, ANTHROPIC_API_KEY, or OPENAI_API_KEY."@,
{
    Ok(
        PiLoginInfo {
            command: "pi /login".to_owned(),
            message: "Run `pi /login` in a terminal for OAuth providers, or set provider API-key environment variables such as OPENROUTER_API_KEY, ANTHROPIC_API_KEY, or OPENAI_API_KEY.".to_owned(),
        },
    )
}

} // verus!

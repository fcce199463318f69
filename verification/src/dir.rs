//! The working directory that the stages of a group share, and the rule by
//! which a stage changes it.

use vstd::prelude::*;
use vstd::string::*;
use crate::error::{CmdError, CmdErrorView, ErrorKind};

verus! {

/// The path that `Path::join` gives for `rel` taken from `base`.
pub uninterp spec fn joined_path(base: Seq<char>, rel: Seq<char>) -> Seq<char>;

/// Calls `std::path::Path::join` on `base` with `rel` and hands the result
/// back as text. On one platform the result depends on the two texts alone;
/// it is given the name [`joined_path`] and nothing more is claimed of it.
#[verifier::external_body]
pub(crate) fn join_path(base: &str, rel: &str) -> (r: String)
    ensures
        r@ == joined_path(base@, rel@),
{
    std::path::Path::new(base).join(rel).to_string_lossy().into_owned()
}

/// What the driver found when it looked at the directory that a stage wants
/// to change to.
#[derive(Debug)]
pub enum DirProbe {
    /// There is no directory at that path.
    Missing,
    /// There is one, but it may not be traversed; the text is the system's
    /// description of the refusal.
    Denied(String),
    /// There is one, and it may be traversed.
    Accessible,
}

/// A [`DirProbe`] as contracts see it.
pub enum DirProbeView {
    Missing,
    Denied(Seq<char>),
    Accessible,
}

impl View for DirProbe {
    type V = DirProbeView;

    open spec fn view(&self) -> DirProbeView {
        match self {
            DirProbe::Missing => DirProbeView::Missing,
            DirProbe::Denied(why) => DirProbeView::Denied(why@),
            DirProbe::Accessible => DirProbeView::Accessible,
        }
    }
}

/// The error for a directory that is not there.
pub open spec fn missing_dir_error(dir: Seq<char>) -> CmdErrorView {
    CmdErrorView {
        kind: ErrorKind::DirectoryChange,
        message: "cd "@ + dir + ": No such file or directory"@,
    }
}

/// What a change to `dir` comes to, given what the driver found there: the
/// new working directory, or the error.
pub open spec fn cd_outcome(dir: Seq<char>, probe: DirProbeView) -> Result<
    Seq<char>,
    CmdErrorView,
> {
    match probe {
        DirProbeView::Missing => Err(missing_dir_error(dir)),
        DirProbeView::Denied(why) => Err(
            CmdErrorView { kind: ErrorKind::DirectoryChange, message: why },
        ),
        DirProbeView::Accessible => Ok(dir),
    }
}

/// Decides a change to `dir` from what the driver found there. The change
/// succeeds exactly when the directory exists and may be traversed.
pub fn enter_dir(dir: String, probe: DirProbe) -> (r: Result<String, CmdError>)
    ensures
        match cd_outcome(dir@, probe@) {
            Ok(d) => r matches Ok(s) && s@ == d,
            Err(e) => r matches Err(f) && f@ == e,
        },
{
    match probe {
        DirProbe::Missing => {
            let message = String::from_str("cd ").concat(dir.as_str()).concat(
                ": No such file or directory",
            );
            Err(CmdError { kind: ErrorKind::DirectoryChange, message })
        },
        DirProbe::Denied(why) => Err(CmdError { kind: ErrorKind::DirectoryChange, message: why }),
        DirProbe::Accessible => Ok(dir),
    }
}

} // verus!

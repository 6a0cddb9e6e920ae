//! The error type of gitpkg's operations.
use vstd::prelude::*;

use crate::text::{extend_str, string_of};

verus! {

broadcast use vstd::string::group_string_axioms;

/// What can go wrong in a gitpkg operation. `Io` carries the message of the
/// underlying I/O error.
#[derive(Clone, Debug, PartialEq, Eq)]
pub enum GitpkgError {
    Io(String),
    HomeNotFound,
    PackageNotFound(String),
    BuildFailed(String),
    CloneFailed,
    Git(String),
    Parse(String),
    PackageManagerNotFound,
    Cancelled,
}

impl GitpkgError {
    /// The text shown to the user for this error.
    pub open spec fn text(&self) -> Seq<char> {
        match self {
            GitpkgError::Io(e) => e@,
            GitpkgError::HomeNotFound => "HOME environment variable is not set"@,
            GitpkgError::PackageNotFound(pkg) => "Package "@ + pkg@ + " is not installed"@,
            GitpkgError::BuildFailed(repo) => "Build failed for "@ + repo@,
            GitpkgError::CloneFailed => "Git clone failed"@,
            GitpkgError::Git(msg) => "Git error: "@ + msg@,
            GitpkgError::Parse(msg) => msg@,
            GitpkgError::PackageManagerNotFound => "No package manager detected"@,
            GitpkgError::Cancelled => "Operation cancelled"@,
        }
    }

    /// The text shown to the user for this error.
    pub fn message(&self) -> (r: String)
        ensures
            r@ == self.text(),
    {
        match self {
            GitpkgError::Io(e) => e.clone(),
            GitpkgError::HomeNotFound => "HOME environment variable is not set".to_string(),
            GitpkgError::PackageNotFound(pkg) => {
                let mut v: Vec<char> = Vec::new();
                extend_str(&mut v, "Package ");
                extend_str(&mut v, pkg.as_str());
                extend_str(&mut v, " is not installed");
                string_of(v.as_slice())
            },
            GitpkgError::BuildFailed(repo) => {
                let mut v: Vec<char> = Vec::new();
                extend_str(&mut v, "Build failed for ");
                extend_str(&mut v, repo.as_str());
                string_of(v.as_slice())
            },
            GitpkgError::CloneFailed => "Git clone failed".to_string(),
            GitpkgError::Git(msg) => {
                let mut v: Vec<char> = Vec::new();
                extend_str(&mut v, "Git error: ");
                extend_str(&mut v, msg.as_str());
                string_of(v.as_slice())
            },
            GitpkgError::Parse(msg) => msg.clone(),
            GitpkgError::PackageManagerNotFound => "No package manager detected".to_string(),
            GitpkgError::Cancelled => "Operation cancelled".to_string(),
        }
    }
}

} // verus!

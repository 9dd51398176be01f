//! The rule on the tool's own files: some must exist before a command runs,
//! some must not.

use vstd::prelude::*;

verus! {

/// What a command needs of a file.
#[derive(Debug, Clone, Copy, PartialEq, Eq, Structural)]
pub enum FileRequirement {
    /// The file must already exist.
    Exists,
    /// The file must not exist yet.
    Missing,
}

/// A file requirement that does not hold.
#[derive(Debug)]
pub enum FileRequirementError {
    /// A required file is missing.
    RequiredFileMissing(String),
    /// A file that must not exist is there.
    MustNotExist(String),
}

/// Checks a requirement on a file, given whether the file exists.
pub fn check_file_requirement(requirement: FileRequirement, path: &str, exists: bool) -> (r: Result<
    (),
    FileRequirementError,
>)
    ensures
        match requirement {
            FileRequirement::Exists => if exists {
                r is Ok
            } else {
                (r matches Err(FileRequirementError::RequiredFileMissing(p)) && p@ == path@)
            },
            FileRequirement::Missing => if exists {
                (r matches Err(FileRequirementError::MustNotExist(p)) && p@ == path@)
            } else {
                r is Ok
            },
        },
{
    match requirement {
        FileRequirement::Exists => if exists {
            Ok(())
        } else {
            Err(FileRequirementError::RequiredFileMissing(String::from_str(path)))
        },
        FileRequirement::Missing => if exists {
            Err(FileRequirementError::MustNotExist(String::from_str(path)))
        } else {
            Ok(())
        },
    }
}

} // verus!

//! What a diagnostic command asks of the session before it may run.

use vstd::prelude::*;

verus! {

/// Whether a firmware archive must be loaded before the command runs.
#[derive(Copy, Clone, Debug, PartialEq, Eq, Structural)]
pub enum Archive {
    /// Load an archive, and fail where none is loaded
    Required,
    /// Load an archive if one is named; run without one otherwise
    Optional,
    /// Load nothing, whatever the invocation names
    Ignored,
}

/// Which sources of a target are acceptable.
#[derive(Copy, Clone, Debug, PartialEq, Eq, Structural)]
pub enum Attach {
    LiveOnly,
    DumpOnly,
    Any,
}

/// What must hold between the loaded archive and the attached target.
#[derive(Copy, Clone, Debug, PartialEq, Eq, Structural)]
pub enum Validate {
    /// The target runs the very image of the archive
    Match,
    /// The target has booted, whatever its image
    Booted,
    /// Nothing is checked
    Nothing,
}

/// A registered command. Its entry point is kept by the driver, under the
/// command's name.
#[derive(Copy, Clone, Debug)]
pub enum Command {
    Attached { name: &'static str, archive: Archive, attach: Attach, validate: Validate },
    Unattached { name: &'static str, archive: Archive },
}

impl Command {
    /// The name under which the command is registered.
    pub open spec fn spec_name(&self) -> Seq<char> {
        match *self {
            Command::Attached { name, .. } => name@,
            Command::Unattached { name, .. } => name@,
        }
    }

    /// The command's archive policy.
    pub open spec fn spec_archive(&self) -> Archive {
        match *self {
            Command::Attached { archive, .. } => archive,
            Command::Unattached { archive, .. } => archive,
        }
    }

    /// The name under which the command is registered.
    pub fn name(&self) -> (n: &'static str)
        ensures
            n@ == self.spec_name(),
    {
        match *self {
            Command::Attached { name, .. } => name,
            Command::Unattached { name, .. } => name,
        }
    }

    /// The command's archive policy.
    pub fn archive(&self) -> (a: Archive)
        ensures
            a == self.spec_archive(),
    {
        match *self {
            Command::Attached { archive, .. } => archive,
            Command::Unattached { archive, .. } => archive,
        }
    }
}

} // verus!

//! The failures that the core reports.

use vstd::prelude::*;
use crate::text::text_of;

verus! {

/// Why a target could not be attached.
#[derive(Clone, Copy, Debug, PartialEq, Eq, Structural)]
pub enum AttachFailure {
    /// A live target was demanded, but the invocation names a dump.
    MustBeLive,
    /// A dump was demanded, but the invocation names none.
    MustBeDump,
    /// A dump can only be interpreted with a loaded archive.
    NoArchive,
    /// The connection itself failed: no probe, several probes, or a target
    /// that cannot be reached.
    Unreachable,
}

/// Every failure of the core.
#[derive(Debug)]
pub enum Error {
    /// Two descriptors carry the same command name; the fields are their
    /// positions in the descriptor set.
    DuplicateCommand { first: usize, second: usize },
    /// The element width of a renderer is not 1, 2 or 4.
    InvalidElementWidth,
    /// The row width of a renderer is zero.
    InvalidRowWidth,
    /// No command of this name is registered.
    UnknownCommand(String),
    /// The archive at this path could not be loaded.
    ArchiveLoad(String),
    /// The dump at this path could not be loaded.
    DumpLoad(String),
    /// The command requires an archive and none is loaded.
    MissingArchive,
    /// No target could be attached.
    Attachment(AttachFailure),
    /// The target does not run the image that the archive describes.
    ValidationMismatch,
    /// The target has not finished booting.
    NotBooted,
    /// Whatever the command itself reported.
    CommandExecution(String),
    /// The driver answered what it was not asked.
    OutOfTurn,
}

impl Error {
    /// Whether the failure is a configuration error.
    pub open spec fn is_configuration(&self) -> bool {
        self is DuplicateCommand || self is InvalidElementWidth || self is InvalidRowWidth
    }
}

/// The number `n` in decimal.
pub open spec fn decimal(n: nat) -> Seq<char>
    decreases n,
{
    let digit = if n % 10 == 0 { '0' } else if n % 10 == 1 { '1' } else if n % 10 == 2 { '2' }
        else if n % 10 == 3 { '3' } else if n % 10 == 4 { '4' } else if n % 10 == 5 { '5' }
        else if n % 10 == 6 { '6' } else if n % 10 == 7 { '7' } else if n % 10 == 8 { '8' }
        else { '9' };
    if n < 10 {
        seq![digit]
    } else {
        decimal(n / 10).push(digit)
    }
}

fn push_decimal(out: &mut Vec<char>, n: usize)
    ensures
        final(out)@ == old(out)@ + decimal(n as nat),
    decreases n,
{
    let ghost start = out@;
    if n >= 10 {
        push_decimal(out, n / 10);
    }
    let digit: char = match n % 10 {
        0 => '0', 1 => '1', 2 => '2', 3 => '3', 4 => '4', 5 => '5', 6 => '6', 7 => '7', 8 => '8',
        _ => '9',
    };
    out.push(digit);
    assert(out@ =~= start + decimal(n as nat));
}

impl AttachFailure {
    /// The failure in words.
    pub open spec fn spec_message(&self) -> Seq<char> {
        match *self {
            AttachFailure::MustBeLive => "must be run against a live system"@,
            AttachFailure::MustBeDump => "must be run against a dump"@,
            AttachFailure::NoArchive => "a dump cannot be read without an archive"@,
            AttachFailure::Unreachable => "no target could be reached"@,
        }
    }
}

impl Error {
    /// The failure in words.
    pub open spec fn spec_message(&self) -> Seq<char> {
        match *self {
            Error::DuplicateCommand { first, second } => "commands "@ + decimal(first as nat)
                + " and "@ + decimal(second as nat) + " share a name"@,
            Error::InvalidElementWidth => "the element size must be 1, 2 or 4"@,
            Error::InvalidRowWidth => "the row width must not be zero"@,
            Error::UnknownCommand(name) => "command "@ + name@ + " not found"@,
            Error::ArchiveLoad(path) => "failed to load archive \""@ + path@ + "\""@,
            Error::DumpLoad(path) => "failed to load dump \""@ + path@ + "\""@,
            Error::MissingArchive => "must provide a Hubris archive or dump"@,
            Error::Attachment(why) => why.spec_message(),
            Error::ValidationMismatch => "the target does not run the image of the archive"@,
            Error::NotBooted => "the target has not booted"@,
            Error::CommandExecution(message) => message@,
            Error::OutOfTurn => "an answer came out of turn"@,
        }
    }

    /// The failure in words, for the user.
    pub fn message(&self) -> (text: String)
        ensures
            text@ == self.spec_message(),
    {
        match self {
            Error::DuplicateCommand { first, second } => {
                let mut a: Vec<char> = Vec::new();
                push_decimal(&mut a, *first);
                assert(a@ =~= decimal(*first as nat));
                let mut b: Vec<char> = Vec::new();
                push_decimal(&mut b, *second);
                assert(b@ =~= decimal(*second as nat));
                let mut text: String = "commands ".to_owned();
                text.append(text_of(&a).as_str());
                text.append(" and ");
                text.append(text_of(&b).as_str());
                text.append(" share a name");
                text
            },
            Error::InvalidElementWidth => "the element size must be 1, 2 or 4".to_owned(),
            Error::InvalidRowWidth => "the row width must not be zero".to_owned(),
            Error::UnknownCommand(name) => {
                let mut text: String = "command ".to_owned();
                text.append(name.as_str());
                text.append(" not found");
                text
            },
            Error::ArchiveLoad(path) => {
                let mut text: String = "failed to load archive \"".to_owned();
                text.append(path.as_str());
                text.append("\"");
                text
            },
            Error::DumpLoad(path) => {
                let mut text: String = "failed to load dump \"".to_owned();
                text.append(path.as_str());
                text.append("\"");
                text
            },
            Error::MissingArchive => "must provide a Hubris archive or dump".to_owned(),
            Error::Attachment(why) => match why {
                AttachFailure::MustBeLive => "must be run against a live system".to_owned(),
                AttachFailure::MustBeDump => "must be run against a dump".to_owned(),
                AttachFailure::NoArchive => "a dump cannot be read without an archive".to_owned(),
                AttachFailure::Unreachable => "no target could be reached".to_owned(),
            },
            Error::ValidationMismatch => "the target does not run the image of the archive".to_owned(),
            Error::NotBooted => "the target has not booted".to_owned(),
            Error::CommandExecution(message) => message.clone(),
            Error::OutOfTurn => "an answer came out of turn".to_owned(),
        }
    }
}

} // verus!

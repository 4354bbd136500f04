//! Attachment and validation: how a session comes by its target, and whether
//! the target may be trusted. The driver opens the connection and reads the
//! target; what to open, and what follows from what was read, is decided here.

use vstd::prelude::*;
use crate::command::{Attach, Validate};
use crate::error::{AttachFailure, Error};

verus! {

/// What an invocation names, besides the command itself.
#[derive(Debug)]
pub struct Invocation {
    /// The path of a firmware archive
    pub archive: Option<String>,
    /// The path of a dump
    pub dump: Option<String>,
    /// The probe to attach through; none stands for autodetection
    pub probe: Option<String>,
    /// The command's name and its own arguments
    pub cmd: Vec<String>,
}

/// The state of a session, which outlives the single dispatch.
#[derive(Debug)]
pub struct ExecutionContext {
    /// The arguments of the current dispatch
    pub cli: Invocation,
    /// The image identifier of the loaded archive, if one is loaded
    pub archive: Option<Vec<u8>>,
    /// Whether a target is attached
    pub core: bool,
}

/// What the driver reads off the attached target for validation.
#[derive(Debug)]
pub struct Target {
    /// The identifier of the image that the target runs
    pub image_id: Vec<u8>,
    /// Whether the target has finished booting
    pub booted: bool,
}

/// A target to connect to.
#[derive(Debug)]
pub enum Source {
    /// A live target, through the named probe
    Live { probe: String },
    /// The dump at this path
    Dump { path: String },
}

/// How an attachment comes about.
#[derive(Debug)]
pub enum Connect {
    /// The session is attached already: nothing is opened
    Reuse,
    /// The driver opens this source
    Open(Source),
}

/// The probe that stands for autodetection.
pub open spec fn auto_probe() -> Seq<char> {
    "auto"@
}

/// The outcome of attaching live: refused where the invocation names a
/// dump, else through the named probe or by autodetection.
pub open spec fn live_outcome(args: &Invocation, r: Result<Source, Error>) -> bool {
    if args.dump is Some {
        r matches Err(Error::Attachment(AttachFailure::MustBeLive))
    } else {
        match r {
            Ok(Source::Live { probe }) => probe@ == (match args.probe {
                Some(p) => p@,
                None => auto_probe(),
            }),
            _ => false,
        }
    }
}

/// The outcome of attaching to a dump: refused where the invocation names
/// none, or where no archive is loaded to interpret it.
pub open spec fn dump_outcome(args: &Invocation, loaded: bool, r: Result<Source, Error>) -> bool {
    if args.dump is None {
        r matches Err(Error::Attachment(AttachFailure::MustBeDump))
    } else if !loaded {
        r matches Err(Error::Attachment(AttachFailure::NoArchive))
    } else {
        match r {
            Ok(Source::Dump { path }) => path@ == args.dump->0@,
            _ => false,
        }
    }
}

/// Whether the mode chooses the dump: always, never, or where one is named.
pub open spec fn prefers_dump(mode: Attach, args: &Invocation) -> bool {
    match mode {
        Attach::LiveOnly => false,
        Attach::DumpOnly => true,
        Attach::Any => args.dump is Some,
    }
}

/// The outcome of choosing a source by the mode.
pub open spec fn source_outcome(
    context: &ExecutionContext,
    mode: Attach,
    r: Result<Source, Error>,
) -> bool {
    if prefers_dump(mode, &context.cli) {
        dump_outcome(&context.cli, context.archive is Some, r)
    } else {
        live_outcome(&context.cli, r)
    }
}

/// The outcome of an attachment: an attached session reuses its target,
/// another opens the source that the mode chooses.
pub open spec fn attach_outcome(
    context: &ExecutionContext,
    mode: Attach,
    r: Result<Connect, Error>,
) -> bool {
    if context.core {
        r matches Ok(Connect::Reuse)
    } else {
        match r {
            Ok(Connect::Reuse) => false,
            Ok(Connect::Open(s)) => source_outcome(context, mode, Ok(s)),
            Err(e) => source_outcome(context, mode, Err(e)),
        }
    }
}

/// What recording a connection does to a session: it is attached if it was,
/// or if the connection was opened; nothing else changes.
pub open spec fn recorded(before: &ExecutionContext, opened: bool, after: &ExecutionContext) -> bool {
    &&& after.core == (before.core || opened)
    &&& after.cli == before.cli
    &&& after.archive == before.archive
}

/// What validation yields for a policy, the loaded archive and the target.
pub open spec fn validate_outcome(policy: Validate, archive: Option<Seq<u8>>, target: &Target) -> Result<
    (),
    Error,
> {
    match policy {
        Validate::Match => if archive == Some(target.image_id@) {
            Ok(())
        } else {
            Err(Error::ValidationMismatch)
        },
        Validate::Booted => if target.booted {
            Ok(())
        } else {
            Err(Error::NotBooted)
        },
        Validate::Nothing => Ok(()),
    }
}

/// The image identifier of the session's archive.
pub open spec fn archive_id(context: &ExecutionContext) -> Option<Seq<u8>> {
    match context.archive {
        Some(id) => Some(id@),
        None => None,
    }
}

/// The live source of an invocation.
pub fn attach_live(args: &Invocation) -> (r: Result<Source, Error>)
    ensures
        live_outcome(args, r),
{
    if args.dump.is_some() {
        Err(Error::Attachment(AttachFailure::MustBeLive))
    } else {
        let probe: String = match &args.probe {
            Some(p) => p.clone(),
            None => "auto".to_owned(),
        };
        Ok(Source::Live { probe })
    }
}

/// The dump of an invocation; `loaded` says whether an archive is loaded.
pub fn attach_dump(args: &Invocation, loaded: bool) -> (r: Result<Source, Error>)
    ensures
        dump_outcome(args, loaded, r),
{
    match &args.dump {
        Some(dump) => {
            if loaded {
                Ok(Source::Dump { path: dump.clone() })
            } else {
                Err(Error::Attachment(AttachFailure::NoArchive))
            }
        },
        None => Err(Error::Attachment(AttachFailure::MustBeDump)),
    }
}

/// Decides how the session comes by its target.
pub fn attach(context: &ExecutionContext, mode: Attach) -> (r: Result<Connect, Error>)
    ensures
        attach_outcome(context, mode, r),
{
    if context.core {
        return Ok(Connect::Reuse);
    }
    let loaded: bool = context.archive.is_some();
    let source = match mode {
        Attach::LiveOnly => attach_live(&context.cli),
        Attach::DumpOnly => attach_dump(&context.cli, loaded),
        Attach::Any => {
            if context.cli.dump.is_some() {
                attach_dump(&context.cli, loaded)
            } else {
                attach_live(&context.cli)
            }
        },
    };
    match source {
        Ok(s) => Ok(Connect::Open(s)),
        Err(e) => Err(e),
    }
}

/// Records what became of the connection that the driver was asked to open.
/// An attached session stays attached.
pub fn connected(context: &mut ExecutionContext, opened: bool) -> (r: Result<(), Error>)
    ensures
        recorded(old(context), opened, final(context)),
        final(context).core ==> r is Ok,
        !final(context).core ==> r matches Err(Error::Attachment(AttachFailure::Unreachable)),
{
    if opened {
        context.core = true;
    }
    if context.core {
        Ok(())
    } else {
        Err(Error::Attachment(AttachFailure::Unreachable))
    }
}

/// Whether two identifiers hold the same bytes.
fn same_bytes(a: &[u8], b: &[u8]) -> (same: bool)
    ensures
        same == (a@ == b@),
{
    if a.len() != b.len() {
        return false;
    }
    let mut i: usize = 0;
    while i < a.len()
        invariant
            a@.len() == b@.len(),
            i <= a@.len(),
            forall|k: int| 0 <= k < i ==> a@[k] == b@[k],
        decreases a@.len() - i,
    {
        if a[i] != b[i] {
            return false;
        }
        i += 1;
    }
    assert(a@ =~= b@);
    true
}

/// Validates the attached target against the session's archive. Only where
/// this succeeds may the command run.
pub fn validate(context: &ExecutionContext, policy: Validate, target: &Target) -> (r: Result<
    (),
    Error,
>)
    ensures
        r == validate_outcome(policy, archive_id(context), target),
{
    match policy {
        Validate::Match => {
            let same: bool = match &context.archive {
                Some(id) => same_bytes(id.as_slice(), target.image_id.as_slice()),
                None => false,
            };
            if same {
                Ok(())
            } else {
                Err(Error::ValidationMismatch)
            }
        },
        Validate::Booted => {
            if target.booted {
                Ok(())
            } else {
                Err(Error::NotBooted)
            }
        },
        Validate::Nothing => Ok(()),
    }
}

/// An attached session never opens a second connection: once a connection
/// is recorded, every later attachment reuses it, whatever its mode.
pub proof fn lemma_attach_once(
    before: &ExecutionContext,
    after: &ExecutionContext,
    mode: Attach,
    r: Result<Connect, Error>,
)
    requires
        recorded(before, true, after),
        attach_outcome(after, mode, r),
    ensures
        r matches Ok(Connect::Reuse),
{
}

/// Where the target's image differs from the archive's, a match fails as a
/// mismatch: the command does not run.
pub proof fn lemma_mismatch_fails(archive: Option<Seq<u8>>, target: &Target)
    requires
        archive != Some(target.image_id@),
    ensures
        validate_outcome(Validate::Match, archive, target) == Err::<(), Error>(
            Error::ValidationMismatch,
        ),
{
}

} // verus!

//! One dispatch as a state machine. The driver does what an action asks,
//! answers with an event, and runs the command only when it is told to: by
//! then the archive policy and the validation policy of the command are met.

use vstd::prelude::*;
use crate::attach::{
    archive_id, attach, attach_outcome, connected, recorded, validate, validate_outcome, Connect,
    ExecutionContext, Source, Target,
};
use crate::cmd::{
    load_outcome, loaded, loaded_outcome, subcommand, subcommand_outcome, Load, Loaded, Next,
    Registry,
};
use crate::command::{Archive, Command, Validate};
use crate::error::Error;

verus! {

/// What the driver is asked to do next.
#[derive(Debug)]
pub enum Action {
    /// Load the archive at this path, and answer with `Event::Loaded`
    LoadArchive(String),
    /// Load the dump at this path, and answer with `Event::Loaded`
    LoadDump(String),
    /// Connect to this source, and answer with `Event::Opened`
    Open(Source),
    /// Read the attached target, and answer with `Event::Inspected`
    Inspect,
    /// Run the command: the dispatch is over
    Run(Command),
}

/// What the driver answers.
#[derive(Debug)]
pub enum Event {
    Loaded(Loaded),
    Opened(bool),
    Inspected(Target),
}

/// How far a dispatch has come.
#[derive(Debug)]
pub enum Stage {
    /// A load was asked for
    Loading(Load),
    /// A connection was asked for; the validation is still to come
    Opening(Validate),
    /// The target is being read for this validation
    Inspecting(Validate),
    /// The command was told to run
    Running,
    /// The dispatch failed
    Failed,
}

/// One dispatch of one command.
#[derive(Debug)]
pub struct Dispatch {
    pub command: Command,
    pub stage: Stage,
}

/// The archive policy of the command is met.
pub open spec fn cleared(command: Command, context: &ExecutionContext) -> bool {
    command.spec_archive() == Archive::Required ==> context.archive is Some
}

/// The validation policy of the command, if it attaches.
pub open spec fn policy(command: Command) -> Option<Validate> {
    match command {
        Command::Attached { validate, .. } => Some(validate),
        Command::Unattached { .. } => None,
    }
}

/// What asking for a load looks like.
pub open spec fn asks(load: Load, r: Result<Action, Error>) -> bool {
    match load {
        Load::Skip => false,
        Load::Archive(path) => r matches Ok(Action::LoadArchive(p)) && p@ == path@,
        Load::Dump(path) => r matches Ok(Action::LoadDump(p)) && p@ == path@,
    }
}

/// The command is told to run.
pub open spec fn runs(command: Command, stage: Stage, r: Result<Action, Error>) -> bool {
    stage is Running && r == Ok::<Action, Error>(Action::Run(command))
}

/// What follows an attachment: the command runs where nothing is to be
/// validated, else the target is read.
pub open spec fn check_outcome(command: Command, v: Validate, stage: Stage, r: Result<Action, Error>) -> bool {
    if v == Validate::Nothing {
        runs(command, stage, r)
    } else {
        stage == Stage::Inspecting(v) && r is Ok && r->Ok_0 is Inspect
    }
}

/// What follows once the archive is seen to: a failure ends the dispatch, an
/// unattached command runs, an attached one reuses the session's target or
/// asks for a connection.
pub open spec fn enter_outcome(
    command: Command,
    context: &ExecutionContext,
    next: Result<Next, Error>,
    stage: Stage,
    r: Result<Action, Error>,
) -> bool {
    match next {
        Err(e) => stage is Failed && r == Err::<Action, Error>(e),
        Ok(Next::Run) => runs(command, stage, r),
        Ok(Next::Attach { mode, validate }) => exists|a: Result<Connect, Error>|
            #[trigger] attach_outcome(context, mode, a) && match a {
                Err(e) => stage is Failed && r == Err::<Action, Error>(e),
                Ok(Connect::Reuse) => check_outcome(command, validate, stage, r),
                Ok(Connect::Open(s)) => stage == Stage::Opening(validate) && r == Ok::<
                    Action,
                    Error,
                >(Action::Open(s)),
            },
    }
}

/// What the start of a dispatch leads to: an unknown name fails; where
/// something is to be loaded the driver is asked to; else the dispatch goes
/// on as after a load.
pub open spec fn begin_outcome(
    before: &ExecutionContext,
    commands: &Registry,
    name: Seq<char>,
    after: &ExecutionContext,
    r: Result<(Dispatch, Action), Error>,
) -> bool {
    exists|found: Result<(Command, Load), Error>| #[trigger]
        subcommand_outcome(before, commands, name, found) && match found {
            Err(e) => r == Err::<(Dispatch, Action), Error>(e) && after == before,
            Ok((command, load)) => if load is Skip {
                exists|next: Result<Next, Error>| #[trigger]
                    loaded_outcome(before, command, load, Loaded::Failed, after, next) && match r {
                        Ok((d, action)) => d.command == command && enter_outcome(
                            command,
                            after,
                            next,
                            d.stage,
                            Ok(action),
                        ),
                        Err(e) => enter_outcome(command, after, next, Stage::Failed, Err(e)),
                    }
            } else {
                &&& after == before
                &&& r matches Ok((d, action)) && d.command == command && d.stage == Stage::Loading(
                    load,
                ) && asks(load, Ok(action))
            },
        }
}

/// What an answer leads to. An answer that was not asked for fails the
/// dispatch as out of turn.
pub open spec fn advance_outcome(
    command: Command,
    stage: Stage,
    before: &ExecutionContext,
    event: Event,
    after_stage: Stage,
    after: &ExecutionContext,
    r: Result<Action, Error>,
) -> bool {
    match (stage, event) {
        (Stage::Loading(load), Event::Loaded(outcome)) => exists|next: Result<Next, Error>|
            #[trigger] loaded_outcome(before, command, load, outcome, after, next)
                && enter_outcome(command, after, next, after_stage, r),
        (Stage::Opening(v), Event::Opened(opened)) => {
            &&& recorded(before, opened, after)
            &&& if after.core {
                check_outcome(command, v, after_stage, r)
            } else {
                after_stage is Failed && r is Err
            }
        },
        (Stage::Inspecting(v), Event::Inspected(target)) => {
            &&& after == before
            &&& match validate_outcome(v, archive_id(before), &target) {
                Ok(_) => runs(command, after_stage, r),
                Err(e) => after_stage is Failed && r == Err::<Action, Error>(e),
            }
        },
        _ => after == before && after_stage is Failed && r matches Err(Error::OutOfTurn),
    }
}

impl Dispatch {
    /// What holds of a dispatch under way: a load that is asked for follows
    /// from the command's policy, and nothing is asked of the target before
    /// the archive policy is met.
    pub open spec fn wf(&self, context: &ExecutionContext) -> bool {
        match self.stage {
            Stage::Loading(load) => !(load is Skip) && load_outcome(
                self.command.spec_archive(),
                &context.cli,
                load,
            ),
            Stage::Opening(v) => cleared(self.command, context) && policy(self.command) == Some(v),
            Stage::Inspecting(v) => cleared(self.command, context) && context.core && policy(
                self.command,
            ) == Some(v),
            Stage::Running => true,
            Stage::Failed => true,
        }
    }

    fn check(&mut self, v: Validate) -> (r: Result<Action, Error>)
        ensures
            final(self).command == old(self).command,
            check_outcome(old(self).command, v, final(self).stage, r),
    {
        match v {
            Validate::Nothing => {
                self.stage = Stage::Running;
                Ok(Action::Run(self.command))
            },
            _ => {
                self.stage = Stage::Inspecting(v);
                Ok(Action::Inspect)
            },
        }
    }

    fn enter(&mut self, context: &ExecutionContext, next: Result<Next, Error>) -> (r: Result<
        Action,
        Error,
    >)
        ensures
            final(self).command == old(self).command,
            enter_outcome(old(self).command, context, next, final(self).stage, r),
    {
        match next {
            Err(e) => {
                self.stage = Stage::Failed;
                Err(e)
            },
            Ok(Next::Run) => {
                self.stage = Stage::Running;
                Ok(Action::Run(self.command))
            },
            Ok(Next::Attach { mode, validate }) => {
                let a = attach(context, mode);
                match a {
                    Err(e) => {
                        self.stage = Stage::Failed;
                        Err(e)
                    },
                    Ok(Connect::Reuse) => self.check(validate),
                    Ok(Connect::Open(s)) => {
                        self.stage = Stage::Opening(validate);
                        Ok(Action::Open(s))
                    },
                }
            },
        }
    }

    /// Starts the dispatch of the command of this name.
    pub fn begin(context: &mut ExecutionContext, commands: &Registry, name: &str) -> (r: Result<
        (Dispatch, Action),
        Error,
    >)
        ensures
            begin_outcome(old(context), commands, name@, final(context), r),
    {
        let found = subcommand(context, commands, name);
        match found {
            Err(e) => Err(e),
            Ok((command, load)) => {
                match load {
                    Load::Skip => {
                        let next = loaded(context, command, Load::Skip, Loaded::Failed);
                        let mut d = Dispatch { command, stage: Stage::Failed };
                        match d.enter(context, next) {
                            Ok(action) => Ok((d, action)),
                            Err(e) => Err(e),
                        }
                    },
                    Load::Archive(path) => {
                        let action = Action::LoadArchive(path.clone());
                        Ok((Dispatch { command, stage: Stage::Loading(Load::Archive(path)) }, action))
                    },
                    Load::Dump(path) => {
                        let action = Action::LoadDump(path.clone());
                        Ok((Dispatch { command, stage: Stage::Loading(Load::Dump(path)) }, action))
                    },
                }
            },
        }
    }

    /// Takes the driver's answer and says what is next.
    pub fn advance(&mut self, context: &mut ExecutionContext, event: Event) -> (r: Result<
        Action,
        Error,
    >)
        ensures
            final(self).command == old(self).command,
            advance_outcome(
                old(self).command,
                old(self).stage,
                old(context),
                event,
                final(self).stage,
                final(context),
                r,
            ),
    {
        let mut stage = Stage::Failed;
        core::mem::swap(&mut self.stage, &mut stage);
        match (stage, event) {
            (Stage::Loading(load), Event::Loaded(outcome)) => {
                let next = loaded(context, self.command, load, outcome);
                self.enter(context, next)
            },
            (Stage::Opening(v), Event::Opened(opened)) => {
                match connected(context, opened) {
                    Ok(_) => self.check(v),
                    Err(e) => Err(e),
                }
            },
            (Stage::Inspecting(v), Event::Inspected(target)) => {
                match validate(context, v, &target) {
                    Ok(_) => {
                        self.stage = Stage::Running;
                        Ok(Action::Run(self.command))
                    },
                    Err(e) => Err(e),
                }
            },
            _ => Err(Error::OutOfTurn),
        }
    }
}

/// A dispatch that is under way stays so.
pub proof fn lemma_advance_keeps_order(
    command: Command,
    stage: Stage,
    before: &ExecutionContext,
    event: Event,
    after_stage: Stage,
    after: &ExecutionContext,
    r: Result<Action, Error>,
)
    requires
        (Dispatch { command, stage }).wf(before),
        advance_outcome(command, stage, before, event, after_stage, after, r),
    ensures
        (Dispatch { command, stage: after_stage }).wf(after),
{
}

/// The command is told to run only once its policies are met: its
/// archive policy holds of the session, and if it attaches, the session is
/// attached and the target that was read passes the command's validation,
/// unless the command asks for none.
pub proof fn lemma_run_is_cleared(
    command: Command,
    stage: Stage,
    before: &ExecutionContext,
    event: Event,
    after_stage: Stage,
    after: &ExecutionContext,
    r: Result<Action, Error>,
)
    requires
        (Dispatch { command, stage }).wf(before),
        advance_outcome(command, stage, before, event, after_stage, after, r),
        r is Ok,
        r->Ok_0 is Run,
    ensures
        r->Ok_0->Run_0 == command,
        cleared(command, after),
        policy(command) is Some ==> after.core,
        match policy(command) {
            Some(Validate::Nothing) => true,
            Some(v) => event matches Event::Inspected(target) && validate_outcome(
                v,
                archive_id(after),
                &target,
            ) is Ok,
            None => true,
        },
{
}

/// Where the target does not run the archive's image, a command that asks
/// for a match is not told to run: the dispatch fails as a mismatch.
pub proof fn lemma_mismatch_never_runs(
    command: Command,
    before: &ExecutionContext,
    target: Target,
    after_stage: Stage,
    after: &ExecutionContext,
    r: Result<Action, Error>,
)
    requires
        archive_id(before) != Some(target.image_id@),
        advance_outcome(
            command,
            Stage::Inspecting(Validate::Match),
            before,
            Event::Inspected(target),
            after_stage,
            after,
            r,
        ),
    ensures
        r matches Err(Error::ValidationMismatch),
        after_stage is Failed,
{
}

/// A dispatch that began is under way in order, and began without touching
/// the attachment. If it tells the command to run at once, the archive
/// policy is met, and a command that attaches is attached and asks for no
/// validation.
pub proof fn lemma_begin_in_order(
    before: &ExecutionContext,
    commands: &Registry,
    name: Seq<char>,
    after: &ExecutionContext,
    r: Result<(Dispatch, Action), Error>,
)
    requires
        begin_outcome(before, commands, name, after, r),
    ensures
        after.core == before.core,
        after.cli == before.cli,
        r is Ok ==> r->Ok_0.0.wf(after),
        r is Ok ==> r->Ok_0.0.command.spec_name() == name && commands@.contains(r->Ok_0.0.command),
        r is Ok && r->Ok_0.1 is Run ==> {
            &&& r->Ok_0.1->Run_0 == r->Ok_0.0.command
            &&& cleared(r->Ok_0.0.command, after)
            &&& policy(r->Ok_0.0.command) is Some ==> after.core && policy(r->Ok_0.0.command)
                == Some(Validate::Nothing)
        },
{
}

/// An attached session is not asked to connect when a dispatch begins,
/// whatever the command's mode and validation, and stays attached.
pub proof fn lemma_attached_begins_without_opening(
    before: &ExecutionContext,
    commands: &Registry,
    name: Seq<char>,
    after: &ExecutionContext,
    r: Result<(Dispatch, Action), Error>,
)
    requires
        before.core,
        begin_outcome(before, commands, name, after, r),
    ensures
        after.core,
        !(r is Ok && r->Ok_0.1 is Open),
        !(r is Ok && r->Ok_0.0.stage is Opening),
{
}

/// An attached session is not asked to connect while a dispatch goes on,
/// and stays attached.
pub proof fn lemma_attached_advances_without_opening(
    command: Command,
    stage: Stage,
    before: &ExecutionContext,
    event: Event,
    after_stage: Stage,
    after: &ExecutionContext,
    r: Result<Action, Error>,
)
    requires
        before.core,
        advance_outcome(command, stage, before, event, after_stage, after, r),
    ensures
        after.core,
        !(r is Ok && r->Ok_0 is Open),
        !(after_stage is Opening),
{
}

/// A command that ignores the archive is dispatched without a load,
/// whatever paths the invocation names.
pub proof fn lemma_ignored_never_loads(
    before: &ExecutionContext,
    commands: &Registry,
    name: Seq<char>,
    after: &ExecutionContext,
    r: Result<(Dispatch, Action), Error>,
)
    requires
        begin_outcome(before, commands, name, after, r),
        r is Ok,
        r->Ok_0.0.command.spec_archive() == Archive::Ignored,
    ensures
        !(r->Ok_0.1 is LoadArchive),
        !(r->Ok_0.1 is LoadDump),
        !(r->Ok_0.0.stage is Loading),
        crate::attach::archive_id(after) == crate::attach::archive_id(before),
{
}

/// A command that requires an archive fails at the beginning for want of
/// one, where the invocation names neither archive nor dump and the session
/// holds none: nothing is loaded, nothing is attached.
pub proof fn lemma_required_fails_early(
    before: &ExecutionContext,
    commands: &Registry,
    name: Seq<char>,
    after: &ExecutionContext,
    r: Result<(Dispatch, Action), Error>,
)
    requires
        begin_outcome(before, commands, name, after, r),
        forall|i: int|
            0 <= i < commands@.len() && (#[trigger] commands@[i]).spec_name() == name
                ==> commands@[i].spec_archive() == Archive::Required,
        exists|i: int| 0 <= i < commands@.len() && (#[trigger] commands@[i]).spec_name() == name,
        before.cli.archive is None,
        before.cli.dump is None,
        before.archive is None,
    ensures
        r matches Err(Error::MissingArchive),
        after.core == before.core,
        after.archive is None,
{
}

} // verus!

//! The command registry and the dispatcher: the descriptor set becomes a
//! table of commands by name and one grammar, and a dispatch finds its
//! command and sees to the archive before anything runs.

use vstd::prelude::*;
use crate::attach::{ExecutionContext, Invocation};
use crate::command::{Archive, Attach, Command, Validate};
use crate::error::Error;
use crate::grammar::{grammar_name, grammar_subcommands, with_after_help, with_subcommand};
use crate::repl::{shell_command, shell_name};
use crate::text::same_text;

verus! {

/// One command of the descriptor set: the command, its grammar, and the
/// text that its help ends with.
#[derive(Debug)]
pub struct CommandDescription {
    pub command: Command,
    pub grammar: clap::App<'static>,
    pub docmsg: &'static str,
}

/// The text that the help of the shell's command ends with.
pub open spec fn shell_doc() -> Seq<char> {
    "For additional documentation, run \"humility doc repl\""@
}

/// Command `i` of the whole descriptor set: the given descriptors, and the
/// shell's behind them.
pub open spec fn nth_command(dcmds: Seq<CommandDescription>, i: int) -> Command {
    if i < dcmds.len() {
        dcmds[i].command
    } else {
        shell_command()
    }
}

/// Grammar entry `i` of the whole descriptor set: a name, and the text
/// after the help.
pub open spec fn nth_entry(dcmds: Seq<CommandDescription>, i: int) -> (Seq<char>, Option<Seq<char>>) {
    if i < dcmds.len() {
        (grammar_name(dcmds[i].grammar), Some(dcmds[i].docmsg@))
    } else {
        (shell_name(), Some(shell_doc()))
    }
}

/// The commands of the whole descriptor set.
pub open spec fn all_commands(dcmds: Seq<CommandDescription>) -> Seq<Command> {
    Seq::new(dcmds.len() + 1, |i: int| nth_command(dcmds, i))
}

/// The grammar entries of the whole descriptor set.
pub open spec fn all_entries(dcmds: Seq<CommandDescription>) -> Seq<(Seq<char>, Option<Seq<char>>)> {
    Seq::new(dcmds.len() + 1, |i: int| nth_entry(dcmds, i))
}

/// No two of the commands share a name.
pub open spec fn distinct_names(cmds: Seq<Command>) -> bool {
    forall|i: int, j: int|
        0 <= i < j < cmds.len() ==> cmds[i].spec_name() != cmds[j].spec_name()
}

/// None of the commands has this name.
pub open spec fn absent(cmds: Seq<Command>, name: Seq<char>) -> bool {
    forall|i: int| 0 <= i < cmds.len() ==> (#[trigger] cmds[i]).spec_name() != name
}

/// The table of commands, by name.
#[derive(Debug)]
pub struct Registry {
    commands: Vec<Command>,
}

impl Registry {
    /// The commands of the table, in the order of the descriptor set.
    pub closed spec fn view(&self) -> Seq<Command> {
        self.commands@
    }

    /// Each name stands for one command.
    pub open spec fn wf(&self) -> bool {
        distinct_names(self@)
    }

    /// The number of commands.
    pub fn len(&self) -> (n: usize)
        ensures
            n == self@.len(),
    {
        self.commands.len()
    }

    /// The command of this name, if there is one.
    pub fn get(&self, name: &str) -> (r: Option<Command>)
        ensures
            match r {
                Some(c) => c.spec_name() == name@ && self@.contains(c),
                None => absent(self@, name@),
            },
    {
        let mut i: usize = 0;
        while i < self.commands.len()
            invariant
                i <= self.commands@.len(),
                absent(self.commands@.take(i as int), name@),
            decreases self.commands@.len() - i,
        {
            let c: Command = self.commands[i];
            if same_text(c.name(), name) {
                return Some(c);
            }
            let ghost upto = self.commands@.take(i + 1);
            assert forall|k: int| 0 <= k < upto.len() implies (#[trigger] upto[k]).spec_name()
                != name@ by {
                if k < i {
                    assert(self.commands@.take(i as int)[k] == self.commands@[k]);
                }
            }
            i += 1;
        }
        assert(self.commands@.take(i as int) =~= self.commands@);
        None
    }
}

/// What the registry is built to: with distinct names a table of all the
/// commands and the base grammar with one more subcommand for each, in the
/// order of the descriptor set; else the first collision, by the positions of
/// the two descriptors.
pub open spec fn init_outcome(
    base: clap::App<'static>,
    dcmds: Seq<CommandDescription>,
    r: Result<(Registry, clap::App<'static>), Error>,
) -> bool {
    let cmds = all_commands(dcmds);
    match r {
        Ok((registry, grammar)) => {
            &&& distinct_names(cmds)
            &&& registry@ == cmds
            &&& grammar_name(grammar) == grammar_name(base)
            &&& grammar_subcommands(grammar) == grammar_subcommands(base) + all_entries(dcmds)
        },
        Err(Error::DuplicateCommand { first, second }) => {
            &&& first < second < cmds.len()
            &&& cmds[first as int].spec_name() == cmds[second as int].spec_name()
            &&& distinct_names(cmds.take(second as int))
            &&& absent(cmds.take(first as int), cmds[second as int].spec_name())
        },
        Err(_) => false,
    }
}

/// Builds the registry from the descriptors of the commands; the shell's
/// own descriptor is added behind them.
pub fn init(command: clap::App<'static>, dcmds: Vec<CommandDescription>) -> (r: Result<
    (Registry, clap::App<'static>),
    Error,
>)
    ensures
        init_outcome(command, dcmds@, r),
{
    let ghost given = dcmds@;
    let ghost base = command;
    let ghost cmds = all_commands(given);
    let mut rest = dcmds;
    let (shell, shell_grammar) = crate::repl::init();
    rest.push(
        CommandDescription {
            command: shell,
            grammar: shell_grammar,
            docmsg: "For additional documentation, run \"humility doc repl\"",
        },
    );
    let ghost all = rest@;
    let n: usize = rest.len();
    assert(forall|k: int| 0 <= k < n ==> (#[trigger] all[k]).command == cmds[k]);
    assert(forall|k: int|
        0 <= k < n ==> (grammar_name((#[trigger] all[k]).grammar), Some(all[k].docmsg@))
            == all_entries(given)[k]);

    let mut i: usize = 0;
    while i < n
        invariant
            i <= n,
            n == cmds.len(),
            cmds == all_commands(dcmds@),
            rest@ == all,
            all.len() == n,
            forall|k: int| 0 <= k < n ==> (#[trigger] all[k]).command == cmds[k],
            distinct_names(cmds.take(i as int)),
        decreases n - i,
    {
        let mut j: usize = 0;
        while j < i
            invariant
                j <= i < n,
                n == cmds.len(),
                cmds == all_commands(dcmds@),
                rest@ == all,
                all.len() == n,
                forall|k: int| 0 <= k < n ==> (#[trigger] all[k]).command == cmds[k],
                distinct_names(cmds.take(i as int)),
                absent(cmds.take(j as int), cmds[i as int].spec_name()),
            decreases i - j,
        {
            if same_text(rest[j].command.name(), rest[i].command.name()) {
                assert(all[j as int].command == cmds[j as int]);
                assert(all[i as int].command == cmds[i as int]);
                return Err(Error::DuplicateCommand { first: j, second: i });
            }
            assert(all[j as int].command == cmds[j as int]);
            assert(all[i as int].command == cmds[i as int]);
            let ghost upto = cmds.take(j + 1);
            assert forall|k: int| 0 <= k < upto.len() implies (#[trigger] upto[k]).spec_name()
                != cmds[i as int].spec_name() by {
                if k < j {
                    assert(cmds.take(j as int)[k] == cmds[k]);
                }
            }
            j += 1;
        }
        let ghost upto = cmds.take(i + 1);
        assert forall|a: int, b: int| 0 <= a < b < upto.len() implies (#[trigger] upto[a]).spec_name()
            != (#[trigger] upto[b]).spec_name() by {
            if b < i {
                assert(cmds.take(i as int)[a] == cmds[a]);
                assert(cmds.take(i as int)[b] == cmds[b]);
            } else {
                assert(cmds.take(i as int)[a] == cmds[a]);
            }
        }
        i += 1;
    }
    assert(cmds.take(n as int) =~= cmds);

    let mut table: Vec<Command> = Vec::new();
    let mut rval = command;
    let mut k: usize = 0;
    assert(grammar_subcommands(base) + all_entries(given).take(0) =~= grammar_subcommands(base));
    while k < n
        invariant
            k <= n,
            n == cmds.len(),
            cmds == all_commands(dcmds@),
            all.len() == n,
            rest@ == all.subrange(k as int, n as int),
            forall|m: int| 0 <= m < n ==> (#[trigger] all[m]).command == cmds[m],
            forall|m: int|
                0 <= m < n ==> (grammar_name((#[trigger] all[m]).grammar), Some(all[m].docmsg@))
                    == all_entries(given)[m],
            all_entries(given).len() == n,
            table@ == cmds.take(k as int),
            grammar_name(rval) == grammar_name(base),
            grammar_subcommands(rval) == grammar_subcommands(base) + all_entries(given).take(
                k as int,
            ),
        decreases n - k,
    {
        assert(rest@[0] == all[k as int]);
        let d = rest.remove(0);
        assert(rest@ =~= all.subrange(k + 1, n as int));
        table.push(d.command);
        let sub = with_after_help(d.grammar, d.docmsg);
        rval = with_subcommand(rval, sub);
        assert(table@ =~= cmds.take(k + 1));
        assert(grammar_subcommands(rval) =~= grammar_subcommands(base) + all_entries(given).take(
            k + 1,
        ));
        k += 1;
    }
    assert(cmds.take(n as int) =~= cmds);
    assert(all_entries(given).take(n as int) =~= all_entries(given));
    Ok((Registry { commands: table }, rval))
}

/// Of a registry that was built, each name stands for one command, and the
/// table has as many commands as the descriptor set: the given descriptors
/// and the shell's. Where two descriptors share a name, none is built, and
/// the failure is a configuration error.
pub proof fn lemma_init_counts(
    base: clap::App<'static>,
    dcmds: Seq<CommandDescription>,
    r: Result<(Registry, clap::App<'static>), Error>,
)
    requires
        init_outcome(base, dcmds, r),
    ensures
        r is Ok <==> distinct_names(all_commands(dcmds)),
        r matches Ok(built) ==> built.0.wf() && built.0@.len() == dcmds.len() + 1,
        r matches Err(e) ==> e.is_configuration(),
{
    let cmds = all_commands(dcmds);
    match r {
        Err(Error::DuplicateCommand { first, second }) => {
            assert(cmds[first as int].spec_name() == cmds[second as int].spec_name());
        },
        _ => {},
    }
}

/// What a dispatch has to load before its command.
#[derive(Debug)]
pub enum Load {
    /// Nothing
    Skip,
    /// The archive at this path
    Archive(String),
    /// The dump at this path
    Dump(String),
}

/// What is loaded for a policy: nothing where the archive is ignored, else
/// the archive that the invocation names, else the dump that it names.
pub open spec fn load_outcome(policy: Archive, args: &Invocation, load: Load) -> bool {
    if policy == Archive::Ignored {
        load is Skip
    } else if args.archive is Some {
        load matches Load::Archive(path) && path@ == args.archive->0@
    } else if args.dump is Some {
        load matches Load::Dump(path) && path@ == args.dump->0@
    } else {
        load is Skip
    }
}

/// What a dispatch finds: the command of the name and what to load for it,
/// or that no command has the name.
pub open spec fn subcommand_outcome(
    context: &ExecutionContext,
    commands: &Registry,
    name: Seq<char>,
    r: Result<(Command, Load), Error>,
) -> bool {
    match r {
        Ok((command, load)) => {
            &&& command.spec_name() == name
            &&& commands@.contains(command)
            &&& load_outcome(command.spec_archive(), &context.cli, load)
        },
        Err(Error::UnknownCommand(unknown)) => unknown@ == name && absent(commands@, name),
        Err(_) => false,
    }
}

/// Finds the command of a dispatch and decides what is loaded for it.
pub fn subcommand(context: &ExecutionContext, commands: &Registry, name: &str) -> (r: Result<
    (Command, Load),
    Error,
>)
    ensures
        subcommand_outcome(context, commands, name@, r),
{
    let command: Command = match commands.get(name) {
        Some(c) => c,
        None => {
            return Err(Error::UnknownCommand(name.to_owned()));
        },
    };
    let load = match command.archive() {
        Archive::Ignored => Load::Skip,
        _ => match &context.cli.archive {
            Some(path) => Load::Archive(path.clone()),
            None => match &context.cli.dump {
                Some(path) => Load::Dump(path.clone()),
                None => Load::Skip,
            },
        },
    };
    Ok((command, load))
}

/// What the driver reports of a load.
#[derive(Debug)]
pub enum Loaded {
    /// The file was read; this is the image identifier of the archive
    Image(Vec<u8>),
    /// The file could not be read
    Failed,
}

/// What follows once the archive is seen to.
#[derive(Clone, Copy, Debug, PartialEq, Eq, Structural)]
pub enum Next {
    /// The command runs as it is
    Run,
    /// The session attaches and validates, and then the command runs
    Attach { mode: Attach, validate: Validate },
}

/// The route of a command: an unattached one runs at once, an attached one
/// by way of the attachment.
pub open spec fn route(command: Command) -> Next {
    match command {
        Command::Unattached { .. } => Next::Run,
        Command::Attached { attach, validate, .. } => Next::Attach { mode: attach, validate },
    }
}

/// The archive of the session after a load.
pub open spec fn archive_after(before: Option<Vec<u8>>, load: Load, outcome: Loaded) -> Option<
    Seq<u8>,
> {
    match (load, outcome) {
        (Load::Skip, _) => match before {
            Some(id) => Some(id@),
            None => None,
        },
        (_, Loaded::Image(id)) => Some(id@),
        (_, Loaded::Failed) => match before {
            Some(id) => Some(id@),
            None => None,
        },
    }
}

/// What a finished load leads to. A load that failed is reported with its
/// path, and the session is as it was. Else the session holds what was
/// loaded, a required archive that is missing is reported, and the command
/// goes its route.
pub open spec fn loaded_outcome(
    before: &ExecutionContext,
    command: Command,
    load: Load,
    outcome: Loaded,
    after: &ExecutionContext,
    r: Result<Next, Error>,
) -> bool {
    &&& after.cli == before.cli
    &&& after.core == before.core
    &&& crate::attach::archive_id(after) == archive_after(before.archive, load, outcome)
    &&& match (load, outcome) {
        (Load::Archive(path), Loaded::Failed) => r matches Err(Error::ArchiveLoad(p)) && p@
            == path@,
        (Load::Dump(path), Loaded::Failed) => r matches Err(Error::DumpLoad(p)) && p@ == path@,
        _ => if command.spec_archive() == Archive::Required && after.archive is None {
            r matches Err(Error::MissingArchive)
        } else {
            r == Ok::<Next, Error>(route(command))
        },
    }
}

/// Takes the driver's report of the load that `subcommand` asked for and
/// says what follows. Where nothing was to be loaded the report is not
/// looked at.
pub fn loaded(
    context: &mut ExecutionContext,
    command: Command,
    load: Load,
    outcome: Loaded,
) -> (r: Result<Next, Error>)
    ensures
        loaded_outcome(old(context), command, load, outcome, final(context), r),
{
    match load {
        Load::Skip => {},
        Load::Archive(path) => match outcome {
            Loaded::Image(id) => {
                context.archive = Some(id);
            },
            Loaded::Failed => {
                return Err(Error::ArchiveLoad(path));
            },
        },
        Load::Dump(path) => match outcome {
            Loaded::Image(id) => {
                context.archive = Some(id);
            },
            Loaded::Failed => {
                return Err(Error::DumpLoad(path));
            },
        },
    }
    if command.archive() == Archive::Required && context.archive.is_none() {
        return Err(Error::MissingArchive);
    }
    match command {
        Command::Unattached { .. } => Ok(Next::Run),
        Command::Attached { attach, validate, .. } => Ok(Next::Attach { mode: attach, validate }),
    }
}

/// A command that ignores the archive has nothing loaded, whatever paths
/// the invocation names.
pub proof fn lemma_ignored_loads_nothing(args: &Invocation, load: Load)
    requires
        load_outcome(Archive::Ignored, args, load),
    ensures
        load is Skip,
{
}

/// A command that requires an archive fails for want of one, where the
/// invocation names neither archive nor dump and the session holds none:
/// it gets no route, and the session is attached no more than it was.
pub proof fn lemma_required_archive_missing(
    before: &ExecutionContext,
    command: Command,
    load: Load,
    outcome: Loaded,
    after: &ExecutionContext,
    r: Result<Next, Error>,
)
    requires
        command.spec_archive() == Archive::Required,
        before.cli.archive is None,
        before.cli.dump is None,
        before.archive is None,
        load_outcome(Archive::Required, &before.cli, load),
        loaded_outcome(before, command, load, outcome, after, r),
    ensures
        r matches Err(Error::MissingArchive),
        after.core == before.core,
{
}

} // verus!

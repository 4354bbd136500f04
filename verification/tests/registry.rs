use humility_cmd::cmd::{init, subcommand, loaded, CommandDescription, Load, Loaded, Next};
use humility_cmd::attach::{ExecutionContext, Invocation};
use humility_cmd::command::{Archive, Attach, Command, Validate};
use humility_cmd::error::Error;

fn describe(name: &'static str, archive: Archive) -> CommandDescription {
    CommandDescription {
        command: Command::Unattached { name, archive },
        grammar: clap::Command::new(name),
        docmsg: "see the manual",
    }
}

fn context(archive: Option<&str>, dump: Option<&str>) -> ExecutionContext {
    ExecutionContext {
        cli: Invocation {
            archive: archive.map(|s| s.to_string()),
            dump: dump.map(|s| s.to_string()),
            probe: None,
            cmd: vec![],
        },
        archive: None,
        core: false,
    }
}

#[test]
fn registry_holds_every_descriptor_and_the_shell() {
    let descs = vec![describe("apptable", Archive::Required), describe("probe", Archive::Ignored)];
    let (registry, grammar) = match init(clap::Command::new("humility"), descs) {
        Ok(built) => built,
        Err(e) => panic!("{}", e.message()),
    };
    assert_eq!(registry.len(), 3);
    assert!(matches!(registry.get("probe"), Some(Command::Unattached { name: "probe", archive: Archive::Ignored })));
    assert!(matches!(
        registry.get("repl"),
        Some(Command::Attached { name: "repl", archive: Archive::Required, attach: Attach::Any, validate: Validate::Match })
    ));
    assert!(registry.get("nothing").is_none());
    assert_eq!(grammar.get_name(), "humility");
    let names: Vec<&str> = grammar.get_subcommands().map(|c| c.get_name()).collect();
    assert_eq!(names, vec!["apptable", "probe", "repl"]);
    let helps: Vec<Option<&str>> = grammar.get_subcommands().map(|c| c.get_after_help()).collect();
    assert_eq!(helps, vec![
        Some("see the manual"),
        Some("see the manual"),
        Some("For additional documentation, run \"humility doc repl\""),
    ]);
}

#[test]
fn registry_keeps_the_subcommands_of_the_base() {
    let base = clap::Command::new("humility").subcommand(clap::Command::new("doc"));
    let (registry, grammar) = match init(base, vec![]) {
        Ok(built) => built,
        Err(e) => panic!("{}", e.message()),
    };
    assert_eq!(registry.len(), 1);
    let names: Vec<&str> = grammar.get_subcommands().map(|c| c.get_name()).collect();
    assert_eq!(names, vec!["doc", "repl"]);
}

#[test]
fn shared_name_is_a_configuration_error() {
    let descs = vec![
        describe("probe", Archive::Ignored),
        describe("tasks", Archive::Required),
        describe("probe", Archive::Optional),
    ];
    match init(clap::Command::new("humility"), descs) {
        Err(e) => {
            assert!(matches!(e, Error::DuplicateCommand { first: 0, second: 2 }));
            assert_eq!(e.message(), "commands 0 and 2 share a name");
        }
        Ok(_) => panic!("built over a shared name"),
    }
}

#[test]
fn name_of_the_shell_is_taken() {
    let descs = vec![describe("probe", Archive::Ignored), describe("repl", Archive::Ignored)];
    assert!(matches!(
        init(clap::Command::new("humility"), descs),
        Err(Error::DuplicateCommand { first: 1, second: 2 })
    ));
}

fn registry() -> humility_cmd::cmd::Registry {
    let descs = vec![
        describe("needs", Archive::Required),
        describe("likes", Archive::Optional),
        describe("ignores", Archive::Ignored),
        CommandDescription {
            command: Command::Attached {
                name: "flash",
                archive: Archive::Required,
                attach: Attach::LiveOnly,
                validate: Validate::Booted,
            },
            grammar: clap::Command::new("flash"),
            docmsg: "",
        },
    ];
    match init(clap::Command::new("humility"), descs) {
        Ok((registry, _)) => registry,
        Err(e) => panic!("{}", e.message()),
    }
}

#[test]
fn unknown_command_is_reported_by_name() {
    let ctx = context(None, None);
    match subcommand(&ctx, &registry(), "frobnicate") {
        Err(e) => {
            assert!(matches!(&e, Error::UnknownCommand(n) if n == "frobnicate"));
            assert_eq!(e.message(), "command frobnicate not found");
        }
        Ok(_) => panic!("found a command that is not there"),
    }
}

#[test]
fn ignored_archive_is_never_loaded() {
    let ctx = context(Some("/no/such/archive"), Some("/no/such/dump"));
    match subcommand(&ctx, &registry(), "ignores") {
        Ok((command, load)) => {
            assert_eq!(command.name(), "ignores");
            assert_eq!(command.archive(), Archive::Ignored);
            assert!(matches!(load, Load::Skip));
            let mut ctx = ctx;
            assert!(matches!(loaded(&mut ctx, command, load, Loaded::Failed), Ok(Next::Run)));
            assert!(ctx.archive.is_none());
        }
        Err(e) => panic!("{}", e.message()),
    }
}

#[test]
fn archive_comes_before_dump() {
    let both = context(Some("a.zip"), Some("d.core"));
    assert!(matches!(subcommand(&both, &registry(), "likes"), Ok((_, Load::Archive(p))) if p == "a.zip"));
    let dump = context(None, Some("d.core"));
    assert!(matches!(subcommand(&dump, &registry(), "needs"), Ok((_, Load::Dump(p))) if p == "d.core"));
    let neither = context(None, None);
    assert!(matches!(subcommand(&neither, &registry(), "needs"), Ok((_, Load::Skip))));
}

#[test]
fn required_archive_that_is_missing_fails_before_attachment() {
    let mut ctx = context(None, None);
    let (command, load) = match subcommand(&ctx, &registry(), "flash") {
        Ok(found) => found,
        Err(e) => panic!("{}", e.message()),
    };
    assert!(matches!(load, Load::Skip));
    let r = loaded(&mut ctx, command, load, Loaded::Failed);
    assert!(matches!(r, Err(Error::MissingArchive)));
    assert!(!ctx.core);
    assert_eq!(Error::MissingArchive.message(), "must provide a Hubris archive or dump");
}

#[test]
fn failed_loads_name_their_path() {
    let mut ctx = context(Some("bad.zip"), None);
    let (command, load) = subcommand(&ctx, &registry(), "likes").ok().unwrap();
    match loaded(&mut ctx, command, load, Loaded::Failed) {
        Err(e) => {
            assert!(matches!(&e, Error::ArchiveLoad(p) if p == "bad.zip"));
            assert_eq!(e.message(), "failed to load archive \"bad.zip\"");
        }
        Ok(_) => panic!("a failed load went on"),
    }
    assert!(ctx.archive.is_none());
    let mut ctx = context(None, Some("bad.core"));
    let (command, load) = subcommand(&ctx, &registry(), "needs").ok().unwrap();
    match loaded(&mut ctx, command, load, Loaded::Failed) {
        Err(e) => {
            assert!(matches!(&e, Error::DumpLoad(p) if p == "bad.core"));
            assert_eq!(e.message(), "failed to load dump \"bad.core\"");
        }
        Ok(_) => panic!("a failed load went on"),
    }
}

#[test]
fn loaded_archive_stays_in_the_session() {
    let mut ctx = context(Some("good.zip"), None);
    let (command, load) = subcommand(&ctx, &registry(), "flash").ok().unwrap();
    let r = loaded(&mut ctx, command, load, Loaded::Image(vec![1, 2, 3]));
    assert!(matches!(r, Ok(Next::Attach { mode: Attach::LiveOnly, validate: Validate::Booted })));
    assert_eq!(ctx.archive, Some(vec![1, 2, 3]));
    ctx.cli = Invocation { archive: None, dump: None, probe: None, cmd: vec![] };
    let (command, load) = subcommand(&ctx, &registry(), "needs").ok().unwrap();
    assert!(matches!(loaded(&mut ctx, command, load, Loaded::Failed), Ok(Next::Run)));
    assert_eq!(ctx.archive, Some(vec![1, 2, 3]));
}

#[test]
fn optional_archive_may_be_absent() {
    let mut ctx = context(None, None);
    let (command, load) = subcommand(&ctx, &registry(), "likes").ok().unwrap();
    assert!(matches!(loaded(&mut ctx, command, load, Loaded::Failed), Ok(Next::Run)));
}

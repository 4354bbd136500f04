use humility_cmd::attach::{ExecutionContext, Invocation, Source, Target};
use humility_cmd::cmd::{init, CommandDescription, Loaded, Registry};
use humility_cmd::command::{Archive, Attach, Command, Validate};
use humility_cmd::dispatch::{Action, Dispatch, Event, Stage};
use humility_cmd::error::{AttachFailure, Error};

fn attached(name: &'static str, archive: Archive, attach: Attach, validate: Validate) -> CommandDescription {
    CommandDescription {
        command: Command::Attached { name, archive, attach, validate },
        grammar: clap::Command::new(name),
        docmsg: "",
    }
}

fn table() -> Registry {
    let descs = vec![
        attached("flash", Archive::Required, Attach::LiveOnly, Validate::Match),
        attached("tasks", Archive::Required, Attach::Any, Validate::Booted),
        attached("probe", Archive::Ignored, Attach::LiveOnly, Validate::Nothing),
        CommandDescription {
            command: Command::Unattached { name: "doc", archive: Archive::Ignored },
            grammar: clap::Command::new("doc"),
            docmsg: "",
        },
    ];
    match init(clap::Command::new("humility"), descs) {
        Ok((registry, _)) => registry,
        Err(e) => panic!("{}", e.message()),
    }
}

fn session(archive: Option<&str>, dump: Option<&str>) -> ExecutionContext {
    ExecutionContext {
        cli: Invocation {
            archive: archive.map(|s| s.to_string()),
            dump: dump.map(|s| s.to_string()),
            probe: None,
            cmd: vec![],
        },
        archive: None,
        core: false,
    }
}

/// A driver whose target runs `image`: it counts what it is asked to do.
struct World {
    image: Vec<u8>,
    booted: bool,
    loads: usize,
    connects: usize,
    runs: usize,
}

fn drive(world: &mut World, ctx: &mut ExecutionContext, name: &str) -> Result<(), Error> {
    let (mut state, mut action) = Dispatch::begin(ctx, &table(), name)?;
    loop {
        let event = match action {
            Action::LoadArchive(_) | Action::LoadDump(_) => {
                world.loads += 1;
                Event::Loaded(Loaded::Image(vec![1, 2, 3]))
            }
            Action::Open(_) => {
                world.connects += 1;
                Event::Opened(true)
            }
            Action::Inspect => {
                Event::Inspected(Target { image_id: world.image.clone(), booted: world.booted })
            }
            Action::Run(command) => {
                assert_eq!(command.name(), name);
                world.runs += 1;
                return Ok(());
            }
        };
        action = state.advance(ctx, event)?;
    }
}

#[test]
fn matching_target_runs_after_load_connect_and_validation() {
    let mut world = World { image: vec![1, 2, 3], booted: true, loads: 0, connects: 0, runs: 0 };
    let mut ctx = session(Some("a.zip"), None);
    assert!(drive(&mut world, &mut ctx, "flash").is_ok());
    assert_eq!((world.loads, world.connects, world.runs), (1, 1, 1));
    assert!(ctx.core);
    assert_eq!(ctx.archive, Some(vec![1, 2, 3]));
}

#[test]
fn second_dispatch_does_not_connect_again() {
    let mut world = World { image: vec![1, 2, 3], booted: true, loads: 0, connects: 0, runs: 0 };
    let mut ctx = session(Some("a.zip"), None);
    assert!(drive(&mut world, &mut ctx, "flash").is_ok());
    assert!(drive(&mut world, &mut ctx, "tasks").is_ok());
    assert!(drive(&mut world, &mut ctx, "probe").is_ok());
    assert!(drive(&mut world, &mut ctx, "flash").is_ok());
    assert_eq!(world.connects, 1);
    assert_eq!(world.runs, 4);
}

#[test]
fn mismatch_never_runs_the_command() {
    let mut world = World { image: vec![9, 9, 9], booted: true, loads: 0, connects: 0, runs: 0 };
    let mut ctx = session(Some("a.zip"), None);
    assert!(matches!(drive(&mut world, &mut ctx, "flash"), Err(Error::ValidationMismatch)));
    assert_eq!(world.runs, 0);
    assert_eq!(
        Error::ValidationMismatch.message(),
        "the target does not run the image of the archive"
    );
}

#[test]
fn target_that_has_not_booted_never_runs_the_command() {
    let mut world = World { image: vec![9], booted: false, loads: 0, connects: 0, runs: 0 };
    let mut ctx = session(Some("a.zip"), None);
    assert!(matches!(drive(&mut world, &mut ctx, "tasks"), Err(Error::NotBooted)));
    assert_eq!(world.runs, 0);
    assert_eq!(Error::NotBooted.message(), "the target has not booted");
}

#[test]
fn ignored_policy_touches_no_file() {
    let mut world = World { image: vec![], booted: false, loads: 0, connects: 0, runs: 0 };
    let mut ctx = session(Some("/no/such/archive"), Some("/no/such/dump"));
    assert!(drive(&mut world, &mut ctx, "doc").is_ok());
    assert_eq!((world.loads, world.connects, world.runs), (0, 0, 1));
    assert!(ctx.archive.is_none());
}

#[test]
fn required_policy_fails_before_any_attachment() {
    let mut world = World { image: vec![1], booted: true, loads: 0, connects: 0, runs: 0 };
    let mut ctx = session(None, None);
    assert!(matches!(drive(&mut world, &mut ctx, "flash"), Err(Error::MissingArchive)));
    assert_eq!((world.loads, world.connects, world.runs), (0, 0, 0));
    assert!(!ctx.core);
}

#[test]
fn unknown_name_begins_nothing() {
    let mut ctx = session(None, None);
    assert!(matches!(Dispatch::begin(&mut ctx, &table(), "nope"), Err(Error::UnknownCommand(n)) if n == "nope"));
}

#[test]
fn live_only_command_refuses_a_dump() {
    let mut ctx = session(None, Some("d.core"));
    let (mut state, action) = match Dispatch::begin(&mut ctx, &table(), "flash") {
        Ok(began) => began,
        Err(e) => panic!("{}", e.message()),
    };
    assert!(matches!(&action, Action::LoadDump(p) if p == "d.core"));
    let r = state.advance(&mut ctx, Event::Loaded(Loaded::Image(vec![1])));
    assert!(matches!(r, Err(Error::Attachment(AttachFailure::MustBeLive))));
    assert!(matches!(state.stage, Stage::Failed));
}

#[test]
fn any_mode_replays_the_dump_that_is_named() {
    let mut ctx = session(None, Some("d.core"));
    let (mut state, _) = Dispatch::begin(&mut ctx, &table(), "tasks").ok().unwrap();
    let r = state.advance(&mut ctx, Event::Loaded(Loaded::Image(vec![1])));
    assert!(matches!(r, Ok(Action::Open(Source::Dump { path })) if path == "d.core"));
    assert!(matches!(state.stage, Stage::Opening(Validate::Booted)));
    let r = state.advance(&mut ctx, Event::Opened(true));
    assert!(matches!(r, Ok(Action::Inspect)));
    let r = state.advance(&mut ctx, Event::Inspected(Target { image_id: vec![], booted: true }));
    assert!(matches!(r, Ok(Action::Run(Command::Attached { name: "tasks", .. }))));
}

#[test]
fn failed_connection_ends_the_dispatch() {
    let mut ctx = session(None, None);
    let (mut state, action) = Dispatch::begin(&mut ctx, &table(), "probe").ok().unwrap();
    assert!(matches!(&action, Action::Open(Source::Live { probe }) if probe == "auto"));
    let r = state.advance(&mut ctx, Event::Opened(false));
    assert!(matches!(r, Err(Error::Attachment(AttachFailure::Unreachable))));
    assert!(!ctx.core);
    assert_eq!(Error::Attachment(AttachFailure::Unreachable).message(), "no target could be reached");
}

#[test]
fn answer_out_of_turn_fails_the_dispatch() {
    let mut ctx = session(None, None);
    let (mut state, _) = Dispatch::begin(&mut ctx, &table(), "probe").ok().unwrap();
    let r = state.advance(&mut ctx, Event::Loaded(Loaded::Failed));
    assert!(matches!(r, Err(Error::OutOfTurn)));
    assert!(matches!(state.stage, Stage::Failed));
    assert_eq!(Error::OutOfTurn.message(), "an answer came out of turn");
    let r = state.advance(&mut ctx, Event::Opened(true));
    assert!(matches!(r, Err(Error::OutOfTurn)));
}

#[test]
fn failed_load_is_reported_with_its_path() {
    let mut ctx = session(Some("bad.zip"), None);
    let (mut state, action) = Dispatch::begin(&mut ctx, &table(), "flash").ok().unwrap();
    assert!(matches!(&action, Action::LoadArchive(p) if p == "bad.zip"));
    let r = state.advance(&mut ctx, Event::Loaded(Loaded::Failed));
    assert!(matches!(r, Err(Error::ArchiveLoad(p)) if p == "bad.zip"));
}

use dfu::cli::{
    Action, Cli, CommonOptions, ConfigError, ConfigErrorKind, ConfigLocation, ConfigRead, Done, InputArguments,
    JsonFault, LoadArguments, Mode, MultiFileArguments, OverviewArguments, RunStep, SingleFileArguments,
};
use dfu::line::{Channel, Line};
use dfu::strategy::Strategy;

fn common(save_config: Option<&str>) -> CommonOptions {
    CommonOptions {
        arch: None,
        tag_search_limit: None,
        debug: true,
        color: true,
        save_config: save_config.map(|path| path.to_string()),
        quiet: true,
    }
}

fn input(save_config: Option<&str>) -> Mode {
    Mode::Input(InputArguments { input: "node:8.0".to_string(), strat: Strategy::Latest, common: common(save_config) })
}

fn overview() -> Mode {
    Mode::Overview(OverviewArguments { input: "node:8.0".to_string(), common: common(Some("o.json")) })
}

fn file() -> Mode {
    Mode::File(SingleFileArguments {
        file: "Dockerfile".to_string(),
        strat: Strategy::Latest,
        dry_run: true,
        common: common(Some("f.json")),
    })
}

fn multi() -> Mode {
    Mode::Multi(MultiFileArguments {
        folder: ".".to_string(),
        strat: Strategy::Latest,
        dry_run: true,
        exclude_file: vec![],
        ignore_versions: vec![],
        common: common(Some("m.json")),
    })
}

fn load(config: Option<&str>) -> Mode {
    Mode::Load(LoadArguments { config: config.map(|path| path.to_string()) })
}

fn run(mode: Mode) -> Cli {
    Cli::new_from_mode(mode)
}

#[test]
fn only_a_self_update_begins_with_a_check() {
    assert!(matches!(run(Mode::SelfUpdate).next(Done::Nothing), RunStep::CheckUpdate));
    assert!(matches!(run(Mode::SelfUpdate).next(Done::UpdateCheck), RunStep::SetUpLog(_)));
    assert!(matches!(run(input(None)).next(Done::Nothing), RunStep::SetUpLog(_)));
}

#[test]
fn saved_arguments_are_loaded_once() {
    assert!(matches!(run(load(Some("c.json"))).next(Done::Nothing), RunStep::Load { path, .. } if path == "c.json"));
    assert!(matches!(run(load(Some("c.json"))).next(Done::Load), RunStep::SetUpLog(_)));
    assert!(matches!(run(load(None)).next(Done::Nothing), RunStep::SetUpLog(_)));
}

#[test]
fn arguments_are_saved_before_the_work() {
    for done in [Done::Nothing, Done::UpdateCheck, Done::Load] {
        assert!(matches!(run(input(Some("i.json"))).next(done), RunStep::Save { path, .. } if path == "i.json"));
    }
    assert!(matches!(run(overview()).next(Done::Nothing), RunStep::Save { path, .. } if path == "o.json"));
    assert!(matches!(run(file()).next(Done::Nothing), RunStep::Save { path, .. } if path == "f.json"));
    assert!(matches!(run(multi()).next(Done::Nothing), RunStep::Save { path, .. } if path == "m.json"));
    assert!(matches!(run(multi()).next(Done::Save), RunStep::SetUpLog(_)));
    assert!(matches!(run(multi()).next(Done::LogSetUp), RunStep::Act));
}

#[test]
fn loading_and_saving_are_told() {
    match run(load(Some("c.json"))).next(Done::Nothing) {
        RunStep::Load { line, .. } => assert_eq!(
            line,
            Line { channel: Channel::Info, text: "Loading configuration from file: c.json".to_string() }
        ),
        _ => panic!("the file is loaded"),
    }
    match run(input(Some("i.json"))).next(Done::Load) {
        RunStep::Save { line, .. } => assert_eq!(
            line,
            Line {
                channel: Channel::Info,
                text: "Saving configuration from command line options to file: i.json. This will override any existing configuration."
                    .to_string(),
            }
        ),
        _ => panic!("the arguments are saved"),
    }
}

#[test]
fn the_log_follows_the_arguments() {
    let settings = run(input(None)).init_logging();
    assert_eq!((settings.filter, settings.color, settings.install), ("debug", true, false));
    let settings = run(overview()).init_logging();
    assert_eq!((settings.filter, settings.color, settings.install), ("debug", true, true));
    let settings = run(Mode::SelfUpdate).init_logging();
    assert_eq!((settings.filter, settings.color, settings.install), ("info", false, true));
    let mut plain = common(None);
    plain.debug = false;
    plain.quiet = false;
    let mode = Mode::Input(InputArguments { input: String::new(), strat: Strategy::Latest, common: plain });
    let settings = run(mode).init_logging();
    assert_eq!((settings.filter, settings.color, settings.install), ("info", true, true));
}

#[test]
fn arguments_are_saved_under_the_key_of_their_mode() {
    for (mode, key) in [(input(None), "input"), (overview(), "overview"), (file(), "file"), (multi(), "multi")] {
        let save = run(mode).save_to_config("c.json", Ok(())).unwrap();
        assert_eq!(save.key, Some(key));
        assert_eq!(save.line, Line { channel: Channel::Info, text: "Written config to: `c.json`".to_string() });
    }
    for mode in [Mode::SelfUpdate, load(Some("a.json"))] {
        let save = run(mode).save_to_config("c.json", Ok(())).unwrap();
        assert_eq!(save.key, None);
        assert_eq!(save.line, Line { channel: Channel::Info, text: "Nothing to save.".to_string() });
    }
    let denied = || ConfigError {
        kind: ConfigErrorKind::File(std::io::ErrorKind::PermissionDenied),
        message: "denied".to_string(),
    };
    assert_eq!(run(Mode::SelfUpdate).save_to_config("c.json", Err(denied())).unwrap_err(), denied());
}

#[test]
fn a_configuration_is_read() {
    assert_eq!(Cli::config_location(true), ConfigLocation::BelowCurrentDir);
    assert_eq!(Cli::config_location(false), ConfigLocation::AsGiven);
    let missing = ConfigRead::OpenFailed { kind: std::io::ErrorKind::NotFound, message: "missing".to_string() };
    assert_eq!(
        Cli::read_from_config(missing).unwrap_err(),
        ConfigError { kind: ConfigErrorKind::File(std::io::ErrorKind::NotFound), message: "missing".to_string() }
    );
    for (fault, kind) in [
        (JsonFault::Syntax, ConfigErrorKind::InvalidData),
        (JsonFault::Data, ConfigErrorKind::InvalidData),
        (JsonFault::Eof, ConfigErrorKind::UnexpectedEof),
    ] {
        assert_eq!(
            Cli::read_from_config(ConfigRead::ParseFailed { fault, message: "no mode".to_string() }).unwrap_err(),
            ConfigError { kind, message: "no mode".to_string() }
        );
    }
    assert!(matches!(Cli::read_from_config(ConfigRead::Parsed(file())).unwrap().mode, Mode::File(_)));
}

#[test]
fn every_mode_has_its_action() {
    assert!(matches!(run(input(None)).into_action(), Action::Input(arguments) if arguments.input == "node:8.0"));
    assert!(matches!(run(overview()).into_action(), Action::Overview(_)));
    assert!(matches!(run(file()).into_action(), Action::File(_)));
    assert!(matches!(run(multi()).into_action(), Action::Multi(_)));
    assert!(matches!(run(Mode::SelfUpdate).into_action(), Action::SelfUpdate));
    match run(load(Some("c.json"))).into_action() {
        Action::Refuse(line) => assert_eq!(
            line,
            Line {
                channel: Channel::Error,
                text: "Should already handled by other functions. Loaded config was processed already.".to_string(),
            }
        ),
        _ => panic!("the mode is refused"),
    }
}

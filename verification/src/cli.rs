//! The arguments of a run, and what follows from them before the work begins.

use vstd::prelude::*;

use crate::line::{Channel, Line, LineView};
use crate::strategy::Strategy;

verus! {

/// A run of the program.
#[derive(Debug)]
pub struct Cli {
    pub mode: Mode,
}

/// What a run is to do.
#[derive(Clone, Debug)]
pub enum Mode {
    /// Find the new tag of one image.
    Input(InputArguments),
    /// Find the new tags of one image under every strategy.
    Overview(OverviewArguments),
    /// Update the images of one dockerfile.
    File(SingleFileArguments),
    /// Update the images of all dockerfiles below a folder.
    Multi(MultiFileArguments),
    /// Use the arguments that were saved to a file.
    Load(LoadArguments),
    /// Fetch the latest release of the program.
    SelfUpdate,
}

#[derive(Clone, Debug)]
pub struct LoadArguments {
    pub config: Option<String>,
}

#[derive(Clone, Debug)]
pub struct SingleFileArguments {
    pub file: String,
    pub strat: Strategy,
    pub dry_run: bool,
    pub common: CommonOptions,
}

#[derive(Clone, Debug)]
pub struct InputArguments {
    pub input: String,
    pub strat: Strategy,
    pub common: CommonOptions,
}

#[derive(Clone, Debug)]
pub struct OverviewArguments {
    pub input: String,
    pub common: CommonOptions,
}

/// The arguments that every mode takes that looks for tags.
#[derive(Clone, Debug)]
pub struct CommonOptions {
    pub arch: Option<String>,
    pub tag_search_limit: Option<u16>,
    pub debug: bool,
    pub color: bool,
    pub save_config: Option<String>,
    pub quiet: bool,
}

#[derive(Clone, Debug)]
pub struct MultiFileArguments {
    pub folder: String,
    pub strat: Strategy,
    pub dry_run: bool,
    pub exclude_file: Vec<String>,
    pub ignore_versions: Vec<String>,
    pub common: CommonOptions,
}

/// The options of a mode that looks for tags.
pub open spec fn common_options(mode: Mode) -> Option<CommonOptions> {
    match mode {
        Mode::Input(arguments) => Some(arguments.common),
        Mode::Overview(arguments) => Some(arguments.common),
        Mode::File(arguments) => Some(arguments.common),
        Mode::Multi(arguments) => Some(arguments.common),
        Mode::Load(_) => None,
        Mode::SelfUpdate => None,
    }
}

/// The file whose saved arguments are to replace those of the run.
pub open spec fn config_to_load(mode: Mode) -> Option<String> {
    match mode {
        Mode::Load(arguments) => arguments.config,
        _ => None,
    }
}

/// The file to which the arguments of the run are to be saved.
pub open spec fn config_to_save(mode: Mode) -> Option<String> {
    match common_options(mode) {
        Some(common) => common.save_config,
        None => None,
    }
}

/// The key under which the arguments of a mode are saved; there is none where there is
/// nothing to save.
pub open spec fn config_key(mode: Mode) -> Option<Seq<char>> {
    match mode {
        Mode::Input(_) => Some("input"@),
        Mode::Overview(_) => Some("overview"@),
        Mode::File(_) => Some("file"@),
        Mode::Multi(_) => Some("multi"@),
        Mode::Load(_) => None,
        Mode::SelfUpdate => None,
    }
}

/// Two modes are the same but for their arguments.
pub open spec fn same_kind(a: Mode, b: Mode) -> bool {
    match a {
        Mode::Input(_) => b is Input,
        Mode::Overview(_) => b is Overview,
        Mode::File(_) => b is File,
        Mode::Multi(_) => b is Multi,
        Mode::Load(_) => b is Load,
        Mode::SelfUpdate => b is SelfUpdate,
    }
}

/// What saved arguments are saved under tells for which mode they are.
pub proof fn config_keys_tell_modes_apart(a: Mode, b: Mode)
    requires
        config_key(a) is Some,
        config_key(a) == config_key(b),
    ensures
        same_kind(a, b),
{
    reveal_strlit("input");
    reveal_strlit("overview");
    reveal_strlit("file");
    reveal_strlit("multi");
    assert("input"@.len() == 5 && "overview"@.len() == 8 && "file"@.len() == 4 && "multi"@.len() == 5);
    assert("input"@[0] == 'i' && "multi"@[0] == 'm');
    assert(config_key(a)->0.len() == config_key(b)->0.len());
    assert(config_key(a)->0[0] == config_key(b)->0[0]);
}

/// Arguments are asked to be saved only where there is something to save.
pub proof fn what_is_to_be_saved_has_a_key(mode: Mode)
    requires
        config_to_save(mode) is Some,
    ensures
        config_key(mode) is Some,
{
}

/// Where a configuration file is looked for.
#[derive(Clone, Copy, Debug, PartialEq, Eq, Structural)]
pub enum ConfigLocation {
    /// At the path, taken from the current directory.
    BelowCurrentDir,
    /// At the path as it is.
    AsGiven,
}

/// The kind of an error of input or output.
#[verifier::external_type_specification]
#[verifier::external_body]
pub struct ExErrorKind(std::io::ErrorKind);

/// What kind of error an operation on a configuration file ended in.
#[derive(Clone, Copy, Debug, PartialEq, Eq)]
pub enum ConfigErrorKind {
    /// The file could not be opened or created, for this reason.
    File(std::io::ErrorKind),
    /// The file holds something else than a mode.
    InvalidData,
    /// The file ends too early.
    UnexpectedEof,
}

/// Why an operation on a configuration file failed.
#[derive(Debug, PartialEq, Eq)]
pub struct ConfigError {
    pub kind: ConfigErrorKind,
    pub message: String,
}

/// What is wrong with a text that is to be JSON and to hold a mode.
#[derive(Clone, Copy, Debug, PartialEq, Eq, Structural)]
pub enum JsonFault {
    /// It is no JSON.
    Syntax,
    /// It holds something else.
    Data,
    /// It ends too early.
    Eof,
}

/// The kind of error that a fault of the text is.
pub open spec fn fault_kind(fault: JsonFault) -> ConfigErrorKind {
    match fault {
        JsonFault::Syntax => ConfigErrorKind::InvalidData,
        JsonFault::Data => ConfigErrorKind::InvalidData,
        JsonFault::Eof => ConfigErrorKind::UnexpectedEof,
    }
}

/// How the reading of a configuration file ended.
#[derive(Debug)]
pub enum ConfigRead {
    OpenFailed { kind: std::io::ErrorKind, message: String },
    ParseFailed { fault: JsonFault, message: String },
    Parsed(Mode),
}

/// What becomes of a configuration file once it is created.
#[derive(Debug)]
pub struct ConfigSave {
    /// The key under which the arguments are written; without one nothing is written.
    pub key: Option<&'static str>,
    /// What is said when that is done.
    pub line: Line,
}

/// How the log is set up.
#[derive(Debug)]
pub struct LogSettings {
    /// The filter that is used where the environment gives none.
    pub filter: &'static str,
    pub color: bool,
    /// Whether there is a log at all.
    pub install: bool,
}

/// The last thing that was done in a run.
#[derive(Clone, Copy, Debug, PartialEq, Eq, Structural)]
pub enum Done {
    Nothing,
    UpdateCheck,
    Load,
    Save,
    LogSetUp,
}

/// What is to be done next in a run.
#[derive(Debug)]
pub enum RunStep {
    /// Look for a newer release, and say if there is one.
    CheckUpdate,
    /// Replace the arguments of the run by those that were saved to a file, then say the
    /// line.
    Load { path: String, line: Line },
    /// Say the line, then save the arguments of the run to a file.
    Save { path: String, line: Line },
    SetUpLog(LogSettings),
    /// Do what the arguments ask for. That is the end of the run.
    Act,
}

/// How far a run has come.
pub open spec fn progress(done: Done) -> int {
    match done {
        Done::Nothing => 0,
        Done::UpdateCheck => 1,
        Done::Load => 2,
        Done::Save => 3,
        Done::LogSetUp => 4,
    }
}

/// What `LogSettings` stand for.
#[verifier::ext_equal]
pub struct LogSettingsView {
    pub filter: Seq<char>,
    pub color: bool,
    pub install: bool,
}

impl View for LogSettings {
    type V = LogSettingsView;

    open spec fn view(&self) -> LogSettingsView {
        LogSettingsView { filter: self.filter@, color: self.color, install: self.install }
    }
}

/// What a `RunStep` stands for.
#[verifier::ext_equal]
pub enum RunStepView {
    CheckUpdate,
    Load { path: Seq<char>, line: LineView },
    Save { path: Seq<char>, line: LineView },
    SetUpLog(LogSettingsView),
    Act,
}

impl View for RunStep {
    type V = RunStepView;

    open spec fn view(&self) -> RunStepView {
        match *self {
            RunStep::CheckUpdate => RunStepView::CheckUpdate,
            RunStep::Load { path, line } => RunStepView::Load { path: path@, line: line@ },
            RunStep::Save { path, line } => RunStepView::Save { path: path@, line: line@ },
            RunStep::SetUpLog(settings) => RunStepView::SetUpLog(settings@),
            RunStep::Act => RunStepView::Act,
        }
    }
}

/// How far a run comes with a step.
pub open spec fn progress_after(step: RunStepView) -> int {
    match step {
        RunStepView::CheckUpdate => 1,
        RunStepView::Load { .. } => 2,
        RunStepView::Save { .. } => 3,
        RunStepView::SetUpLog(_) => 4,
        RunStepView::Act => 5,
    }
}

/// What is said of arguments that were loaded from a file.
pub open spec fn loading_line(path: Seq<char>) -> LineView {
    LineView { channel: Channel::Info, text: "Loading configuration from file: "@ + path }
}

/// What is said of arguments that are about to be saved to a file.
pub open spec fn saving_line(path: Seq<char>) -> LineView {
    LineView {
        channel: Channel::Info,
        text: "Saving configuration from command line options to file: "@ + path
            + ". This will override any existing configuration."@,
    }
}

/// The step that is due in a run of a mode: the first that is not behind it and that the
/// arguments ask for.
pub open spec fn due_step(mode: Mode, done: Done) -> RunStepView {
    if progress(done) < 1 && mode is SelfUpdate {
        RunStepView::CheckUpdate
    } else if progress(done) < 2 && config_to_load(mode) is Some {
        let path = config_to_load(mode)->0@;
        RunStepView::Load { path, line: loading_line(path) }
    } else if progress(done) < 3 && config_to_save(mode) is Some {
        let path = config_to_save(mode)->0@;
        RunStepView::Save { path, line: saving_line(path) }
    } else if progress(done) < 4 {
        RunStepView::SetUpLog(log_settings(mode))
    } else {
        RunStepView::Act
    }
}

/// The settings of the log that the arguments of a mode ask for. An image that is looked up
/// quietly leaves no log.
pub open spec fn log_settings(mode: Mode) -> LogSettingsView {
    LogSettingsView {
        filter: match common_options(mode) {
            Some(common) => if common.debug {
                "debug"@
            } else {
                "info"@
            },
            None => "info"@,
        },
        color: match common_options(mode) {
            Some(common) => common.color,
            None => false,
        },
        install: !(mode is Input && mode->Input_0.common.quiet),
    }
}

/// A run goes on with every step, whatever its mode becomes, and so comes to its end.
pub proof fn runs_come_to_an_end(mode: Mode, done: Done)
    ensures
        progress(done) < progress_after(due_step(mode, done)),
{
}

/// What a run does once it is set up.
#[derive(Debug)]
pub enum Action {
    Input(InputArguments),
    Overview(OverviewArguments),
    File(SingleFileArguments),
    Multi(MultiFileArguments),
    SelfUpdate,
    /// There is nothing to do but to say why.
    Refuse(Line),
}

/// The line that refuses a mode whose arguments should have been replaced.
pub open spec fn refusal() -> LineView {
    LineView {
        channel: Channel::Error,
        text: "Should already handled by other functions. Loaded config was processed already."@,
    }
}

/// The key as text.
pub open spec fn key_text(key: Option<&'static str>) -> Option<Seq<char>> {
    match key {
        Some(key) => Some(key@),
        None => None,
    }
}

impl Cli {
    pub fn new_from_mode(mode: Mode) -> (cli: Cli)
        ensures
            cli.mode == mode,
    {
        Cli { mode }
    }

    /// The file whose saved arguments replace those of the run.
    fn config_to_load(&self) -> (path: Option<&String>)
        ensures
            match path {
                Some(path) => config_to_load(self.mode) == Some(*path),
                None => config_to_load(self.mode) is None,
            },
    {
        match &self.mode {
            Mode::Load(arguments) => match &arguments.config {
                Some(path) => Some(path),
                None => None,
            },
            _ => None,
        }
    }

    /// The file to which the arguments of the run are saved.
    fn config_to_save(&self) -> (path: Option<&String>)
        ensures
            match path {
                Some(path) => config_to_save(self.mode) == Some(*path),
                None => config_to_save(self.mode) is None,
            },
    {
        let save_config: &Option<String> = match &self.mode {
            Mode::Input(arguments) => &arguments.common.save_config,
            Mode::Overview(arguments) => &arguments.common.save_config,
            Mode::File(arguments) => &arguments.common.save_config,
            Mode::Multi(arguments) => &arguments.common.save_config,
            Mode::SelfUpdate | Mode::Load(_) => {
                return None;
            },
        };
        match save_config {
            Some(path) => Some(path),
            None => None,
        }
    }

    /// What is to be done next in the run.
    pub fn next(&self, done: Done) -> (step: RunStep)
        ensures
            step@ == due_step(self.mode, done),
    {
        if done == Done::Nothing {
            match &self.mode {
                Mode::SelfUpdate => {
                    return RunStep::CheckUpdate;
                },
                _ => {},
            }
        }
        if done == Done::Nothing || done == Done::UpdateCheck {
            if let Some(path) = self.config_to_load() {
                let mut text: String = "Loading configuration from file: ".to_owned();
                text.append(path.as_str());
                return RunStep::Load {
                    path: path.clone(),
                    line: Line { channel: Channel::Info, text },
                };
            }
        }
        if done == Done::Nothing || done == Done::UpdateCheck || done == Done::Load {
            if let Some(path) = self.config_to_save() {
                let mut text: String =
                    "Saving configuration from command line options to file: ".to_owned();
                text.append(path.as_str());
                text.append(". This will override any existing configuration.");
                return RunStep::Save {
                    path: path.clone(),
                    line: Line { channel: Channel::Info, text },
                };
            }
        }
        if done == Done::LogSetUp {
            RunStep::Act
        } else {
            RunStep::SetUpLog(self.init_logging())
        }
    }

    /// Where a configuration file lies whose path is relative or not.
    pub fn config_location(is_relative: bool) -> (location: ConfigLocation)
        ensures
            location == (if is_relative {
                ConfigLocation::BelowCurrentDir
            } else {
                ConfigLocation::AsGiven
            }),
    {
        if is_relative {
            ConfigLocation::BelowCurrentDir
        } else {
            ConfigLocation::AsGiven
        }
    }

    /// The run that a configuration file holds. It is an error, whose kind and message are
    /// kept, if the file cannot be opened or holds no mode.
    pub fn read_from_config(read: ConfigRead) -> (cli: Result<Cli, ConfigError>)
        ensures
            cli == (match read {
                ConfigRead::OpenFailed { kind, message } => Err::<Cli, ConfigError>(
                    (ConfigError { kind: ConfigErrorKind::File(kind), message }),
                ),
                ConfigRead::ParseFailed { fault, message } => Err::<Cli, ConfigError>(
                    (ConfigError { kind: fault_kind(fault), message }),
                ),
                ConfigRead::Parsed(mode) => Ok::<Cli, ConfigError>((Cli { mode })),
            }),
    {
        match read {
            ConfigRead::OpenFailed { kind, message } => Err(
                ConfigError { kind: ConfigErrorKind::File(kind), message },
            ),
            ConfigRead::ParseFailed { fault, message } => {
                let kind: ConfigErrorKind = match fault {
                    JsonFault::Syntax | JsonFault::Data => ConfigErrorKind::InvalidData,
                    JsonFault::Eof => ConfigErrorKind::UnexpectedEof,
                };
                Err(ConfigError { kind, message })
            },
            ConfigRead::Parsed(mode) => Ok(Cli::new_from_mode(mode)),
        }
    }

    /// What is written to the configuration file at `config_path`, given whether it could be
    /// created. It is an error, the same, if it could not.
    pub fn save_to_config(
        &self,
        config_path: &str,
        created: Result<(), ConfigError>,
    ) -> (save: Result<ConfigSave, ConfigError>)
        ensures
            match created {
                Err(error) => save == Err::<ConfigSave, ConfigError>(error),
                Ok(_) => {
                    &&& save is Ok
                    &&& key_text(save->Ok_0.key) == config_key(self.mode)
                    &&& save->Ok_0.line@ == (LineView {
                        channel: Channel::Info,
                        text: if config_key(self.mode) is Some {
                            "Written config to: `"@ + config_path@ + "`"@
                        } else {
                            "Nothing to save."@
                        },
                    })
                },
            },
    {
        match created {
            Err(error) => {
                return Err(error);
            },
            Ok(_) => {},
        }
        let key: &'static str = match &self.mode {
            Mode::Input(_) => "input",
            Mode::Overview(_) => "overview",
            Mode::File(_) => "file",
            Mode::Multi(_) => "multi",
            Mode::SelfUpdate | Mode::Load(_) => {
                return Ok(
                    ConfigSave {
                        key: None,
                        line: Line { channel: Channel::Info, text: "Nothing to save.".to_owned() },
                    },
                );
            },
        };
        let mut text: String = "Written config to: `".to_owned();
        text.append(config_path);
        text.append("`");
        Ok(ConfigSave { key: Some(key), line: Line { channel: Channel::Info, text } })
    }

    /// How the log of the run is set up.
    pub fn init_logging(&self) -> (settings: LogSettings)
        ensures
            settings@ == log_settings(self.mode),
    {
        let debug: bool = match &self.mode {
            Mode::File(file_mode) => file_mode.common.debug,
            Mode::Input(input_mode) => input_mode.common.debug,
            Mode::Multi(multi_file_mode) => multi_file_mode.common.debug,
            Mode::Overview(overview_mode) => overview_mode.common.debug,
            Mode::SelfUpdate | Mode::Load(_) => false,
        };
        let color: bool = match &self.mode {
            Mode::File(file_mode) => file_mode.common.color,
            Mode::Input(input_mode) => input_mode.common.color,
            Mode::Multi(multi_file_mode) => multi_file_mode.common.color,
            Mode::Overview(overview_mode) => overview_mode.common.color,
            Mode::SelfUpdate | Mode::Load(_) => false,
        };
        let install: bool = match &self.mode {
            Mode::Input(input_mode) => !input_mode.common.quiet,
            _ => true,
        };
        let filter: &'static str = if debug {
            "debug"
        } else {
            "info"
        };
        LogSettings { filter, color, install }
    }

    /// What the run does. Arguments that were to be replaced and were not are refused.
    pub fn into_action(self) -> (action: Action)
        ensures
            match self.mode {
                Mode::Input(arguments) => action == Action::Input(arguments),
                Mode::Overview(arguments) => action == Action::Overview(arguments),
                Mode::File(arguments) => action == Action::File(arguments),
                Mode::Multi(arguments) => action == Action::Multi(arguments),
                Mode::SelfUpdate => action == Action::SelfUpdate,
                Mode::Load(_) => action is Refuse && action->Refuse_0@ == refusal(),
            },
    {
        match self.mode {
            Mode::Input(arguments) => Action::Input(arguments),
            Mode::Overview(arguments) => Action::Overview(arguments),
            Mode::File(arguments) => Action::File(arguments),
            Mode::Multi(arguments) => Action::Multi(arguments),
            Mode::SelfUpdate => Action::SelfUpdate,
            Mode::Load(_) => Action::Refuse(
                Line {
                    channel: Channel::Error,
                    text:
                        "Should already handled by other functions. Loaded config was processed already.".to_owned(),
                },
            ),
        }
    }
}

/// The arguments of a run are saved, before its log is set up and it acts, exactly if its mode
/// takes a file to save them to and one was given, whatever its other arguments are; they are
/// saved to that very file, and only once.
pub proof fn arguments_are_saved_exactly_where_asked(cli: Cli, done: Done, step: RunStep)
    requires
        call_ensures(Cli::next, (&cli, done), step),
    ensures
        ({
            let save_config = match cli.mode {
                Mode::Input(arguments) => arguments.common.save_config,
                Mode::Overview(arguments) => arguments.common.save_config,
                Mode::File(arguments) => arguments.common.save_config,
                Mode::Multi(arguments) => arguments.common.save_config,
                _ => None,
            };
            let is_open = done == Done::Nothing || done == Done::UpdateCheck || done == Done::Load;
            &&& step is Save <==> is_open && save_config is Some
            &&& step is Save ==> {
                &&& step->Save_path@ == save_config->0@
                &&& step->Save_line.channel == Channel::Info
                &&& step->Save_line.text@
                    == "Saving configuration from command line options to file: "@
                    + save_config->0@ + ". This will override any existing configuration."@
            }
        }),
{
    let view = step@;
    assert(view == due_step(cli.mode, done));
    assert(step is Save <==> view is Save);
}

/// Saved arguments replace those of a run exactly if it is to load some and a file was given;
/// they are loaded from that very file, and only once.
pub proof fn arguments_are_loaded_exactly_where_asked(cli: Cli, done: Done, step: RunStep)
    requires
        call_ensures(Cli::next, (&cli, done), step),
    ensures
        step is Load <==> (done == Done::Nothing || done == Done::UpdateCheck) && cli.mode is Load
            && cli.mode->Load_0.config is Some,
        step is Load ==> {
            &&& step->Load_path@ == cli.mode->Load_0.config->0@
            &&& step->Load_line.channel == Channel::Info
            &&& step->Load_line.text@ == "Loading configuration from file: "@
                + cli.mode->Load_0.config->0@
        },
{
    let view = step@;
    assert(view == due_step(cli.mode, done));
    assert(step is Load <==> view is Load);
}

/// A newer release is looked for at the beginning of a self-update and nowhere else; a run acts
/// once its log is set up and never before; and where nothing else is due, its log is set up
/// as its arguments say.
pub proof fn runs_act_with_their_log_set_up(
    cli: Cli,
    done: Done,
    step: RunStep,
    settings: LogSettings,
)
    requires
        call_ensures(Cli::next, (&cli, done), step),
        call_ensures(Cli::init_logging, (&cli,), settings),
    ensures
        step is CheckUpdate <==> done == Done::Nothing && cli.mode is SelfUpdate,
        step is Act <==> done == Done::LogSetUp,
        step is SetUpLog <==> !(step is CheckUpdate || step is Load || step is Save || step is Act),
        step is SetUpLog ==> {
            &&& step->SetUpLog_0.filter@ == settings.filter@
            &&& step->SetUpLog_0.color == settings.color
            &&& step->SetUpLog_0.install == settings.install
        },
{
    let view = step@;
    assert(view == due_step(cli.mode, done));
    assert(step is CheckUpdate <==> view is CheckUpdate);
    assert(step is Act <==> view is Act);
    assert(step is SetUpLog <==> view is SetUpLog);
    if step is SetUpLog {
        assert(view->SetUpLog_0 == step->SetUpLog_0@);
        assert(settings@ == step->SetUpLog_0@);
    }
}

/// The log tells details exactly if the arguments ask for them, and has colors exactly if they
/// ask for them. There is one, except in the quiet look-up of one image.
pub proof fn log_follows_the_arguments(cli: Cli, settings: LogSettings)
    requires
        call_ensures(Cli::init_logging, (&cli,), settings),
    ensures
        ({
            let (debug, color) = match cli.mode {
                Mode::Input(arguments) => (arguments.common.debug, arguments.common.color),
                Mode::Overview(arguments) => (arguments.common.debug, arguments.common.color),
                Mode::File(arguments) => (arguments.common.debug, arguments.common.color),
                Mode::Multi(arguments) => (arguments.common.debug, arguments.common.color),
                _ => (false, false),
            };
            &&& debug ==> settings.filter@ == "debug"@
            &&& !debug ==> settings.filter@ == "info"@
            &&& settings.color == color
        }),
        settings.install <==> !(cli.mode is Input && cli.mode->Input_0.common.quiet),
{
    assert(settings@.filter == settings.filter@);
    assert(settings@.color == settings.color);
    assert(settings@.install == settings.install);
}

/// A configuration that was read gives a run that acts on what was read, with all its
/// arguments; only a configuration that is again to be loaded is refused.
pub proof fn loaded_arguments_are_acted_on(mode: Mode, read: Result<Cli, ConfigError>, action: Action)
    requires
        call_ensures(Cli::read_from_config, (ConfigRead::Parsed(mode),), read),
        read is Ok ==> call_ensures(Cli::into_action, (read->Ok_0,), action),
    ensures
        read is Ok && read->Ok_0.mode == mode,
        mode is Input ==> action is Input && action->Input_0 == mode->Input_0,
        mode is Overview ==> action is Overview && action->Overview_0 == mode->Overview_0,
        mode is File ==> action is File && action->File_0 == mode->File_0,
        mode is Multi ==> action is Multi && action->Multi_0 == mode->Multi_0,
        mode is SelfUpdate ==> action is SelfUpdate,
        mode is Load ==> {
            &&& action is Refuse
            &&& action->Refuse_0.channel == Channel::Error
            &&& action->Refuse_0.text@
                == "Should already handled by other functions. Loaded config was processed already."@
        },
{
    if mode is Load {
        assert(action->Refuse_0@.text == action->Refuse_0.text@);
    }
}

/// A configuration that cannot be opened or read gives no run but an error with the message
/// that there was. It is of the kind that the opening gave; else it tells whether the text ends
/// too early.
pub proof fn unreadable_configurations_are_errors(
    kind: std::io::ErrorKind,
    fault: JsonFault,
    message: String,
    unopened: Result<Cli, ConfigError>,
    unread: Result<Cli, ConfigError>,
)
    requires
        call_ensures(Cli::read_from_config, (ConfigRead::OpenFailed { kind, message },), unopened),
        call_ensures(Cli::read_from_config, (ConfigRead::ParseFailed { fault, message },), unread),
    ensures
        unopened is Err && unread is Err,
        unopened->Err_0.message == message && unread->Err_0.message == message,
        unopened->Err_0.kind == ConfigErrorKind::File(kind),
        unread->Err_0.kind == ConfigErrorKind::UnexpectedEof <==> fault == JsonFault::Eof,
        unread->Err_0.kind == ConfigErrorKind::InvalidData <==> fault != JsonFault::Eof,
{
}

/// A run is that of the mode that it is given.
pub proof fn runs_are_of_their_mode(mode: Mode, cli: Cli)
    requires
        call_ensures(Cli::new_from_mode, (mode,), cli),
    ensures
        cli.mode == mode,
{
}

/// A run acts as its mode says, with the arguments of its mode.
pub proof fn runs_act_as_their_mode_says(cli: Cli, action: Action)
    requires
        call_ensures(Cli::into_action, (cli,), action),
    ensures
        action is Input <==> cli.mode is Input,
        action is Overview <==> cli.mode is Overview,
        action is File <==> cli.mode is File,
        action is Multi <==> cli.mode is Multi,
        action is SelfUpdate <==> cli.mode is SelfUpdate,
        action is Refuse <==> cli.mode is Load,
        action is Input ==> action->Input_0 == cli.mode->Input_0,
        action is Overview ==> action->Overview_0 == cli.mode->Overview_0,
        action is File ==> action->File_0 == cli.mode->File_0,
        action is Multi ==> action->Multi_0 == cli.mode->Multi_0,
{
}

/// A relative path of a configuration file is taken from the current directory, and only such
/// a path.
pub proof fn relative_configurations_lie_below_the_current_dir(
    is_relative: bool,
    location: ConfigLocation,
)
    requires
        call_ensures(Cli::config_location, (is_relative,), location),
    ensures
        location == ConfigLocation::BelowCurrentDir <==> is_relative,
        location == ConfigLocation::AsGiven <==> !is_relative,
{
}

/// Once the file is created, the arguments of a mode are written under the key of that mode,
/// whatever they are, and it is told where; a mode without such arguments writes nothing and
/// tells that. A file that cannot be created is the error that it was.
pub proof fn arguments_are_written_under_their_mode(
    cli: Cli,
    config_path: &str,
    error: ConfigError,
    save: Result<ConfigSave, ConfigError>,
    failed: Result<ConfigSave, ConfigError>,
)
    requires
        call_ensures(Cli::save_to_config, (&cli, config_path, Ok::<(), ConfigError>(())), save),
        call_ensures(Cli::save_to_config, (&cli, config_path, Err::<(), ConfigError>(error)), failed),
    ensures
        failed == Err::<ConfigSave, ConfigError>(error),
        save is Ok,
        save->Ok_0.key is None <==> cli.mode is SelfUpdate || cli.mode is Load,
        cli.mode is Input ==> save->Ok_0.key->0@ == "input"@,
        cli.mode is Overview ==> save->Ok_0.key->0@ == "overview"@,
        cli.mode is File ==> save->Ok_0.key->0@ == "file"@,
        cli.mode is Multi ==> save->Ok_0.key->0@ == "multi"@,
        save->Ok_0.line.channel == Channel::Info,
        save->Ok_0.key is Some ==> save->Ok_0.line.text@ == "Written config to: `"@ + config_path@
            + "`"@,
        save->Ok_0.key is None ==> save->Ok_0.line.text@ == "Nothing to save."@,
{
    assert(save->Ok_0.line@.text == save->Ok_0.line.text@);
}

} // verus!

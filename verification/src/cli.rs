//! The command line: what was asked for, and the steps that carry it out.

use crate::engine::{EngineStep, HttpNuOptions};
use crate::steps::Steps;
use crate::text::same_text;
use ipnet::IpNet;
use std::path::PathBuf;
use vstd::prelude::*;

verus! {

/// A range of network addresses. It is only carried to where it is used.
#[verifier::external_type_specification]
#[verifier::external_body]
pub struct ExIpNet(IpNet);

/// The exit status of a run that failed.
pub const FAILURE: i32 = 1;

/// The exit status of a run that succeeded.
pub const SUCCESS: i32 = 0;

/// A path on the command line, and the text in which it is shown.
#[derive(Debug)]
pub struct CliPath {
    pub path: PathBuf,
    pub text: String,
}

/// How the log is written.
#[derive(Clone, Copy, Debug, PartialEq, Eq, Structural)]
pub enum LogFormat {
    /// For people, with lines that are updated in place.
    Human,
    /// One JSON object per line.
    Jsonl,
}

impl Default for LogFormat {
    fn default() -> (format: LogFormat)
        ensures
            format == LogFormat::Human,
    {
        LogFormat::Human
    }
}

/// The arguments of `eval`.
#[derive(Debug)]
pub struct EvalArgs {
    /// The script file, or `-` for standard input.
    pub file: Option<String>,
    /// The script itself.
    pub commands: Option<String>,
    pub store: Option<CliPath>,
    pub services: bool,
    pub datastar: bool,
}

/// A subcommand.
#[derive(Debug)]
pub enum Command {
    /// Evaluate a script and exit.
    Eval(EvalArgs),
}

/// The command line.
#[derive(Debug)]
pub struct Args {
    pub command: Option<Command>,
    /// The address to listen on.
    pub addr: Option<String>,
    /// The certificate and key.
    pub tls: Option<CliPath>,
    pub plugins: Vec<PathBuf>,
    /// The script file, or `-` for standard input.
    pub script: Option<String>,
    /// The script itself.
    pub commands: Option<String>,
    pub watch: bool,
    pub log_format: LogFormat,
    pub store: Option<CliPath>,
    pub services: bool,
    /// The topic that holds the script.
    pub topic: Option<String>,
    pub expose: Option<String>,
    pub dev: bool,
    pub datastar: bool,
    pub trust_proxies: Vec<IpNet>,
    pub include_paths: Vec<PathBuf>,
}

/// What is announced of the options when the server starts.
#[derive(Debug)]
pub struct StartupOptions {
    pub watch: bool,
    pub tls: Option<String>,
    pub store: Option<String>,
    pub topic: Option<String>,
    pub expose: Option<String>,
    pub services: bool,
    pub datastar: bool,
}

/// What handling a request depends on.
#[derive(Debug)]
pub struct AppConfig {
    pub trusted_proxies: Vec<IpNet>,
    pub datastar: bool,
    pub dev: bool,
}

/// Why the program exits without having done what it is for.
#[derive(Clone, Copy, Debug, PartialEq, Eq, Structural)]
pub enum CliError {
    /// `eval` with both a file and a script.
    FileAndCommands,
    /// `eval` with neither.
    NothingToEvaluate,
    /// `eval` with services but no store to run them on.
    ServicesWithoutStore,
    /// No address to listen on.
    NoAddress,
    /// No script to serve.
    NothingToServe,
}

/// What the user is told.
pub open spec fn error_message(error: CliError) -> Seq<char> {
    match error {
        CliError::FileAndCommands => "Error: cannot specify both file and --commands"@,
        CliError::NothingToEvaluate => "Error: provide a file or use --commands"@,
        CliError::ServicesWithoutStore => "Error: --services requires --store"@,
        CliError::NoAddress =>
            "Usage: http-nu <ADDR> [OPTIONS]\n       http-nu eval [OPTIONS]\n\nRun `http-nu --help` for more information."@,
        CliError::NothingToServe => "Error: provide a script file, --commands, or --topic"@,
    }
}

impl CliError {
    /// What to tell the user before exiting with [`FAILURE`].
    pub fn message(&self) -> (text: String)
        ensures
            text@ == error_message(*self),
    {
        match self {
            CliError::FileAndCommands => "Error: cannot specify both file and --commands".to_owned(),
            CliError::NothingToEvaluate => "Error: provide a file or use --commands".to_owned(),
            CliError::ServicesWithoutStore => "Error: --services requires --store".to_owned(),
            CliError::NoAddress =>
                "Usage: http-nu <ADDR> [OPTIONS]\n       http-nu eval [OPTIONS]\n\nRun `http-nu --help` for more information.".to_owned(),
            CliError::NothingToServe =>
                "Error: provide a script file, --commands, or --topic".to_owned(),
        }
    }
}

/// The line to report when a store cannot be opened.
pub fn store_failure(path: &CliPath, error: &str) -> (line: String)
    ensures
        line@ == "Failed to open store at "@ + path.text@ + ": "@ + error@,
{
    "Failed to open store at ".to_owned().concat(path.text.as_str()).concat(": ").concat(error)
}

/// The text in which a path is shown.
pub open spec fn shown(path: Option<CliPath>) -> Option<String> {
    match path {
        Some(path) => Some(path.text),
        None => None,
    }
}

fn show(path: &Option<CliPath>) -> (text: Option<String>)
    ensures
        text == shown(*path),
{
    match path {
        Some(path) => Some(path.text.clone()),
        None => None,
    }
}

fn copy_text(text: &Option<String>) -> (copy: Option<String>)
    ensures
        copy == *text,
{
    match text {
        Some(text) => Some(text.clone()),
        None => None,
    }
}

/// The options that scripts of a server see.
pub open spec fn server_options(args: Args) -> HttpNuOptions {
    HttpNuOptions {
        dev: args.dev,
        datastar: args.datastar,
        watch: args.watch,
        tls: shown(args.tls),
        store: shown(args.store),
        topic: args.topic,
        expose: args.expose,
        services: args.services,
    }
}

/// The options that a script sees which is only evaluated.
pub open spec fn eval_options(args: Args, eval: EvalArgs) -> HttpNuOptions {
    HttpNuOptions {
        dev: args.dev,
        datastar: eval.datastar,
        watch: false,
        tls: None,
        store: shown(eval.store),
        topic: None,
        expose: None,
        services: false,
    }
}

/// What is announced when a server starts.
pub open spec fn announced_options(args: Args) -> StartupOptions {
    StartupOptions {
        watch: args.watch,
        tls: shown(args.tls),
        store: shown(args.store),
        topic: args.topic,
        expose: args.expose,
        services: args.services,
        datastar: args.datastar,
    }
}

/// What scripts see of the options is what is announced of them.
pub proof fn law_options_are_announced(args: Args)
    ensures
        ({
            let seen = server_options(args);
            let told = announced_options(args);
            &&& seen.watch == told.watch
            &&& seen.tls == told.tls
            &&& seen.store == told.store
            &&& seen.topic == told.topic
            &&& seen.expose == told.expose
            &&& seen.services == told.services
            &&& seen.datastar == told.datastar
        }),
{
}

/// One step of an evaluation.
#[derive(Debug)]
pub enum EvalStep<'a> {
    /// Take the script from standard input.
    ReadStdin,
    /// Take the script from a file, and resolve the file's path.
    ReadFile(&'a String),
    /// Take the script from the command line.
    TakeCommands(&'a String),
    /// Take a step to make the engine.
    Engine(EngineStep<'a>),
    /// Open the store with everything that runs beside it.
    StartStore(&'a CliPath, &'a Option<String>),
    /// Open the store alone.
    OpenStore(&'a CliPath),
    /// Evaluate the script and show what it gives.
    Evaluate,
    /// Tell the user what is wrong, and exit.
    Fail(CliError),
}

/// Where `eval` takes its script from.
pub open spec fn eval_script<'a>(eval: &'a EvalArgs) -> EvalStep<'a> {
    match (&eval.file, &eval.commands) {
        (Some(_), Some(_)) => EvalStep::Fail(CliError::FileAndCommands),
        (None, None) => EvalStep::Fail(CliError::NothingToEvaluate),
        (Some(path), None) => if path@ == "-"@ {
            EvalStep::ReadStdin
        } else {
            EvalStep::ReadFile(path)
        },
        (None, Some(commands)) => EvalStep::TakeCommands(commands),
    }
}

/// What `eval` does about a store.
pub open spec fn eval_store<'a>(args: &'a Args, eval: &'a EvalArgs) -> Seq<EvalStep<'a>> {
    match &eval.store {
        Some(path) => seq![
            if eval.services {
                EvalStep::StartStore(path, &args.expose)
            } else {
                EvalStep::OpenStore(path)
            },
            EvalStep::Engine(EngineStep::ConfigureStore),
        ],
        None => if eval.services {
            seq![EvalStep::Fail(CliError::ServicesWithoutStore)]
        } else {
            seq![]
        },
    }
}

/// The steps of an evaluation before the store has its say.
pub open spec fn eval_head<'a>(args: &'a Args, eval: &'a EvalArgs) -> Seq<EvalStep<'a>> {
    seq![
        eval_script(eval),
        EvalStep::Engine(EngineStep::New),
        EvalStep::Engine(EngineStep::AddCustomCommands),
        EvalStep::Engine(EngineStep::SetLibDirs(&args.include_paths)),
        EvalStep::Engine(EngineStep::SetConst(eval_options(*args, *eval))),
    ] + eval_store(args, eval)
}

/// The steps of an evaluation after that.
pub open spec fn eval_tail<'a>(args: &'a Args) -> Seq<EvalStep<'a>> {
    Seq::new(
        args.plugins@.len(),
        |i: int| EvalStep::Engine(EngineStep::LoadPlugin(&args.plugins@[i])),
    ) + seq![EvalStep::Engine(EngineStep::SetSignals), EvalStep::Evaluate]
}

/// The steps of an evaluation. What the user got wrong ends them where it shows.
pub open spec fn eval_steps<'a>(args: &'a Args, eval: &'a EvalArgs) -> Seq<EvalStep<'a>> {
    if eval_script(eval) is Fail {
        seq![eval_script(eval)]
    } else if eval.services && eval.store is None {
        eval_head(args, eval)
    } else {
        eval_head(args, eval) + eval_tail(args)
    }
}

/// Lays out an evaluation. Where a step fails, its error is what comes of the
/// evaluation, and none behind it is taken.
pub fn plan_eval<'a>(args: &'a Args, eval: &'a EvalArgs) -> (result: Steps<EvalStep<'a>>)
    ensures
        result@ == eval_steps(args, eval),
{
    let mut steps: Vec<EvalStep<'a>> = Vec::new();
    match (&eval.file, &eval.commands) {
        (Some(_), Some(_)) => {
            steps.push(EvalStep::Fail(CliError::FileAndCommands));
            assert(steps@ =~= eval_steps(args, eval));
            return Steps::new(steps);
        },
        (None, None) => {
            steps.push(EvalStep::Fail(CliError::NothingToEvaluate));
            assert(steps@ =~= eval_steps(args, eval));
            return Steps::new(steps);
        },
        (Some(path), None) => {
            if same_text(path.as_str(), "-") {
                steps.push(EvalStep::ReadStdin);
            } else {
                steps.push(EvalStep::ReadFile(path));
            }
        },
        (None, Some(commands)) => {
            steps.push(EvalStep::TakeCommands(commands));
        },
    }
    steps.push(EvalStep::Engine(EngineStep::New));
    steps.push(EvalStep::Engine(EngineStep::AddCustomCommands));
    steps.push(EvalStep::Engine(EngineStep::SetLibDirs(&args.include_paths)));
    let options: HttpNuOptions = HttpNuOptions {
        dev: args.dev,
        datastar: eval.datastar,
        watch: false,
        tls: None,
        store: show(&eval.store),
        topic: None,
        expose: None,
        services: false,
    };
    steps.push(EvalStep::Engine(EngineStep::SetConst(options)));
    match &eval.store {
        Some(path) => {
            if eval.services {
                steps.push(EvalStep::StartStore(path, &args.expose));
            } else {
                steps.push(EvalStep::OpenStore(path));
            }
            steps.push(EvalStep::Engine(EngineStep::ConfigureStore));
        },
        None => {
            if eval.services {
                steps.push(EvalStep::Fail(CliError::ServicesWithoutStore));
                assert(steps@ =~= eval_steps(args, eval));
                return Steps::new(steps);
            }
        },
    }
    assert(steps@ =~= eval_head(args, eval));
    let mut i: usize = 0;
    while i < args.plugins.len()
        invariant
            i <= args.plugins@.len(),
            steps@ =~= eval_head(args, eval) + eval_tail(args).take(i as int),
        decreases args.plugins@.len() - i,
    {
        steps.push(EvalStep::Engine(EngineStep::LoadPlugin(&args.plugins[i])));
        i += 1;
    }
    steps.push(EvalStep::Engine(EngineStep::SetSignals));
    steps.push(EvalStep::Evaluate);
    assert(steps@ =~= eval_head(args, eval) + eval_tail(args));
    Steps::new(steps)
}

/// What an evaluation shows, and how it exits.
#[derive(Debug)]
pub struct EvalOutcome {
    /// The line for standard output.
    pub output: Option<String>,
    /// The line for standard error.
    pub error: Option<String>,
    pub status: i32,
}

/// Takes what the script gave, as text, or the error text.
pub fn eval_outcome(result: Result<String, String>) -> (outcome: EvalOutcome)
    ensures
        match result {
            Ok(text) => {
                &&& outcome.output == (if text@.len() == 0 {
                    None
                } else {
                    Some(text)
                })
                &&& outcome.error is None
                &&& outcome.status == SUCCESS
            },
            Err(error) => {
                &&& outcome.output is None
                &&& outcome.error == Some(error)
                &&& outcome.status == FAILURE
            },
        },
{
    match result {
        Ok(text) => {
            if text.as_str().is_empty() {
                EvalOutcome { output: None, error: None, status: SUCCESS }
            } else {
                EvalOutcome { output: Some(text), error: None, status: SUCCESS }
            }
        },
        Err(error) => EvalOutcome { output: None, error: Some(error), status: FAILURE },
    }
}

/// One step of a server.
#[derive(Debug)]
pub enum ServeStep<'a> {
    /// Open the store, with services or not, and expose its API at an address.
    StartStore(&'a CliPath, bool, &'a Option<String>),
    /// Start the clock, and make the base engine with these options.
    BuildEngine(HttpNuOptions),
    /// Choose where the script comes from, and load it.
    LoadScript,
    /// Serve at this address.
    Serve(&'a String),
    /// Tell the user what is wrong, and exit.
    Fail(CliError),
}

/// Where the script of a server comes from.
#[derive(Debug)]
pub enum ScriptSource<'a> {
    /// A topic of the store.
    Topic(&'a String),
    /// The command line.
    Commands(&'a String),
    /// Standard input.
    Stdin,
    /// A file. Changes below the other path, if there is one, are not changes of
    /// the script.
    File(&'a String, &'a Option<CliPath>),
}

/// Two sources contradict each other: a file and a script on the command line, or
/// a script on the command line that is to be watched. A topic in a store comes
/// before both.
pub open spec fn sources_conflict(args: Args) -> bool {
    &&& !(args.topic is Some && args.store is Some)
    &&& args.commands is Some
    &&& args.script is Some || args.watch
}

/// What the command line rules out: `--commands` goes with neither `--watch` nor
/// a script file, `--topic` with neither of the two, and services, topics and
/// an exposed API need a store.
pub open spec fn obeys_declared_rules(args: Args) -> bool {
    &&& args.commands is Some ==> !args.watch && args.script is None
    &&& args.topic is Some ==> args.script is None && args.commands is None && args.store is Some
    &&& args.services ==> args.store is Some
    &&& args.expose is Some ==> args.store is Some
}

/// Where a server takes its script from, if it is told.
pub open spec fn script_source<'a>(args: &'a Args) -> Result<ScriptSource<'a>, CliError> {
    if args.topic is Some && args.store is Some {
        Ok(ScriptSource::Topic(&args.topic->0))
    } else {
        match (&args.script, &args.commands) {
            (Some(path), _) => if path@ == "-"@ {
                Ok(ScriptSource::Stdin)
            } else {
                Ok(ScriptSource::File(path, &args.store))
            },
            (None, Some(commands)) => Ok(ScriptSource::Commands(commands)),
            (None, None) => Err(CliError::NothingToServe),
        }
    }
}

/// The steps of a server.
pub open spec fn serve_steps<'a>(args: &'a Args) -> Seq<ServeStep<'a>> {
    match &args.addr {
        None => seq![ServeStep::Fail(CliError::NoAddress)],
        Some(addr) => (match &args.store {
            Some(path) => seq![ServeStep::StartStore(path, args.services, &args.expose)],
            None => seq![],
        }) + seq![
            ServeStep::BuildEngine(server_options(*args)),
            ServeStep::LoadScript,
            ServeStep::Serve(addr),
        ],
    }
}

/// Whether there are sources that contradict each other.
pub fn has_source_conflict(args: &Args) -> (conflict: bool)
    ensures
        conflict == sources_conflict(*args),
{
    !(args.topic.is_some() && args.store.is_some()) && args.commands.is_some() && (
    args.script.is_some() || args.watch)
}

/// Chooses where the script of a server comes from.
pub fn choose_source<'a>(args: &'a Args) -> (source: Result<ScriptSource<'a>, CliError>)
    requires
        !sources_conflict(*args),
    ensures
        source == script_source(args),
{
    match (&args.topic, &args.store) {
        (Some(topic), Some(_)) => Ok(ScriptSource::Topic(topic)),
        _ => match (&args.script, &args.commands) {
            (Some(path), _) => {
                if same_text(path.as_str(), "-") {
                    Ok(ScriptSource::Stdin)
                } else {
                    Ok(ScriptSource::File(path, &args.store))
                }
            },
            (None, Some(commands)) => Ok(ScriptSource::Commands(commands)),
            (None, None) => Err(CliError::NothingToServe),
        },
    }
}

/// Lays out a server. Where a step fails, its error is what comes of the server,
/// and none behind it is taken.
pub fn plan_serve<'a>(args: &'a Args) -> (result: Steps<ServeStep<'a>>)
    ensures
        result@ == serve_steps(args),
{
    let mut steps: Vec<ServeStep<'a>> = Vec::new();
    match &args.addr {
        None => {
            steps.push(ServeStep::Fail(CliError::NoAddress));
        },
        Some(addr) => {
            if let Some(path) = &args.store {
                steps.push(ServeStep::StartStore(path, args.services, &args.expose));
            }
            let options: HttpNuOptions = HttpNuOptions {
                dev: args.dev,
                datastar: args.datastar,
                watch: args.watch,
                tls: show(&args.tls),
                store: show(&args.store),
                topic: copy_text(&args.topic),
                expose: copy_text(&args.expose),
                services: args.services,
            };
            steps.push(ServeStep::BuildEngine(options));
            steps.push(ServeStep::LoadScript);
            steps.push(ServeStep::Serve(addr));
        },
    }
    assert(steps@ =~= serve_steps(args));
    Steps::new(steps)
}

/// What is announced when the server starts.
pub fn startup_options(args: &Args) -> (options: StartupOptions)
    ensures
        options == announced_options(*args),
{
    StartupOptions {
        watch: args.watch,
        tls: show(&args.tls),
        store: show(&args.store),
        topic: copy_text(&args.topic),
        expose: copy_text(&args.expose),
        services: args.services,
        datastar: args.datastar,
    }
}

/// What handling requests depends on. The address ranges are moved out of the
/// command line.
pub fn app_config(args: Args) -> (config: AppConfig)
    ensures
        config.trusted_proxies == args.trust_proxies,
        config.datastar == args.datastar,
        config.dev == args.dev,
{
    AppConfig {
        trusted_proxies: args.trust_proxies,
        datastar: args.datastar,
        dev: args.dev,
    }
}

/// A command line that obeys the declared rules names at most one source, and a
/// topic that it names is the one.
pub proof fn law_declared_rules_leave_one_source(args: Args)
    requires
        obeys_declared_rules(args),
    ensures
        !sources_conflict(args),
        args.topic is Some <==> (script_source(&args) matches Ok(source) && source is Topic),
        args.commands is Some <==> (script_source(&args) matches Ok(source) && source is Commands),
        args.script is Some <==> (script_source(&args) matches Ok(source) && (source is Stdin
            || source is File)),
{
}

/// A server either ends its steps by serving or by telling the user what is
/// wrong, and does neither before the end.
pub proof fn law_serving_or_failing_comes_last(args: Args, at: int)
    requires
        0 <= at < serve_steps(&args).len(),
    ensures
        serve_steps(&args)[at] is Serve || serve_steps(&args)[at] is Fail <==> at == serve_steps(
            &args,
        ).len() - 1,
{
}

/// An evaluation either ends its steps by evaluating or by telling the user what
/// is wrong, and does neither before the end.
pub proof fn law_evaluating_or_failing_comes_last(args: Args, eval: EvalArgs, at: int)
    requires
        0 <= at < eval_steps(&args, &eval).len(),
    ensures
        eval_steps(&args, &eval)[at] is Evaluate || eval_steps(&args, &eval)[at] is Fail <==> at
            == eval_steps(&args, &eval).len() - 1,
{
}

/// Without a store on the command line, nothing touches one.
pub proof fn law_no_store_without_path(args: Args, eval: EvalArgs)
    requires
        args.store is None,
        eval.store is None,
    ensures
        forall|i: int|
            0 <= i < serve_steps(&args).len() ==> !((#[trigger] serve_steps(&args)[i]) is StartStore),
        !(script_source(&args) matches Ok(source) && source is Topic),
        forall|i: int|
            0 <= i < eval_steps(&args, &eval).len() ==> !((#[trigger] eval_steps(&args, &eval)[i])
                is StartStore) && !(eval_steps(&args, &eval)[i] is OpenStore),
{
}

/// An evaluation ends at the first step that fails, with the error of that step.
pub proof fn law_evaluation_ends_at_first_failure<E>(
    args: Args,
    eval: EvalArgs,
    outcomes: Seq<Result<(), E>>,
)
    requires
        eval_steps(&args, &eval).len() <= outcomes.len(),
    ensures
        crate::steps::end_at_first_failure(eval_steps(&args, &eval), outcomes),
{
    crate::steps::law_steps_end_at_first_failure(eval_steps(&args, &eval), outcomes);
}

/// A server ends at the first step that fails, with the error of that step: it
/// does not serve unless its store is open, its engine is made and it is told where
/// its script comes from.
pub proof fn law_server_ends_at_first_failure<E>(args: Args, outcomes: Seq<Result<(), E>>)
    requires
        serve_steps(&args).len() <= outcomes.len(),
    ensures
        crate::steps::end_at_first_failure(serve_steps(&args), outcomes),
{
    crate::steps::law_steps_end_at_first_failure(serve_steps(&args), outcomes);
}

/// `eval` is given one script: a file or commands, and not both.
pub open spec fn has_one_script(eval: EvalArgs) -> bool {
    eval.file is Some <==> eval.commands is None
}

/// An evaluation takes its script from where it is told, and from there alone:
/// commands from the command line, a file named `-` from standard input, and any
/// other file from that file. It does so before anything else. What is told is
/// wrong where there is a file as well as commands, or neither, and nothing is
/// done then.
pub proof fn law_evaluation_takes_the_script_it_is_given(
    args: Args,
    eval: EvalArgs,
    text: &String,
)
    ensures
        ({
            let steps = eval_steps(&args, &eval);
            &&& steps.contains(EvalStep::TakeCommands(text)) <==> eval.commands == Some(*text)
                && eval.file is None
            &&& steps.contains(EvalStep::ReadStdin) <==> (eval.file matches Some(file) && file@
                == "-"@) && eval.commands is None
            &&& steps.contains(EvalStep::ReadFile(text)) <==> eval.file == Some(*text) && text@
                != "-"@ && eval.commands is None
            &&& steps.contains(EvalStep::Fail(CliError::FileAndCommands)) <==> eval.file is Some
                && eval.commands is Some
            &&& steps.contains(EvalStep::Fail(CliError::NothingToEvaluate)) <==> eval.file is None
                && eval.commands is None
            &&& has_one_script(eval) <==> steps[0] is TakeCommands || steps[0] is ReadStdin
                || steps[0] is ReadFile
            &&& !has_one_script(eval) ==> steps.len() == 1
            &&& forall|i: int|
                0 < i < steps.len() ==> !((#[trigger] steps[i]) is TakeCommands
                    || steps[i] is ReadStdin || steps[i] is ReadFile)
        }),
{
    let steps = eval_steps(&args, &eval);
    let first = steps[0];
    assert(steps.contains(first));
    assert forall|i: int| 0 < i < steps.len() implies !((#[trigger] steps[i]) is TakeCommands
        || steps[i] is ReadStdin || steps[i] is ReadFile) && steps[i] != EvalStep::Fail(
        CliError::FileAndCommands,
    ) && steps[i] != EvalStep::Fail(CliError::NothingToEvaluate) by {
    }
    if eval.commands == Some(*text) && eval.file is None {
        assert(first == EvalStep::TakeCommands(text));
    }
    if eval.file == Some(*text) && text@ != "-"@ && eval.commands is None {
        assert(first == EvalStep::ReadFile(text));
    }
    if steps.contains(EvalStep::TakeCommands(text)) {
        let i = choose|i: int| 0 <= i < steps.len() && steps[i] == EvalStep::TakeCommands(text);
        assert(i == 0);
    }
    if steps.contains(EvalStep::ReadFile(text)) {
        let i = choose|i: int| 0 <= i < steps.len() && steps[i] == EvalStep::ReadFile(text);
        assert(i == 0);
    }
    if steps.contains(EvalStep::ReadStdin) {
        let i = choose|i: int| 0 <= i < steps.len() && steps[i] == EvalStep::ReadStdin;
        assert(i == 0);
    }
    if steps.contains(EvalStep::Fail(CliError::FileAndCommands)) {
        let i = choose|i: int|
            0 <= i < steps.len() && steps[i] == EvalStep::Fail(CliError::FileAndCommands);
        assert(i == 0);
    }
    if steps.contains(EvalStep::Fail(CliError::NothingToEvaluate)) {
        let i = choose|i: int|
            0 <= i < steps.len() && steps[i] == EvalStep::Fail(CliError::NothingToEvaluate);
        assert(i == 0);
    }
}

/// Behind the script, an evaluation makes an engine with the directories and the
/// options that were given, and opens the store if there is one: with all that
/// runs beside it if services are asked for, and else alone. Services without a
/// store end it there. Otherwise every plugin is loaded, in order, and the script
/// is evaluated at last.
pub proof fn law_evaluation_uses_what_it_is_given(args: Args, eval: EvalArgs)
    requires
        has_one_script(eval),
    ensures
        ({
            let steps = eval_steps(&args, &eval);
            let n = steps.len();
            let stored = crate::trace::once_if(eval.store is Some);
            &&& steps[1] == EvalStep::Engine(EngineStep::New)
            &&& steps[2] == EvalStep::Engine(EngineStep::AddCustomCommands)
            &&& steps[3] == EvalStep::Engine(EngineStep::SetLibDirs(&args.include_paths))
            &&& steps[4] matches EvalStep::Engine(EngineStep::SetConst(seen)) && seen.dev
                == args.dev && seen.datastar == eval.datastar && !seen.watch && seen.tls is None
                && seen.topic is None && seen.expose is None && !seen.services && (
            match eval.store {
                Some(path) => seen.store == Some(path.text),
                None => seen.store is None,
            })
            &&& eval.store matches Some(path) ==> steps[5] == (if eval.services {
                EvalStep::StartStore(&path, &args.expose)
            } else {
                EvalStep::OpenStore(&path)
            }) && steps[6] == EvalStep::Engine(EngineStep::ConfigureStore)
            &&& eval.store is None && eval.services ==> n == 6 && steps[5] == EvalStep::Fail(
                CliError::ServicesWithoutStore,
            )
            &&& eval.store is Some || !eval.services ==> {
                &&& n == 7 + 2 * stored + args.plugins@.len()
                &&& forall|i: int|
                    0 <= i < args.plugins@.len() ==> #[trigger] steps[5 + 2 * stored + i]
                        == EvalStep::Engine(EngineStep::LoadPlugin(&args.plugins@[i]))
                &&& steps[n - 2] == EvalStep::Engine(EngineStep::SetSignals)
                &&& steps[n - 1] is Evaluate
            }
        }),
{
}

/// A server with an address opens its store if there is one, with the services and
/// at the address that were given, makes its engine, loads its script and serves
/// at its address, in this order and nothing else. Without an address it does
/// none of this.
pub proof fn law_server_uses_what_it_is_given(args: Args)
    ensures
        ({
            let steps = serve_steps(&args);
            let n = steps.len();
            &&& args.addr is None ==> n == 1 && steps[0] == ServeStep::Fail(CliError::NoAddress)
            &&& args.addr matches Some(addr) ==> {
                &&& n == 3 + crate::trace::once_if(args.store is Some)
                &&& args.store matches Some(path) ==> steps[0] == ServeStep::StartStore(
                    &path,
                    args.services,
                    &args.expose,
                )
                &&& steps[n - 3] matches ServeStep::BuildEngine(seen) && sees_what_was_given(
                    seen,
                    args,
                )
                &&& steps[n - 2] is LoadScript
                &&& steps[n - 1] == ServeStep::Serve(&addr)
            }
        }),
{
}

/// Scripts see the options as they were given, and paths as they are shown.
pub open spec fn sees_what_was_given(seen: HttpNuOptions, args: Args) -> bool {
    &&& seen.dev == args.dev
    &&& seen.datastar == args.datastar
    &&& seen.watch == args.watch
    &&& seen.services == args.services
    &&& seen.topic == args.topic
    &&& seen.expose == args.expose
    &&& seen.tls is Some <==> args.tls is Some
    &&& args.tls matches Some(path) ==> seen.tls == Some(path.text)
    &&& seen.store is Some <==> args.store is Some
    &&& args.store matches Some(path) ==> seen.store == Some(path.text)
}

/// What is announced of the options is what was given.
pub proof fn law_announcement_is_what_was_given(args: Args)
    ensures
        ({
            let told = announced_options(args);
            &&& told.watch == args.watch
            &&& told.services == args.services
            &&& told.datastar == args.datastar
            &&& told.topic == args.topic
            &&& told.expose == args.expose
            &&& told.tls is Some <==> args.tls is Some
            &&& args.tls matches Some(path) ==> told.tls == Some(path.text)
            &&& told.store is Some <==> args.store is Some
            &&& args.store matches Some(path) ==> told.store == Some(path.text)
        }),
{
}

/// A server takes its script from the topic if one is given with a store to find
/// it in. If not, it takes it from the file that is given, `-` meaning standard
/// input, or else from the commands. It is told that there is nothing to serve
/// exactly if none of these is given.
pub proof fn law_server_takes_the_script_it_is_given(args: Args, text: &String)
    requires
        !sources_conflict(args),
    ensures
        ({
            let source = script_source(&args);
            let topic = args.topic is Some && args.store is Some;
            &&& source == Ok::<ScriptSource, CliError>(ScriptSource::Topic(text)) <==> args.topic
                == Some(*text) && args.store is Some
            &&& source == Ok::<ScriptSource, CliError>(ScriptSource::Commands(text)) <==> !topic
                && args.commands == Some(*text)
            &&& source == Ok::<ScriptSource, CliError>(ScriptSource::Stdin) <==> !topic && (
            args.script matches Some(file) && file@ == "-"@)
            &&& source == Ok::<ScriptSource, CliError>(ScriptSource::File(text, &args.store)) <==> !topic
                && args.script == Some(*text) && text@ != "-"@
            &&& source == Err::<ScriptSource, CliError>(CliError::NothingToServe) <==> !topic
                && args.script is None && args.commands is None
        }),
{
}

/// Sources contradict each other only where commands are given, and then with a
/// file or a watch. A topic in a store is never contradicted.
pub proof fn law_only_commands_can_contradict(args: Args)
    ensures
        sources_conflict(args) <==> args.commands is Some && (args.script is Some || args.watch)
            && (args.topic is None || args.store is None),
{
}

} // verus!

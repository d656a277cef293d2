use http_nu_core::cli::{
    app_config, choose_source, eval_outcome, has_source_conflict, plan_eval, plan_serve,
    startup_options, store_failure, Args, CliError, CliPath, EvalArgs, EvalStep, LogFormat,
    ScriptSource, ServeStep, FAILURE, SUCCESS,
};
use http_nu_core::engine::{create_base_engine, EngineStep, HttpNuOptions};
use http_nu_core::steps::Steps;
use std::path::PathBuf;

/// All steps, where none fails.
fn all<S>(mut steps: Steps<S>) -> Vec<S> {
    let mut taken = Vec::new();
    while let Ok(Some(step)) = steps.after::<()>(Ok(())) {
        taken.push(step);
    }
    taken
}

fn cli_path(text: &str) -> CliPath {
    CliPath { path: PathBuf::from(text), text: text.to_string() }
}

fn args() -> Args {
    Args {
        command: None,
        addr: Some(":3001".to_string()),
        tls: None,
        plugins: Vec::new(),
        script: None,
        commands: None,
        watch: false,
        log_format: LogFormat::default(),
        store: None,
        services: false,
        topic: None,
        expose: None,
        dev: false,
        datastar: false,
        trust_proxies: Vec::new(),
        include_paths: Vec::new(),
    }
}

fn eval() -> EvalArgs {
    EvalArgs { file: None, commands: None, store: None, services: false, datastar: false }
}

fn options() -> HttpNuOptions {
    HttpNuOptions {
        dev: true,
        datastar: false,
        watch: false,
        tls: None,
        store: None,
        topic: None,
        expose: None,
        services: false,
    }
}

#[test]
fn the_log_is_for_people_by_default() {
    assert_eq!(LogFormat::default(), LogFormat::Human);
}

#[test]
fn a_base_engine_is_made_step_by_step() {
    let plugins = vec![PathBuf::from("a"), PathBuf::from("b")];
    let dirs = vec![PathBuf::from("lib")];
    let steps = all(create_base_engine(&plugins, &dirs, true, options()));
    assert!(matches!(
        steps.as_slice(),
        [
            EngineStep::New,
            EngineStep::AddCustomCommands,
            EngineStep::SetLibDirs(set),
            EngineStep::SetConst(HttpNuOptions { dev: true, .. }),
            EngineStep::LoadPlugin(first),
            EngineStep::LoadPlugin(second),
            EngineStep::ConfigureStore,
            EngineStep::SetSignals,
            EngineStep::InstallInterruptHandler,
        ] if **set == dirs && **first == plugins[0] && **second == plugins[1]
    ));
    let none = Vec::new();
    assert_eq!(all(create_base_engine(&none, &none, false, options())).len(), 6);
}

#[test]
fn a_failing_step_ends_the_base_engine() {
    let plugins = vec![PathBuf::from("a"), PathBuf::from("b")];
    let none = Vec::new();
    let mut steps = create_base_engine(&plugins, &none, true, options());
    let mut taken = Vec::new();
    let mut outcome: Result<(), String> = Ok(());
    let result = loop {
        match steps.after(outcome) {
            Ok(Some(step)) => {
                outcome = match step {
                    EngineStep::LoadPlugin(path) => Err(format!("no plugin {}", path.display())),
                    _ => Ok(()),
                };
                taken.push(step);
            }
            Ok(None) => break Ok(()),
            Err(error) => break Err(error),
        }
    };
    assert_eq!(result, Err("no plugin a".to_string()));
    assert_eq!(taken.len(), 5);
    assert!(matches!(taken[4], EngineStep::LoadPlugin(path) if *path == plugins[0]));
    assert!(matches!(steps.after::<()>(Ok(())), Ok(None)));
}

#[test]
fn steps_are_given_out_one_by_one() {
    let mut steps = Steps::new(vec!['a', 'b']);
    assert_eq!(steps.after::<u8>(Ok(())), Ok(Some('a')));
    assert_eq!(steps.after::<u8>(Ok(())), Ok(Some('b')));
    assert_eq!(steps.after::<u8>(Ok(())), Ok(None));
    let mut steps = Steps::new(vec!['a', 'b']);
    assert_eq!(steps.after(Err(7)), Err(7));
    assert_eq!(steps.after::<u8>(Ok(())), Ok(None));
}

#[test]
fn a_server_needs_an_address() {
    let mut args = args();
    args.addr = None;
    args.script = Some("serve.nu".to_string());
    args.commands = Some("x".to_string());
    assert!(matches!(
        all(plan_serve(&args)).as_slice(),
        [ServeStep::Fail(CliError::NoAddress)]
    ));
}

#[test]
fn a_server_needs_a_script() {
    let args = args();
    assert!(!has_source_conflict(&args));
    assert!(matches!(choose_source(&args), Err(CliError::NothingToServe)));
}

#[test]
fn a_server_is_laid_out() {
    let mut args = args();
    args.script = Some("serve.nu".to_string());
    args.store = Some(cli_path("store"));
    args.services = true;
    args.expose = Some(":4000".to_string());
    args.tls = Some(cli_path("cert.pem"));
    args.watch = true;
    let steps = all(plan_serve(&args));
    assert!(matches!(
        steps.as_slice(),
        [
            ServeStep::StartStore(path, true, Some(expose)),
            ServeStep::BuildEngine(HttpNuOptions {
                dev: false,
                datastar: false,
                watch: true,
                tls: Some(tls),
                store: Some(store),
                topic: None,
                expose: Some(_),
                services: true,
            }),
            ServeStep::LoadScript,
            ServeStep::Serve(addr),
        ] if path.text == "store" && expose == ":4000" && tls == "cert.pem" && store == "store"
            && *addr == ":3001"
    ));
}

#[test]
fn a_server_does_not_serve_without_its_store() {
    let mut args = args();
    args.store = Some(cli_path("store"));
    let mut steps = plan_serve(&args);
    assert!(matches!(steps.after::<String>(Ok(())), Ok(Some(ServeStep::StartStore(_, _, _)))));
    assert!(matches!(steps.after(Err("locked".to_string())), Err(error) if error == "locked"));
    assert!(matches!(steps.after::<String>(Ok(())), Ok(None)));
}

#[test]
fn a_server_takes_its_script_from_a_file() {
    let mut args = args();
    args.script = Some("serve.nu".to_string());
    args.store = Some(cli_path("store"));
    args.watch = true;
    assert!(!has_source_conflict(&args));
    assert!(matches!(
        choose_source(&args),
        Ok(ScriptSource::File(script, Some(ignore)))
            if *script == "serve.nu" && ignore.text == "store"
    ));
}

#[test]
fn a_dash_means_standard_input() {
    let mut args = args();
    args.script = Some("-".to_string());
    assert!(matches!(choose_source(&args), Ok(ScriptSource::Stdin)));
    let mut eval = eval();
    eval.file = Some("-".to_string());
    assert!(matches!(all(plan_eval(&args, &eval))[0], EvalStep::ReadStdin));
}

#[test]
fn a_server_takes_its_script_from_the_command_line() {
    let mut args = args();
    args.commands = Some("{|req| 1}".to_string());
    assert!(matches!(
        choose_source(&args),
        Ok(ScriptSource::Commands(script)) if *script == "{|req| 1}"
    ));
}

#[test]
fn a_server_takes_its_script_from_a_topic() {
    let mut args = args();
    args.topic = Some("serve.nu".to_string());
    args.store = Some(cli_path("store"));
    assert!(matches!(
        choose_source(&args),
        Ok(ScriptSource::Topic(topic)) if *topic == "serve.nu"
    ));
}

#[test]
fn a_topic_without_store_is_no_source() {
    let mut args = args();
    args.topic = Some("serve.nu".to_string());
    assert!(matches!(choose_source(&args), Err(CliError::NothingToServe)));
}

#[test]
fn contradicting_sources_are_found() {
    let mut both = args();
    both.script = Some("serve.nu".to_string());
    both.commands = Some("x".to_string());
    assert!(has_source_conflict(&both));
    let mut watched = args();
    watched.commands = Some("x".to_string());
    watched.watch = true;
    assert!(has_source_conflict(&watched));
    watched.topic = Some("t".to_string());
    assert!(has_source_conflict(&watched));
    watched.store = Some(cli_path("store"));
    assert!(!has_source_conflict(&watched));
}

#[test]
fn an_evaluation_needs_one_script() {
    let args = args();
    let mut both = eval();
    both.file = Some("a.nu".to_string());
    both.commands = Some("1".to_string());
    assert!(matches!(
        all(plan_eval(&args, &both)).as_slice(),
        [EvalStep::Fail(CliError::FileAndCommands)]
    ));
    assert!(matches!(
        all(plan_eval(&args, &eval())).as_slice(),
        [EvalStep::Fail(CliError::NothingToEvaluate)]
    ));
}

#[test]
fn services_need_a_store_to_evaluate() {
    let args = args();
    let mut eval = eval();
    eval.commands = Some("1".to_string());
    eval.services = true;
    let steps = all(plan_eval(&args, &eval));
    assert_eq!(steps.len(), 6);
    assert!(matches!(steps[0], EvalStep::TakeCommands(_)));
    assert!(matches!(steps[5], EvalStep::Fail(CliError::ServicesWithoutStore)));
}

#[test]
fn an_evaluation_is_laid_out() {
    let mut args = args();
    args.dev = true;
    args.watch = true;
    args.plugins = vec![PathBuf::from("p")];
    args.expose = Some(":4000".to_string());
    let mut eval = eval();
    eval.file = Some("a.nu".to_string());
    eval.store = Some(cli_path("store"));
    eval.datastar = true;
    let steps = all(plan_eval(&args, &eval));
    assert!(matches!(
        steps.as_slice(),
        [
            EvalStep::ReadFile(file),
            EvalStep::Engine(EngineStep::New),
            EvalStep::Engine(EngineStep::AddCustomCommands),
            EvalStep::Engine(EngineStep::SetLibDirs(_)),
            EvalStep::Engine(EngineStep::SetConst(HttpNuOptions {
                dev: true,
                datastar: true,
                watch: false,
                tls: None,
                store: Some(store),
                topic: None,
                expose: None,
                services: false,
            })),
            EvalStep::OpenStore(_),
            EvalStep::Engine(EngineStep::ConfigureStore),
            EvalStep::Engine(EngineStep::LoadPlugin(_)),
            EvalStep::Engine(EngineStep::SetSignals),
            EvalStep::Evaluate,
        ] if *file == "a.nu" && store == "store"
    ));
    eval.services = true;
    let steps = all(plan_eval(&args, &eval));
    assert!(matches!(
        &steps[5],
        EvalStep::StartStore(path, Some(expose)) if path.text == "store" && expose == ":4000"
    ));
}

#[test]
fn an_evaluation_shows_its_result() {
    let shown = eval_outcome(Ok("3".to_string()));
    assert_eq!(shown.output, Some("3".to_string()));
    assert_eq!(shown.error, None);
    assert_eq!(shown.status, SUCCESS);
    let silent = eval_outcome(Ok(String::new()));
    assert_eq!(silent.output, None);
    assert_eq!(silent.status, 0);
    let failed = eval_outcome(Err("no such command".to_string()));
    assert_eq!(failed.output, None);
    assert_eq!(failed.error, Some("no such command".to_string()));
    assert_eq!(failed.status, FAILURE);
    assert_eq!(FAILURE, 1);
}

#[test]
fn errors_are_told_to_the_user() {
    assert_eq!(
        CliError::FileAndCommands.message(),
        "Error: cannot specify both file and --commands"
    );
    assert_eq!(CliError::NothingToEvaluate.message(), "Error: provide a file or use --commands");
    assert_eq!(CliError::ServicesWithoutStore.message(), "Error: --services requires --store");
    assert_eq!(
        CliError::NoAddress.message(),
        "Usage: http-nu <ADDR> [OPTIONS]\n       http-nu eval [OPTIONS]\n\nRun `http-nu --help` for more information."
    );
    assert_eq!(
        CliError::NothingToServe.message(),
        "Error: provide a script file, --commands, or --topic"
    );
    assert_eq!(
        store_failure(&cli_path("store"), "locked"),
        "Failed to open store at store: locked"
    );
}

#[test]
fn options_are_announced() {
    let mut args = args();
    args.watch = true;
    args.datastar = true;
    args.tls = Some(cli_path("cert.pem"));
    args.topic = Some("t".to_string());
    let told = startup_options(&args);
    assert!(told.watch && told.datastar && !told.services);
    assert_eq!(told.tls, Some("cert.pem".to_string()));
    assert_eq!(told.store, None);
    assert_eq!(told.topic, Some("t".to_string()));
    assert_eq!(told.expose, None);
}

#[test]
fn trusted_proxies_reach_the_handler() {
    let mut args = args();
    let range: ipnet::IpNet = "10.0.0.0/8".parse().unwrap();
    args.trust_proxies = vec![range];
    args.dev = true;
    let config = app_config(args);
    assert_eq!(config.trusted_proxies, vec![range]);
    assert!(config.dev && !config.datastar);
}

#[test]
fn scripts_see_what_is_announced() {
    let mut args = args();
    args.script = Some("serve.nu".to_string());
    args.store = Some(cli_path("store"));
    args.services = true;
    args.datastar = true;
    let told = startup_options(&args);
    let steps = all(plan_serve(&args));
    let seen = match &steps[1] {
        ServeStep::BuildEngine(options) => options,
        _ => panic!("the engine comes after the store"),
    };
    assert_eq!(seen.watch, told.watch);
    assert_eq!(seen.tls, told.tls);
    assert_eq!(seen.store, told.store);
    assert_eq!(seen.topic, told.topic);
    assert_eq!(seen.expose, told.expose);
    assert_eq!(seen.services, told.services);
    assert_eq!(seen.datastar, told.datastar);
}

#[test]
fn no_store_is_touched_without_its_path() {
    let mut args = args();
    args.topic = Some("serve.nu".to_string());
    args.commands = Some("{|req| 1}".to_string());
    for step in all(plan_serve(&args)) {
        assert!(!matches!(step, ServeStep::StartStore(_, _, _)));
    }
    assert!(matches!(choose_source(&args), Ok(ScriptSource::Commands(_))));
    let mut eval = eval();
    eval.commands = Some("1".to_string());
    for step in all(plan_eval(&args, &eval)) {
        assert!(!matches!(step, EvalStep::StartStore(_, _) | EvalStep::OpenStore(_)));
    }
}

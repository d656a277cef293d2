//! How an engine is made ready for scripts.

use crate::steps::Steps;
use std::path::PathBuf;
use vstd::prelude::*;

verus! {

/// A path of the file system. It is only carried to where it is used.
#[verifier::external_type_specification]
#[verifier::external_body]
pub struct ExPathBuf(PathBuf);

/// What scripts can see of the way the program was started.
#[derive(Debug)]
pub struct HttpNuOptions {
    pub dev: bool,
    pub datastar: bool,
    pub watch: bool,
    pub tls: Option<String>,
    pub store: Option<String>,
    pub topic: Option<String>,
    pub expose: Option<String>,
    pub services: bool,
}

/// One step on the way to an engine.
#[derive(Debug)]
pub enum EngineStep<'a> {
    /// Make an engine with its standard commands.
    New,
    /// Add the server's own commands.
    AddCustomCommands,
    /// Set the directories in which modules are looked for.
    SetLibDirs(&'a Vec<PathBuf>),
    /// Define the constant that holds the options.
    SetConst(HttpNuOptions),
    /// Load a plugin.
    LoadPlugin(&'a PathBuf),
    /// Add the commands of the store.
    ConfigureStore,
    /// Let the interrupt flag stop evaluation.
    SetSignals,
    /// Let Ctrl-C set the flag and kill the engine's jobs.
    InstallInterruptHandler,
}

/// The steps that load `plugins`, in order.
pub open spec fn plugin_steps<'a>(plugins: &'a Vec<PathBuf>) -> Seq<EngineStep<'a>> {
    Seq::new(plugins@.len(), |i: int| EngineStep::LoadPlugin(&plugins@[i]))
}

/// The steps that make the engine from which those of all scripts are made.
pub open spec fn base_engine_steps<'a>(
    plugins: &'a Vec<PathBuf>,
    include_paths: &'a Vec<PathBuf>,
    store: bool,
    options: HttpNuOptions,
) -> Seq<EngineStep<'a>> {
    seq![
        EngineStep::New,
        EngineStep::AddCustomCommands,
        EngineStep::SetLibDirs(include_paths),
        EngineStep::SetConst(options),
    ] + plugin_steps(plugins) + (if store {
        seq![EngineStep::ConfigureStore]
    } else {
        seq![]
    }) + seq![EngineStep::SetSignals, EngineStep::InstallInterruptHandler]
}

/// Lays out how the base engine is made. Where a step fails, no engine is: its
/// error is what comes of the steps, and none behind it is taken.
pub fn create_base_engine<'a>(
    plugins: &'a Vec<PathBuf>,
    include_paths: &'a Vec<PathBuf>,
    store: bool,
    options: HttpNuOptions,
) -> (result: Steps<EngineStep<'a>>)
    ensures
        result@ == base_engine_steps(plugins, include_paths, store, options),
{
    let mut steps: Vec<EngineStep<'a>> = Vec::new();
    steps.push(EngineStep::New);
    steps.push(EngineStep::AddCustomCommands);
    steps.push(EngineStep::SetLibDirs(include_paths));
    steps.push(EngineStep::SetConst(options));
    let ghost head = steps@;
    let mut i: usize = 0;
    while i < plugins.len()
        invariant
            i <= plugins@.len(),
            steps@ =~= head + plugin_steps(plugins).take(i as int),
        decreases plugins@.len() - i,
    {
        steps.push(EngineStep::LoadPlugin(&plugins[i]));
        i += 1;
    }
    if store {
        steps.push(EngineStep::ConfigureStore);
    }
    steps.push(EngineStep::SetSignals);
    steps.push(EngineStep::InstallInterruptHandler);
    assert(steps@ =~= base_engine_steps(plugins, include_paths, store, options));
    Steps::new(steps)
}

/// The base engine is made exactly if every step succeeds, from the first to the
/// last. Otherwise the first step that fails is the last that is taken, and its
/// error is the result.
pub proof fn law_base_engine_needs_every_step<E>(
    plugins: &Vec<PathBuf>,
    include_paths: &Vec<PathBuf>,
    store: bool,
    options: HttpNuOptions,
    outcomes: Seq<Result<(), E>>,
)
    requires
        base_engine_steps(plugins, include_paths, store, options).len() <= outcomes.len(),
    ensures
        crate::steps::end_at_first_failure(
            base_engine_steps(plugins, include_paths, store, options),
            outcomes,
        ),
{
    crate::steps::law_steps_end_at_first_failure(
        base_engine_steps(plugins, include_paths, store, options),
        outcomes,
    );
}

/// A base engine is made first. It gets the server's commands, the directories and
/// the options that were given, then every plugin in order, then the commands of
/// the store if there is one, and at last what stops it. Nothing else is done.
pub proof fn law_base_engine_gets_what_was_given(
    plugins: &Vec<PathBuf>,
    include_paths: &Vec<PathBuf>,
    store: bool,
    options: HttpNuOptions,
)
    ensures
        ({
            let steps = base_engine_steps(plugins, include_paths, store, options);
            let n = steps.len();
            &&& steps[0] is New
            &&& steps[1] is AddCustomCommands
            &&& steps[2] == EngineStep::SetLibDirs(include_paths)
            &&& steps[3] == EngineStep::SetConst(options)
            &&& forall|i: int|
                0 <= i < plugins@.len() ==> #[trigger] steps[4 + i] == EngineStep::LoadPlugin(
                    &plugins@[i],
                )
            &&& n == plugins@.len() + crate::trace::once_if(store) + 6
            &&& steps[n - 2] is SetSignals
            &&& steps[n - 1] is InstallInterruptHandler
            &&& steps[n - 3] is ConfigureStore <==> store
        }),
{
}

} // verus!

//! What holds of the operations themselves: each law here speaks of a call, of
//! what goes into it and of what comes out.

use crate::cli::{
    app_config, choose_source, eval_outcome, has_source_conflict, plan_eval, plan_serve,
    startup_options, store_failure, AppConfig, Args, CliError, CliPath, EvalArgs, EvalOutcome,
    EvalStep, ScriptSource, ServeStep, StartupOptions,
};
use crate::command_source::{CommandAction, CommandSource};
use crate::engine::{create_base_engine, EngineStep, HttpNuOptions};
use crate::file_source::{
    concerns, timeout_ms, ChangeEvent, FileAction, FileEvent, FileSource,
};
use crate::fs_path::{FsPath, PathPart};
use crate::server::{
    address_display, connection_report, ConnectionError, Phase, Server, ServerAction, ServerEvent,
};
use crate::shutdown::{
    on_interrupt, requests_shutdown, InterruptAction, InterruptEvent, StopSignal,
};
use crate::stdin_source::{
    script_text, ReaderStep, ScriptReader, StdinAction, StdinEvent, StdinRead, StdinSource,
};
use crate::steps::Steps;
use crate::store::{
    decode_failure, enrich_engine, modules_loaded, placeholder_closure, Enrichment, FirstAction,
    Store, StoreCommands, StoreTask, TopicAction, TopicEvent, TopicFrame, TopicLoad,
    TopicQuery, TopicWatcher,
};
use crate::text::{replace_all, same_text, strip_suffix};
use scru128::Scru128Id;
use std::path::PathBuf;
use vstd::prelude::*;
use vstd::utf8::*;

verus! {

/// A server takes every event that can come, keeps to its setting, and does what
/// the step of that event says.
pub proof fn law_server_follows_its_steps<E>(
    server: &mut Server,
    event: ServerEvent<E>,
    actions: Vec<ServerAction<E>>,
)
    requires
        crate::server::possible_in(old(server).phase, event),
        call_ensures(Server::on_event::<E>, (server, event), actions),
    ensures
        call_requires(Server::on_event::<E>, (server, event)),
        final(server).tls == old(server).tls,
        (final(server).phase, crate::server::effects(actions@)) == crate::server::server_step(
            old(server).phase,
            old(server).tls,
            event,
        ),
{
}

/// A connection that comes in is handed out to be handled, and nothing else is
/// done, with TLS or without; the server goes on serving.
pub proof fn law_server_handles_what_it_accepts<E>(
    server: &mut Server,
    actions: Vec<ServerAction<E>>,
)
    requires
        old(server).phase == Phase::Serving,
        call_ensures(Server::on_event::<E>, (server, ServerEvent::Accepted), actions),
    ensures
        actions@.len() == 1,
        actions@[0] is ServeConnection,
        final(server).phase == Phase::Serving,
{
    let effects = crate::server::effects(actions@);
    assert(effects.len() == actions@.len());
    assert(effects[0] == actions@[0]@);
    crate::server::law_actions_are_seen_as_they_are(actions@, 0);
}

/// A new server waits for an engine, and tells what it expects as it takes it.
pub proof fn law_server_expects_what_it_takes<E>(
    tls: bool,
    new: Server,
    server: Server,
    event: ServerEvent<E>,
    expected: bool,
)
    requires
        call_ensures(Server::new, (tls,), new),
        call_ensures(Server::expects::<E>, (&server, &event), expected),
    ensures
        new.phase == Phase::AwaitingEngine && new.tls == tls,
        expected == crate::server::possible_in(server.phase, event),
{
}

/// The address to announce is the announced address, and a connection error is
/// reported with its text unless the client went away.
pub proof fn law_server_tells_addresses_and_errors(
    shown: &str,
    tls: bool,
    address: String,
    error: ConnectionError,
    line: Option<String>,
)
    requires
        call_ensures(address_display, (shown, tls), address),
        call_ensures(connection_report, (&error,), line),
    ensures
        address@ == crate::server::announced_address(shown@, tls),
        line is Some <==> (error.http matches Some(fault) ==> !fault.incomplete_message
            && !fault.body_write_aborted),
        line matches Some(line) ==> line@ == "Connection error: "@ + error.text@,
{
}

/// A shutdown is requested by every signal, and by a look at the interrupt flag
/// exactly if the flag is set.
pub proof fn law_signals_request_shutdown(signal: StopSignal, requested: bool)
    requires
        call_ensures(requests_shutdown, (signal,), requested),
    ensures
        match signal {
            StopSignal::CtrlC => requested,
            StopSignal::Terminate => requested,
            StopSignal::Poll { interrupted } => requested == interrupted,
        },
{
}

/// An interrupt first sets the flag and then has the jobs listed; every job that
/// is listed is killed, in order.
pub proof fn law_interrupt_kills_every_job<J: Copy>(
    jobs: &Vec<J>,
    raised: Vec<InterruptAction<J>>,
    known: Vec<InterruptAction<J>>,
)
    requires
        call_ensures(on_interrupt::<J>, (InterruptEvent::Raised,), raised),
        call_ensures(on_interrupt::<J>, (InterruptEvent::Jobs(jobs),), known),
    ensures
        raised@.len() == 2 && raised@[0] is SetFlag && raised@[1] is ListJobs,
        known@.len() == jobs@.len(),
        forall|i: int|
            0 <= i < jobs@.len() ==> #[trigger] known@[i] == InterruptAction::Kill(jobs@[i]),
{
    crate::shutdown::law_interrupt_stops_every_job(jobs);
}

/// A file source takes every event that can come, keeps to what it was made with,
/// and does what the step of that event says.
pub proof fn law_file_source_follows_its_steps<'a, E>(
    source: &'a mut FileSource<E>,
    event: FileEvent<E>,
    actions: Vec<FileAction<'a, E>>,
)
    requires
        crate::file_source::possible_in(old(source).phase, event),
        call_ensures(FileSource::<E>::on_event, (source, event), actions),
    ensures
        call_requires(FileSource::<E>::on_event, (source, event)),
        final(source).base == old(source).base,
        final(source).path == old(source).path,
        final(source).watch == old(source).watch,
        final(source).ignore == old(source).ignore,
        (final(source).phase, crate::file_source::effects(actions@))
            == crate::file_source::file_step(
            old(source).base,
            old(source).path@,
            old(source).watch,
            old(source).ignore,
            old(source).phase,
            event,
        ),
{
}

/// A new file source is what it was made with, asks for its script at the path
/// that was given, and tells what it expects as it takes it.
pub proof fn law_file_source_starts_with_its_script<E>(
    base: E,
    path: String,
    watch: bool,
    ignore: Option<FsPath>,
    new: FileSource<E>,
    first: FileAction<E>,
    source: FileSource<E>,
    event: FileEvent<E>,
    expected: bool,
)
    requires
        call_ensures(FileSource::<E>::new, (base, path, watch, ignore), new),
        call_ensures(FileSource::<E>::first, (&new,), first),
        call_ensures(FileSource::<E>::expects, (&source, &event), expected),
    ensures
        new.base == base && new.path == path && new.watch == watch && new.ignore == ignore,
        new.phase is Reading,
        first matches FileAction::ReadScript(given) && given@ == path@,
        expected == crate::file_source::possible_in(source.phase, event),
{
}

/// An event concerns a source exactly if it calls for a reload, and the wait is
/// short exactly while one is pending.
pub proof fn law_changes_are_weighed_and_waited_for(
    event: ChangeEvent,
    ignore: Option<FsPath>,
    concerned: bool,
    pending: bool,
    ms: u64,
)
    requires
        call_ensures(concerns, (&event, &ignore), concerned),
        call_ensures(timeout_ms, (pending,), ms),
    ensures
        concerned <==> (event.kind is Create || event.kind is Modify || event.kind is Remove)
            && crate::file_source::touches_outside(event, ignore),
        pending ==> ms == 100,
        !pending ==> ms == 86_400_000,
{
    crate::file_source::law_change_matters_iff_it_touches_what_is_not_ignored(event, ignore);
}

/// Components are the same if they are of one kind and hold the same bytes. A path
/// lies under another if it starts with all of its components.
pub proof fn law_paths_are_compared_by_components(
    part: PathPart,
    other: PathPart,
    same: bool,
    path: FsPath,
    base: FsPath,
    under: bool,
    depth: usize,
)
    requires
        call_ensures(PathPart::same, (&part, &other), same),
        call_ensures(FsPath::starts_with, (&path, &base), under),
        call_ensures(FsPath::parent_len, (&path,), depth),
    ensures
        same <==> part.kind == other.kind && part.bytes@ == other.bytes@,
        under <==> base@.is_prefix_of(path@),
        depth == crate::fs_path::parent_depth(path@),
{
}

/// A reader does what the step of each read says, and starts with nothing.
pub proof fn law_reader_follows_its_steps(
    new: ScriptReader,
    reader: &mut ScriptReader,
    read: StdinRead,
    step: ReaderStep,
)
    requires
        call_ensures(ScriptReader::new, (), new),
        call_ensures(ScriptReader::feed, (reader, read), step),
    ensures
        new@.len() == 0,
        (final(reader)@, step@) == crate::stdin_source::reader_step(old(reader)@, read),
{
}

/// The source on standard input takes every event that can come, keeps its base
/// engine, and does what the step of that event says. Text that is encoded as
/// UTF-8 is loaded unchanged.
pub proof fn law_stdin_source_follows_its_steps<'a, E>(
    source: &'a mut StdinSource<E>,
    event: StdinEvent<E>,
    action: Option<StdinAction<'a, E>>,
    text: Seq<char>,
)
    requires
        crate::stdin_source::possible_in(old(source).phase, event),
        call_ensures(StdinSource::<E>::on_event, (source, event), action),
    ensures
        call_requires(StdinSource::<E>::on_event, (source, event)),
        final(source).base == old(source).base,
        (final(source).phase, final(source).reader@, crate::stdin_source::effect(action))
            == crate::stdin_source::stdin_step(
            old(source).base,
            old(source).phase,
            old(source).reader@,
            event,
        ),
        crate::stdin_source::ends_script(event) && text.len() > 0 && old(source).reader@
            == encode_utf8(text) ==> (action matches Some(StdinAction::Load(base, script)) && *base
            == old(source).base && script@ == text),
{
    encode_utf8_valid_utf8(text);
    encode_utf8_decode_utf8(text);
    if text.len() > 0 {
        encode_utf8_first_scalar(text);
        if encode_utf8(text).len() == 0 {
            assert(encode_utf8(text) =~= encode_utf8(Seq::<char>::empty()));
            encode_utf8_decode_utf8(Seq::<char>::empty());
            assert(false);
        }
    }
}

/// A new source on standard input reads all of it, or a stream byte by byte, and
/// tells what it expects as it takes it. Bytes that encode a text are that text.
pub proof fn law_stdin_source_starts_by_reading<E>(
    base: E,
    watch: bool,
    new: StdinSource<E>,
    first: StdinAction<E>,
    source: StdinSource<E>,
    event: StdinEvent<E>,
    expected: bool,
    bytes: Vec<u8>,
    text: Seq<char>,
    decoded: String,
)
    requires
        call_ensures(StdinSource::<E>::new, (base, watch), new),
        call_ensures(StdinSource::<E>::first, (&new,), first),
        call_ensures(StdinSource::<E>::expects, (&source, &event), expected),
        call_ensures(script_text, (&bytes,), decoded),
    ensures
        new.base == base && new.reader@.len() == 0,
        watch ==> new.phase is ReadingScript && first is ReadByte,
        !watch ==> new.phase is ReadingAll && first is ReadAll,
        expected == crate::stdin_source::possible_in(source.phase, event),
        bytes@ == encode_utf8(text) ==> decoded@ == text,
        decoded@ == crate::encoding::lossy_text(bytes@),
{
    encode_utf8_valid_utf8(text);
    encode_utf8_decode_utf8(text);
}

/// A script on the command line is loaded as it is, from the base engine, and the
/// engine that was made of it, if one was, is sent.
pub proof fn law_commands_are_loaded_and_sent<'s, E>(
    source: CommandSource<'s, E>,
    first: CommandAction<E>,
    made: Option<E>,
    action: Option<CommandAction<E>>,
)
    requires
        call_ensures(CommandSource::<'s, E>::first, (&source,), first),
        call_ensures(CommandSource::<'s, E>::on_made, (&source, made), action),
    ensures
        first matches CommandAction::Load(base, script) && *base == source.base && script@
            == source.script@,
        match made {
            Some(engine) => action matches Some(CommandAction::Send(sent)) && sent == engine,
            None => action is None,
        },
{
}

/// The watch on a topic takes every event that can come, keeps to what it was made
/// with, and does what the step of that event says.
pub proof fn law_topic_watch_follows_its_steps<'a, E, H>(
    watcher: &'a mut TopicWatcher<E>,
    event: TopicEvent<E, H>,
    actions: Vec<TopicAction<'a, E, H>>,
)
    requires
        crate::store::possible_in(old(watcher).phase, event),
        call_ensures(TopicWatcher::<E>::on_event::<H>, (watcher, event), actions),
    ensures
        call_requires(TopicWatcher::<E>::on_event::<H>, (watcher, event)),
        final(watcher).base == old(watcher).base,
        final(watcher).topic == old(watcher).topic,
        final(watcher).after == old(watcher).after,
        (final(watcher).phase, crate::store::effects(actions@)) == crate::store::topic_step(
            old(watcher).base,
            old(watcher).topic@,
            old(watcher).phase,
            event,
        ),
{
}

/// The watch follows its topic from behind the frame that it was made with, the
/// first read asks for the one latest frame, and the watch tells what it expects
/// as it takes it.
pub proof fn law_topic_queries_ask_for_the_topic<S, E, H>(
    topic: &str,
    latest: TopicQuery,
    watcher: TopicWatcher<E>,
    query: TopicQuery,
    event: TopicEvent<E, H>,
    expected: bool,
)
    requires
        call_ensures(Store::<S>::latest_query, (topic,), latest),
        call_ensures(TopicWatcher::<E>::query, (&watcher,), query),
        call_ensures(TopicWatcher::<E>::expects::<H>, (&watcher, &event), expected),
    ensures
        !latest.follow && latest.topic@ == topic@ && latest.last == Some(1usize)
            && latest.after is None,
        query.follow && query.topic@ == watcher.topic@ && query.last is None && query.after
            == watcher.after,
        expected == crate::store::possible_in(watcher.phase, event),
{
}

/// What a topic holds is the text that its latest frame's content encodes, as of
/// that frame. There is none without a frame, without content, and where the
/// content is not there or encodes no text.
pub proof fn law_topic_holds_what_its_latest_frame_encodes<S, H>(
    frame: Option<TopicFrame<H>>,
    wanted: Option<(H, Scru128Id)>,
    bytes: Option<Vec<u8>>,
    id: Scru128Id,
    content: Option<(String, Scru128Id)>,
    text: Seq<char>,
)
    requires
        call_ensures(Store::<S>::latest_content::<H>, (frame,), wanted),
        call_ensures(Store::<S>::read_topic_content, (bytes, id), content),
    ensures
        wanted is Some <==> (frame matches Some(frame) && frame.hash is Some),
        wanted matches Some((hash, of)) ==> (frame matches Some(frame) && frame.hash == Some(hash)
            && of == frame.id),
        (content matches Some((read, of)) && read@ == text && of == id) <==> (
        bytes matches Some(bytes) && bytes@ == encode_utf8(text)),
        content is None <==> (bytes matches Some(bytes) ==> !valid_utf8(bytes@)),
{
    if let Some(bytes) = bytes {
        crate::store::law_content_is_text_iff_it_encodes_one(bytes@, text);
    }
}

/// A topic is started with what it holds, or with the placeholder: from the base
/// engine that was given, watched exactly if that is asked for.
pub proof fn law_topic_starts_with_what_it_holds<S, E>(
    store: Store<S>,
    template: &str,
    topic: &str,
    watch: bool,
    base: E,
    content: Option<(String, Scru128Id)>,
    load: TopicLoad<E>,
)
    requires
        call_ensures(
            Store::<S>::topic_source::<E>,
            (&store, template, topic, watch, base, content),
            load,
        ),
    ensures
        load.base == base && load.topic@ == topic@ && load.watch == watch,
        match content {
            Some((text, id)) => load.script@ == text@ && load.as_of == Some(id),
            None => load.script@ == crate::store::placeholder(template@, topic@, store.path@)
                && load.as_of is None,
        },
{
}

/// The engine that was made of the first script is sent before anything else, and
/// a watch is started exactly if that is asked for, for every topic that is
/// loaded: watched or not, with a stored handler or with a placeholder.
pub proof fn law_first_engine_of_a_topic_is_sent<E>(
    load: TopicLoad<E>,
    from: Enrichment<&E>,
    made: Option<E>,
    actions: Vec<FirstAction<E>>,
)
    requires
        call_ensures(TopicLoad::<E>::enrichment, (&load,), from),
        call_ensures(TopicLoad::<E>::on_made, (load, made), actions),
    ensures
        match load.as_of {
            Some(id) => from matches Enrichment::ModulesAt(base, of) && *base == load.base && of
                == id,
            None => from matches Enrichment::BaseOnly(base) && *base == load.base,
        },
        ({
            let sent = crate::trace::once_if(made is Some);
            let watched = crate::trace::once_if(load.watch);
            &&& actions@.len() == sent + watched
            &&& made matches Some(engine) ==> actions@[0] == FirstAction::Send(engine)
            &&& load.watch ==> (actions@.last() matches FirstAction::Watch(watcher) && watcher.base
                == load.base && watcher.topic == load.topic && watcher.after == load.as_of
                && watcher.phase is Following)
        }),
{
}

/// An engine is made from what it is to be made from, with modules exactly if
/// there is a frame; and it is used whether or not they could be loaded, which is
/// told exactly if they could not be.
pub proof fn law_engine_is_used_with_or_without_modules<E>(
    base: E,
    as_of: Option<Scru128Id>,
    how: Enrichment<E>,
    engine: E,
    loaded: Result<(), String>,
    result: (E, Option<String>),
)
    requires
        call_ensures(enrich_engine::<E>, (base, as_of), how),
        call_ensures(modules_loaded::<E>, (engine, loaded), result),
    ensures
        match as_of {
            Some(id) => how == Enrichment::ModulesAt(base, id),
            None => how == Enrichment::BaseOnly(base),
        },
        result.0 == engine,
        result.1 is Some <==> loaded is Err,
        loaded matches Err(error) ==> result.1->0@ == "Error loading stream modules: "@ + error@,
{
}

/// A store that could be opened is wrapped as it is, and is started with its tasks;
/// one that could not be gives its error. A store that is open already gets none.
pub proof fn law_store_is_started_iff_it_opens<S, E>(
    opened: Result<S, E>,
    path: String,
    services: bool,
    expose: Option<String>,
    result: Result<(Store<S>, Vec<StoreTask>), E>,
    inner: S,
    wrapped: Store<S>,
)
    requires
        call_ensures(Store::<S>::init::<E>, (opened, path, services, expose), result),
        call_ensures(Store::<S>::from_inner, (inner, path), wrapped),
    ensures
        match opened {
            Ok(inner) => result matches Ok((store, tasks)) && store.inner == inner && store.path
                == path && tasks@ == crate::store::store_tasks(services, expose),
            Err(error) => result matches Err(given) && given == error,
        },
        wrapped.inner == inner && wrapped.path == path,
{
}

/// A store adds both sets of its own commands, one after the other. What goes
/// wrong with a task or with content is told with its error.
pub proof fn law_store_adds_commands_and_tells_errors<S>(
    store: Store<S>,
    sets: Steps<StoreCommands<S>>,
    task: StoreTask,
    error: &str,
    failed: String,
    undecodable: String,
)
    requires
        call_ensures(Store::<S>::configure_engine, (&store,), sets),
        call_ensures(StoreTask::failure, (&task, error), failed),
        call_ensures(decode_failure, (error,), undecodable),
    ensures
        sets@.len() == 2,
        sets@[0] == StoreCommands::Frames(&store.inner),
        sets@[1] == StoreCommands::Templates(&store.inner),
        failed@ == (match task {
            StoreTask::Api(_) => "Store API server error: "@,
            StoreTask::Actors => "Actor processor error: "@,
            StoreTask::Services => "Service processor error: "@,
            StoreTask::Actions => "Action processor error: "@,
        }) + error@,
        undecodable@ == "Error decoding topic content: "@ + error@,
{
}

/// Text is replaced, compared and cut as its characters say.
pub proof fn law_texts_are_their_characters(
    text: &str,
    from: &str,
    to: &str,
    replaced: String,
    same: bool,
    cut: &str,
    topic: &str,
    filled: String,
)
    requires
        from@.len() > 0,
        call_ensures(replace_all, (text, from, to), replaced),
        call_ensures(same_text, (text, to), same),
        call_ensures(strip_suffix, (text, from), cut),
        call_ensures(placeholder_closure, (text, topic, to), filled),
    ensures
        call_requires(replace_all, (text, from, to)),
        replaced@ == crate::text::replaced(text@, from@, to@),
        same <==> text@ == to@,
        from@.is_suffix_of(text@) ==> cut@ + from@ == text@,
        !from@.is_suffix_of(text@) ==> cut@ == text@,
        filled@ == crate::store::placeholder(text@, topic@, to@),
{
    crate::text::law_suffix_can_be_put_back(text@, from@, cut@);
}

/// Steps are laid out whole, and are then given out one by one for the outcome of
/// the one before: an error ends them and comes back as it is.
pub proof fn law_steps_follow_outcomes<S, E>(
    all: Vec<S>,
    new: Steps<S>,
    steps: &mut Steps<S>,
    outcome: Result<(), E>,
    next: Result<Option<S>, E>,
)
    requires
        call_ensures(Steps::<S>::new, (all,), new),
        call_ensures(Steps::<S>::after::<E>, (steps, outcome), next),
    ensures
        new@ == all@,
        match outcome {
            Err(error) => next == Err::<Option<S>, E>(error) && final(steps)@.len() == 0,
            Ok(_) => match next {
                Ok(Some(step)) => seq![step] + final(steps)@ == old(steps)@,
                Ok(None) => old(steps)@.len() == 0 && final(steps)@.len() == 0,
                Err(_) => false,
            },
        },
{
    crate::steps::law_steps_are_given_out_in_order(old(steps)@, outcome);
}

/// The base engine, an evaluation and a server are laid out in their steps.
pub proof fn law_plans_are_their_steps<'a>(
    plugins: &'a Vec<PathBuf>,
    include_paths: &'a Vec<PathBuf>,
    store: bool,
    options: HttpNuOptions,
    engine: Steps<EngineStep<'a>>,
    args: &'a Args,
    eval: &'a EvalArgs,
    evaluation: Steps<EvalStep<'a>>,
    server: Steps<ServeStep<'a>>,
)
    requires
        call_ensures(create_base_engine, (plugins, include_paths, store, options), engine),
        call_ensures(plan_eval, (args, eval), evaluation),
        call_ensures(plan_serve, (args,), server),
    ensures
        engine@ == crate::engine::base_engine_steps(plugins, include_paths, store, options),
        evaluation@ == crate::cli::eval_steps(args, eval),
        server@ == crate::cli::serve_steps(args),
{
}

/// Where a script comes from is told for every command line whose sources do not
/// contradict each other, and whether they do is told for every one.
pub proof fn law_source_is_chosen_without_conflict<'a>(
    args: &'a Args,
    conflict: bool,
    source: Result<ScriptSource<'a>, CliError>,
)
    requires
        call_ensures(has_source_conflict, (args,), conflict),
        call_ensures(choose_source, (args,), source),
    ensures
        conflict <==> crate::cli::sources_conflict(*args),
        !conflict ==> call_requires(choose_source, (args,)),
        source == crate::cli::script_source(args),
{
}

/// What an evaluation gave is shown, unless it is empty, and the program then
/// succeeds; an error is told, and the program then fails.
pub proof fn law_evaluation_shows_its_result(
    result: Result<String, String>,
    outcome: EvalOutcome,
)
    requires
        call_ensures(eval_outcome, (result,), outcome),
    ensures
        outcome.status == 0 <==> result is Ok,
        outcome.status == 1 <==> result is Err,
        outcome.error is Some <==> result is Err,
        result matches Err(error) ==> outcome.error == Some(error) && outcome.output is None,
        result matches Ok(text) ==> (outcome.output is Some <==> text@.len() > 0),
        outcome.output matches Some(shown) ==> result == Ok::<String, String>(shown),
{
}

/// What was given reaches what is announced and what handles requests, and a store
/// that cannot be opened is told with its path and the error.
pub proof fn law_arguments_reach_the_server(
    args: Args,
    told: StartupOptions,
    config: AppConfig,
    path: CliPath,
    error: &str,
    line: String,
    wrong: CliError,
    message: String,
)
    requires
        call_ensures(startup_options, (&args,), told),
        call_ensures(app_config, (args,), config),
        call_ensures(store_failure, (&path, error), line),
        call_ensures(CliError::message, (&wrong,), message),
    ensures
        told == crate::cli::announced_options(args),
        config.trusted_proxies == args.trust_proxies && config.datastar == args.datastar
            && config.dev == args.dev,
        line@ == "Failed to open store at "@ + path.text@ + ": "@ + error@,
        message@ == (match wrong {
            CliError::FileAndCommands => "Error: cannot specify both file and --commands"@,
            CliError::NothingToEvaluate => "Error: provide a file or use --commands"@,
            CliError::ServicesWithoutStore => "Error: --services requires --store"@,
            CliError::NoAddress =>
                "Usage: http-nu <ADDR> [OPTIONS]\n       http-nu eval [OPTIONS]\n\nRun `http-nu --help` for more information."@,
            CliError::NothingToServe => "Error: provide a script file, --commands, or --topic"@,
        }),
{
}

} // verus!

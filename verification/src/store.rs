//! The event store: what runs beside it, and handlers that live in one of its
//! topics.
//!
//! A topic holds frames; the content of a frame is kept apart, under a hash. The
//! handler is the content of the topic's latest frame. Where there is none, a
//! placeholder takes its place. With `--watch`, frames that follow replace it.

use crate::encoding::from_utf8;
use crate::steps::Steps;
use crate::text::{replace_all, same_text};
use scru128::Scru128Id;
use vstd::prelude::*;
use vstd::utf8::*;

verus! {

/// The identifier of a frame. It is only carried to where it is used.
#[verifier::external_type_specification]
#[verifier::external_body]
pub struct ExScru128Id(Scru128Id);

/// The mark that stands for the topic in a placeholder.
pub const TOPIC_MARK: &'static str = "__TOPIC__";

/// The mark that stands for the path of the store in a placeholder.
pub const STORE_PATH_MARK: &'static str = "__STORE_PATH__";

/// A task that runs beside an open store.
#[derive(Debug)]
pub enum StoreTask {
    /// Serve the store's API, also at this address if there is one.
    Api(Option<String>),
    /// Run actors.
    Actors,
    /// Run services.
    Services,
    /// Run actions.
    Actions,
}

/// The tasks that a store is started with.
pub open spec fn store_tasks(services: bool, expose: Option<String>) -> Seq<StoreTask> {
    if services {
        seq![StoreTask::Api(expose), StoreTask::Actors, StoreTask::Services, StoreTask::Actions]
    } else {
        seq![StoreTask::Api(expose)]
    }
}

/// The line that reports how a task ended.
pub open spec fn task_failure(task: StoreTask, error: Seq<char>) -> Seq<char> {
    match task {
        StoreTask::Api(_) => "Store API server error: "@ + error,
        StoreTask::Actors => "Actor processor error: "@ + error,
        StoreTask::Services => "Service processor error: "@ + error,
        StoreTask::Actions => "Action processor error: "@ + error,
    }
}

impl StoreTask {
    /// The line to report when it ends with an error.
    pub fn failure(&self, error: &str) -> (line: String)
        ensures
            line@ == task_failure(*self, error@),
    {
        let head: String = match self {
            StoreTask::Api(_) => "Store API server error: ".to_owned(),
            StoreTask::Actors => "Actor processor error: ".to_owned(),
            StoreTask::Services => "Service processor error: ".to_owned(),
            StoreTask::Actions => "Action processor error: ".to_owned(),
        };
        head.concat(error)
    }
}

/// A set of commands that a store adds to an engine.
#[derive(Debug)]
pub enum StoreCommands<'a, S> {
    /// Reading and appending frames and content.
    Frames(&'a S),
    /// Templates that are kept in the store.
    Templates(&'a S),
}

/// What reading from a store asks for.
#[derive(Debug)]
pub struct TopicQuery {
    /// Whether to go on with frames that are appended later.
    pub follow: bool,
    pub topic: String,
    /// How many of the last frames to give, if not all.
    pub last: Option<usize>,
    /// The frame behind which to start, if not at the first.
    pub after: Option<Scru128Id>,
}

/// A frame of a store, `H` being what names its content.
#[derive(Debug)]
pub struct TopicFrame<H> {
    pub topic: String,
    pub id: Scru128Id,
    pub hash: Option<H>,
}

/// How the engine for a script from the store is made, `B` being the base engine.
#[derive(Debug)]
pub enum Enrichment<B> {
    /// As a copy of the base engine. The store is not asked for anything.
    BaseOnly(B),
    /// As a copy of the base engine, into which the modules are loaded that the
    /// store held as of this frame.
    ModulesAt(B, Scru128Id),
}

/// Which modules of the store an engine gets, if any.
pub open spec fn enrichment<B>(base: B, as_of: Option<Scru128Id>) -> Enrichment<B> {
    match as_of {
        Some(id) => Enrichment::ModulesAt(base, id),
        None => Enrichment::BaseOnly(base),
    }
}

/// Decides which modules of the store an engine gets.
pub fn enrich_engine<B>(base: B, as_of: Option<Scru128Id>) -> (result: Enrichment<B>)
    ensures
        result == enrichment(base, as_of),
{
    match as_of {
        Some(id) => Enrichment::ModulesAt(base, id),
        None => Enrichment::BaseOnly(base),
    }
}

/// Takes the engine into which modules were loaded, and what came of it or the
/// error text. The engine is used either way; an error is only reported.
pub fn modules_loaded<E>(engine: E, loaded: Result<(), String>) -> (result: (E, Option<String>))
    ensures
        result.0 == engine,
        match loaded {
            Ok(_) => result.1 is None,
            Err(error) => result.1 matches Some(line) && line@ == "Error loading stream modules: "@
                + error@,
        },
{
    match loaded {
        Ok(_) => (engine, None),
        Err(error) => (
            engine,
            Some("Error loading stream modules: ".to_owned().concat(error.as_str())),
        ),
    }
}

/// The placeholder that `template` gives for a topic in a store.
pub open spec fn placeholder(
    template: Seq<char>,
    topic: Seq<char>,
    store_path: Seq<char>,
) -> Seq<char> {
    crate::text::replaced(
        crate::text::replaced(template, TOPIC_MARK@, topic),
        STORE_PATH_MARK@,
        store_path,
    )
}

/// Fills in `template` for a topic that holds no handler yet.
pub fn placeholder_closure(template: &str, topic: &str, store_path: &str) -> (script: String)
    ensures
        script@ == placeholder(template@, topic@, store_path@),
{
    proof {
        reveal_strlit("__TOPIC__");
        reveal_strlit("__STORE_PATH__");
    }
    let with_topic: String = replace_all(template, TOPIC_MARK, topic);
    replace_all(with_topic.as_str(), STORE_PATH_MARK, store_path)
}

/// What is to be read for a frame: the content it names, for the frame's
/// identifier.
pub open spec fn frame_content<H>(frame: TopicFrame<H>) -> Option<(H, Scru128Id)> {
    match frame.hash {
        Some(hash) => Some((hash, frame.id)),
        None => None,
    }
}

/// The text that content stands for, if it is there and is text.
pub open spec fn content_text(content: Option<Seq<u8>>) -> Option<Seq<char>> {
    match content {
        Some(bytes) => if valid_utf8(bytes) {
            Some(decode_utf8(bytes))
        } else {
            None
        },
        None => None,
    }
}

/// The script to start with: what the topic holds, or a placeholder.
pub open spec fn initial_script(
    template: Seq<char>,
    topic: Seq<char>,
    store_path: Seq<char>,
    content: Option<Seq<char>>,
) -> Seq<char> {
    match content {
        Some(text) => text,
        None => placeholder(template, topic, store_path),
    }
}

/// How a handler is loaded from a topic, `E` being an engine.
#[derive(Debug)]
pub struct TopicLoad<E> {
    /// The engine from which all others are made.
    pub base: E,
    pub topic: String,
    /// The script to load first.
    pub script: String,
    /// The frame that it is from, if it is not a placeholder.
    pub as_of: Option<Scru128Id>,
    /// Whether the topic is watched afterwards.
    pub watch: bool,
}

impl<E> TopicLoad<E> {
    /// How the engine for the first script is made.
    pub fn enrichment(&self) -> (result: Enrichment<&E>)
        ensures
            result == enrichment(&self.base, self.as_of),
    {
        enrich_engine(&self.base, self.as_of)
    }

    /// Takes the engine that was made of the first script, or none because the
    /// script is no good, and gives what is to be done, in order. An engine is
    /// sent exactly if one was made, and the watch follows exactly if it is asked
    /// for.
    pub fn on_made(self, made: Option<E>) -> (actions: Vec<FirstAction<E>>)
        ensures
            actions@ == first_actions(self, made),
    {
        let ghost then = first_actions(self, made);
        let mut actions: Vec<FirstAction<E>> = Vec::new();
        if let Some(engine) = made {
            actions.push(FirstAction::Send(engine));
        }
        if self.watch {
            actions.push(
                FirstAction::Watch(
                    TopicWatcher {
                        base: self.base,
                        topic: self.topic,
                        after: self.as_of,
                        phase: TopicPhase::Following,
                    },
                ),
            );
        }
        assert(actions@ =~= then);
        actions
    }
}

/// What is done once the first script of a topic is dealt with.
#[derive(Debug)]
pub enum FirstAction<E> {
    /// Send this engine. The server cannot be gone before it has got one.
    Send(E),
    /// Start this watch.
    Watch(TopicWatcher<E>),
}

/// The watch that starts behind the frame of the first script, or at the first
/// frame where that was a placeholder.
pub open spec fn watch_of<E>(load: TopicLoad<E>) -> TopicWatcher<E> {
    TopicWatcher {
        base: load.base,
        topic: load.topic,
        after: load.as_of,
        phase: TopicPhase::Following,
    }
}

/// What is done once an engine was made of the first script, or not.
pub open spec fn first_actions<E>(load: TopicLoad<E>, made: Option<E>) -> Seq<FirstAction<E>> {
    (match made {
        Some(engine) => seq![FirstAction::Send(engine)],
        None => seq![],
    }) + (if load.watch {
        seq![FirstAction::Watch(watch_of(load))]
    } else {
        seq![]
    })
}

/// The commands that a store adds to an engine, set by set.
pub open spec fn command_sets<'a, S>(inner: &'a S) -> Seq<StoreCommands<'a, S>> {
    seq![StoreCommands::Frames(inner), StoreCommands::Templates(inner)]
}

/// An engine has the commands of a store exactly if both sets could be added. If
/// the first cannot be, its error is the result, and the second is left out.
pub proof fn law_second_set_needs_first<S, E>(
    inner: &S,
    first: Result<(), E>,
    second: Result<(), E>,
)
    ensures
        ({
            let sets = command_sets(inner);
            let (added, result) = crate::steps::taken(sets, seq![first, second]);
            &&& first is Err ==> added == seq![sets[0]] && result == first
            &&& first is Ok ==> added == sets
            &&& first is Ok && second is Err ==> result == second
            &&& first is Ok && second is Ok ==> result is Ok
        }),
{
    let sets = command_sets(inner);
    let outcomes = seq![first, second];
    crate::steps::law_steps_end_at_first_failure(sets, outcomes);
    if first is Err {
        assert(crate::steps::first_failure(outcomes, 0));
        assert(sets.take(1) =~= seq![sets[0]]);
    } else {
        assert(outcomes[0] is Ok);
        if second is Err {
            assert(crate::steps::first_failure(outcomes, 1));
            assert(sets.take(2) =~= sets);
        }
    }
}

/// `load` is what a start gives that finds `content` in its topic.
pub open spec fn loads_found<E>(
    load: TopicLoad<E>,
    template: Seq<char>,
    store_path: Seq<char>,
    content: Option<(Seq<char>, Scru128Id)>,
) -> bool {
    &&& load.script@ == initial_script(
        template,
        load.topic@,
        store_path,
        match content {
            Some((text, _)) => Some(text),
            None => None,
        },
    )
    &&& load.as_of == (match content {
        Some((_, id)) => Some(id),
        None => None,
    })
}

/// What a topic holds, its text taken as characters.
pub open spec fn content_view(content: Option<(String, Scru128Id)>) -> Option<
    (Seq<char>, Scru128Id),
> {
    match content {
        Some((text, id)) => Some((text@, id)),
        None => None,
    }
}

/// An open store, `S` being the store itself.
pub struct Store<S> {
    pub inner: S,
    /// The path of the store, as it is shown.
    pub path: String,
}

impl<S> Store<S> {
    /// Wraps a store that is open already, with nothing running beside it.
    pub fn from_inner(inner: S, path: String) -> (store: Store<S>)
        ensures
            store.inner == inner,
            store.path == path,
    {
        Store { inner, path }
    }

    /// Takes the outcome of opening a store. If it is open, the tasks are to be
    /// started beside it, in order.
    pub fn init<E>(
        opened: Result<S, E>,
        path: String,
        services: bool,
        expose: Option<String>,
    ) -> (result: Result<(Store<S>, Vec<StoreTask>), E>)
        ensures
            match opened {
                Ok(inner) => result matches Ok((store, tasks)) && store.inner == inner
                    && store.path == path && tasks@ == store_tasks(services, expose),
                Err(error) => result == Err::<(Store<S>, Vec<StoreTask>), E>(error),
            },
    {
        match opened {
            Err(error) => Err(error),
            Ok(inner) => {
                let ghost tasks_then = store_tasks(services, expose);
                let mut tasks: Vec<StoreTask> = Vec::new();
                tasks.push(StoreTask::Api(expose));
                if services {
                    tasks.push(StoreTask::Actors);
                    tasks.push(StoreTask::Services);
                    tasks.push(StoreTask::Actions);
                }
                assert(tasks@ =~= tasks_then);
                Ok((Store { inner, path }, tasks))
            },
        }
    }

    /// The commands to add to an engine, set by set. Where a set cannot be added,
    /// its error is what comes of it, and none behind it is added.
    pub fn configure_engine(&self) -> (result: Steps<StoreCommands<'_, S>>)
        ensures
            result@ == command_sets(&self.inner),
    {
        let mut sets: Vec<StoreCommands<'_, S>> = Vec::new();
        sets.push(StoreCommands::Frames(&self.inner));
        sets.push(StoreCommands::Templates(&self.inner));
        assert(sets@ =~= command_sets(&self.inner));
        Steps::new(sets)
    }

    /// Lays out how the handler in `topic` is loaded, given what the topic
    /// holds: the text of its latest frame and that frame's identifier.
    pub fn topic_source<E>(
        &self,
        template: &str,
        topic: &str,
        watch: bool,
        base: E,
        content: Option<(String, Scru128Id)>,
    ) -> (load: TopicLoad<E>)
        ensures
            load.base == base,
            load.topic@ == topic@,
            load.watch == watch,
            loads_found(load, template@, self.path@, content_view(content)),
    {
        let (script, as_of): (String, Option<Scru128Id>) = match content {
            Some((text, id)) => (text, Some(id)),
            None => (placeholder_closure(template, topic, self.path.as_str()), None),
        };
        TopicLoad { base, topic: topic.to_owned(), script, as_of, watch }
    }

    /// The query for the latest frame of a topic.
    pub fn latest_query(topic: &str) -> (query: TopicQuery)
        ensures
            !query.follow,
            query.topic@ == topic@,
            query.last == Some(1usize),
            query.after is None,
    {
        TopicQuery { follow: false, topic: topic.to_owned(), last: Some(1), after: None }
    }

    /// The content to read for the latest frame, and the frame's identifier.
    /// There is none without a frame, or where the frame has no content.
    pub fn latest_content<H>(frame: Option<TopicFrame<H>>) -> (wanted: Option<(H, Scru128Id)>)
        ensures
            wanted == (match frame {
                Some(frame) => frame_content(frame),
                None => None,
            }),
    {
        match frame {
            Some(frame) => match frame.hash {
                Some(hash) => Some((hash, frame.id)),
                None => None,
            },
            None => None,
        }
    }

    /// What the topic holds, given the bytes that were read for its latest frame
    /// `id`. Content that could not be read or is no text counts as none.
    pub fn read_topic_content(bytes: Option<Vec<u8>>, id: Scru128Id) -> (content: Option<
        (String, Scru128Id),
    >)
        ensures
            content_view(content) == (match content_text(
                match bytes {
                    Some(bytes) => Some(bytes@),
                    None => None,
                },
            ) {
                Some(text) => Some((text, id)),
                None => None,
            }),
    {
        match bytes {
            Some(bytes) => match from_utf8(bytes) {
                Ok(text) => Some((text, id)),
                Err(_) => None,
            },
            None => None,
        }
    }
}

/// Where the watch on a topic stands.
#[derive(Clone, Copy, Debug)]
pub enum TopicPhase {
    /// It waits for the next frame.
    Following,
    /// The content of the frame with this identifier is being read.
    Reading(Scru128Id),
    /// An engine is being made.
    Making,
    /// That engine is being sent.
    Sending,
    /// There is nothing left to do.
    Finished,
}

/// What came of the last thing the watch asked for, `E` being an engine and `H`
/// what names the content of a frame.
#[derive(Debug)]
pub enum TopicEvent<E, H> {
    /// A frame was appended to the store.
    Frame(TopicFrame<H>),
    /// There will be no more frames.
    Ended,
    /// The content was read, or the error text.
    Content(Result<Vec<u8>, String>),
    /// This engine was made, or none because the script is no good.
    Made(Option<E>),
    /// The engine was sent, or else the server no longer takes engines.
    Sent(bool),
}

/// What the watch asks for.
#[derive(Debug)]
pub enum TopicAction<'a, E, H> {
    /// Wait for the next frame.
    NextFrame,
    /// Read the content with this hash.
    ReadContent(H),
    /// Make an engine in this way, and then of this script.
    Load(Enrichment<&'a E>, String),
    /// Send this engine.
    Send(E),
    /// Report this line.
    Report(String),
}

/// A [`TopicAction`] as a value.
pub enum TopicEffect<E, H> {
    NextFrame,
    ReadContent(H),
    Load(Enrichment<E>, Seq<char>),
    Send(E),
    Report(Seq<char>),
}

/// The enrichment with the base engine itself in place of a reference to it.
pub open spec fn owned<'a, E>(enrichment: Enrichment<&'a E>) -> Enrichment<E> {
    match enrichment {
        Enrichment::BaseOnly(base) => Enrichment::BaseOnly(*base),
        Enrichment::ModulesAt(base, id) => Enrichment::ModulesAt(*base, id),
    }
}

impl<'a, E, H> View for TopicAction<'a, E, H> {
    type V = TopicEffect<E, H>;

    open spec fn view(&self) -> TopicEffect<E, H> {
        match self {
            TopicAction::NextFrame => TopicEffect::NextFrame,
            TopicAction::ReadContent(hash) => TopicEffect::ReadContent(*hash),
            TopicAction::Load(enrichment, script) => TopicEffect::Load(owned(*enrichment), script@),
            TopicAction::Send(engine) => TopicEffect::Send(*engine),
            TopicAction::Report(line) => TopicEffect::Report(line@),
        }
    }
}

/// The effects of a list of actions.
pub open spec fn effects<E, H>(actions: Seq<TopicAction<E, H>>) -> Seq<TopicEffect<E, H>> {
    actions.map_values(|action: TopicAction<E, H>| action@)
}

/// Whether `event` can come in `phase`.
pub open spec fn possible_in<E, H>(phase: TopicPhase, event: TopicEvent<E, H>) -> bool {
    match event {
        TopicEvent::Frame(_) | TopicEvent::Ended => phase is Following,
        TopicEvent::Content(_) => phase is Reading,
        TopicEvent::Made(_) => phase is Making,
        TopicEvent::Sent(_) => phase is Sending,
    }
}

/// One event: the phase afterwards, and what is asked for, in order. Only frames
/// of `topic` that have content matter, and only content that is text.
pub open spec fn topic_step<E, H>(
    base: E,
    topic: Seq<char>,
    phase: TopicPhase,
    event: TopicEvent<E, H>,
) -> (TopicPhase, Seq<TopicEffect<E, H>>) {
    match event {
        TopicEvent::Frame(frame) => match frame_content(frame) {
            Some((hash, id)) if frame.topic@ == topic => (
                TopicPhase::Reading(id),
                seq![TopicEffect::ReadContent(hash)],
            ),
            _ => (TopicPhase::Following, seq![TopicEffect::NextFrame]),
        },
        TopicEvent::Ended => (TopicPhase::Finished, seq![]),
        TopicEvent::Content(Ok(bytes)) => match content_text(Some(bytes@)) {
            Some(text) => (
                TopicPhase::Making,
                seq![TopicEffect::Load(enrichment(base, Some(phase->Reading_0)), text)],
            ),
            None => (
                TopicPhase::Following,
                seq![
                    TopicEffect::Report(
                        "Error decoding topic content: "@ + crate::encoding::utf8_error_text(bytes@),
                    ),
                    TopicEffect::NextFrame,
                ],
            ),
        },
        TopicEvent::Content(Err(error)) => (
            TopicPhase::Following,
            seq![
                TopicEffect::Report("Error reading topic content: "@ + error@),
                TopicEffect::NextFrame,
            ],
        ),
        TopicEvent::Made(Some(engine)) => (TopicPhase::Sending, seq![TopicEffect::Send(engine)]),
        TopicEvent::Made(None) => (TopicPhase::Following, seq![TopicEffect::NextFrame]),
        TopicEvent::Sent(taken) => if taken {
            (TopicPhase::Following, seq![TopicEffect::NextFrame])
        } else {
            (TopicPhase::Finished, seq![])
        },
    }
}

/// The watch on a topic.
#[derive(Debug)]
pub struct TopicWatcher<E> {
    /// The engine from which all others are made.
    pub base: E,
    pub topic: String,
    /// The frame behind which the watch starts, if not at the first.
    pub after: Option<Scru128Id>,
    pub phase: TopicPhase,
}

impl<E> TopicWatcher<E> {
    /// The query for the frames to watch.
    pub fn query(&self) -> (query: TopicQuery)
        ensures
            query.follow,
            query.topic@ == self.topic@,
            query.last is None,
            query.after == self.after,
    {
        TopicQuery { follow: true, topic: self.topic.clone(), last: None, after: self.after }
    }

    /// Whether `event` can come now.
    pub fn expects<H>(&self, event: &TopicEvent<E, H>) -> (expected: bool)
        ensures
            expected == possible_in(self.phase, *event),
    {
        match (event, &self.phase) {
            (TopicEvent::Frame(_), TopicPhase::Following) => true,
            (TopicEvent::Ended, TopicPhase::Following) => true,
            (TopicEvent::Content(_), TopicPhase::Reading(_)) => true,
            (TopicEvent::Made(_), TopicPhase::Making) => true,
            (TopicEvent::Sent(_), TopicPhase::Sending) => true,
            _ => false,
        }
    }

    /// Takes one event, and gives what is to be done, in order. With nothing to
    /// do, the watch is finished.
    pub fn on_event<'a, H>(&'a mut self, event: TopicEvent<E, H>) -> (actions: Vec<
        TopicAction<'a, E, H>,
    >)
        requires
            possible_in(old(self).phase, event),
        ensures
            final(self).base == old(self).base,
            final(self).topic == old(self).topic,
            final(self).after == old(self).after,
            final(self).phase == topic_step(
                old(self).base,
                old(self).topic@,
                old(self).phase,
                event,
            ).0,
            effects(actions@) == topic_step(
                old(self).base,
                old(self).topic@,
                old(self).phase,
                event,
            ).1,
    {
        let ghost then = topic_step(self.base, self.topic@, self.phase, event);
        let phase: TopicPhase = self.phase;
        let mut actions: Vec<TopicAction<'a, E, H>> = Vec::new();
        match (phase, event) {
            (_, TopicEvent::Frame(frame)) => {
                let ours: bool = same_text(frame.topic.as_str(), self.topic.as_str());
                match frame.hash {
                    Some(hash) if ours => {
                        self.phase = TopicPhase::Reading(frame.id);
                        actions.push(TopicAction::ReadContent(hash));
                    },
                    _ => {
                        self.phase = TopicPhase::Following;
                        actions.push(TopicAction::NextFrame);
                    },
                }
            },
            (TopicPhase::Reading(id), TopicEvent::Content(Ok(bytes))) => match from_utf8(bytes) {
                Ok(script) => {
                    self.phase = TopicPhase::Making;
                    actions.push(TopicAction::Load(enrich_engine(&self.base, Some(id)), script));
                },
                Err(error) => {
                    self.phase = TopicPhase::Following;
                    actions.push(TopicAction::Report(decode_failure(error.as_str())));
                    actions.push(TopicAction::NextFrame);
                },
            },
            (_, TopicEvent::Content(Err(error))) => {
                self.phase = TopicPhase::Following;
                let line: String = "Error reading topic content: ".to_owned();
                actions.push(TopicAction::Report(line.concat(error.as_str())));
                actions.push(TopicAction::NextFrame);
            },
            (_, TopicEvent::Made(Some(engine))) => {
                self.phase = TopicPhase::Sending;
                actions.push(TopicAction::Send(engine));
            },
            (_, TopicEvent::Made(None)) | (_, TopicEvent::Sent(true)) => {
                self.phase = TopicPhase::Following;
                actions.push(TopicAction::NextFrame);
            },
            (_, TopicEvent::Ended) | (_, TopicEvent::Sent(false)) => {
                self.phase = TopicPhase::Finished;
            },
            (_, TopicEvent::Content(Ok(_))) => {
                assert(false);
            },
        }
        assert(effects(actions@) =~= then.1);
        actions
    }
}

/// The line to report when the content of a frame is no text.
pub fn decode_failure(error: &str) -> (line: String)
    ensures
        line@ == "Error decoding topic content: "@ + error@,
{
    "Error decoding topic content: ".to_owned().concat(error)
}

/// A handler whose text was stored as UTF-8 is the script that is loaded.
pub proof fn law_stored_handler_is_loaded(
    template: Seq<char>,
    topic: Seq<char>,
    store_path: Seq<char>,
    text: Seq<char>,
)
    ensures
        initial_script(template, topic, store_path, content_text(Some(encode_utf8(text)))) == text,
{
    encode_utf8_valid_utf8(text);
    encode_utf8_decode_utf8(text);
}

/// A frame together with what reading its content gives, if it has any and that
/// can be read.
pub struct StoredFrame {
    pub topic: Seq<char>,
    pub id: Scru128Id,
    pub content: Option<Seq<u8>>,
}

/// The latest frame of a topic.
pub open spec fn latest(log: Seq<StoredFrame>, topic: Seq<char>) -> Option<StoredFrame>
    decreases log.len(),
{
    if log.len() == 0 {
        None
    } else if log.last().topic == topic {
        Some(log.last())
    } else {
        latest(log.drop_last(), topic)
    }
}

/// The handler that a frame holds: its text, as of the frame.
pub open spec fn handler_in(frame: StoredFrame) -> Option<(Seq<char>, Scru128Id)> {
    match content_text(frame.content) {
        Some(text) => Some((text, frame.id)),
        None => None,
    }
}

/// The handler that a start on `log` finds in a topic, if any.
pub open spec fn found_at_start(log: Seq<StoredFrame>, topic: Seq<char>) -> Option<
    (Seq<char>, Scru128Id),
> {
    match latest(log, topic) {
        Some(frame) => handler_in(frame),
        None => None,
    }
}

/// The handler that was loaded last when the watch has seen `frames`, where
/// `first` was loaded before it started. A frame that holds none changes nothing.
pub open spec fn watched(
    first: Option<(Seq<char>, Scru128Id)>,
    frames: Seq<StoredFrame>,
    topic: Seq<char>,
) -> Option<(Seq<char>, Scru128Id)>
    decreases frames.len(),
{
    if frames.len() == 0 {
        first
    } else {
        let before = watched(first, frames.drop_last(), topic);
        if frames.last().topic == topic && handler_in(frames.last()) is Some {
            handler_in(frames.last())
        } else {
            before
        }
    }
}

/// What the watch sees of a frame: the frame, and what comes of each thing that
/// the watch asks for on its account, if it does.
pub struct SeenFrame<E, H> {
    pub frame: TopicFrame<H>,
    pub read: Result<Vec<u8>, String>,
    pub made: Option<E>,
    pub sent: bool,
}

/// The frame as it is stored.
pub open spec fn stored<E, H>(seen: SeenFrame<E, H>) -> StoredFrame {
    StoredFrame {
        topic: seen.frame.topic@,
        id: seen.frame.id,
        content: match (seen.frame.hash, seen.read) {
            (Some(_), Ok(bytes)) => Some(bytes@),
            _ => None,
        },
    }
}

/// The handler that a frame has for the watch on a topic.
pub open spec fn handler_for<E, H>(topic: Seq<char>, seen: SeenFrame<E, H>) -> Option<
    (Seq<char>, Scru128Id),
> {
    if seen.frame.topic@ == topic {
        handler_in(stored(seen))
    } else {
        None
    }
}

/// The server is found gone on account of a frame.
pub open spec fn finds_server_gone<E, H>(topic: Seq<char>, seen: SeenFrame<E, H>) -> bool {
    handler_for(topic, seen) is Some && seen.made is Some && !seen.sent
}

/// All that the watch asks for on account of one frame, and the phase in which
/// that leaves it.
pub open spec fn handled<E, H>(base: E, topic: Seq<char>, seen: SeenFrame<E, H>) -> (
    TopicPhase,
    Seq<TopicEffect<E, H>>,
) {
    let (phase, asked) = topic_step(
        base,
        topic,
        TopicPhase::Following,
        TopicEvent::Frame(seen.frame),
    );
    if phase is Reading {
        let (next, more) = topic_step(base, topic, phase, TopicEvent::Content(seen.read));
        if next is Making {
            let (later, sends) = topic_step(base, topic, next, TopicEvent::Made(seen.made));
            if later is Sending {
                let (last, end) = topic_step(base, topic, later, TopicEvent::Sent(seen.sent));
                (last, asked + more + sends + end)
            } else {
                (later, asked + more + sends)
            }
        } else {
            (next, asked + more)
        }
    } else {
        (phase, asked)
    }
}

/// All that the watch asks for over a series of frames, and the phase in which
/// that leaves it. A watch that is finished sees no more frames.
pub open spec fn followed<E, H>(base: E, topic: Seq<char>, frames: Seq<SeenFrame<E, H>>) -> (
    TopicPhase,
    Seq<TopicEffect<E, H>>,
)
    decreases frames.len(),
{
    if frames.len() == 0 {
        (TopicPhase::Following, seq![TopicEffect::NextFrame])
    } else {
        let (phase, asked) = followed(base, topic, frames.drop_last());
        if phase is Following {
            let (next, more) = handled(base, topic, frames.last());
            (next, asked + more)
        } else {
            (phase, asked)
        }
    }
}

/// What is loaded among `asked`: each time how the engine is made, and the
/// script.
pub open spec fn loads_in<E, H>(asked: Seq<TopicEffect<E, H>>) -> Seq<(Enrichment<E>, Seq<char>)>
    decreases asked.len(),
{
    if asked.len() == 0 {
        Seq::empty()
    } else {
        match asked.last() {
            TopicEffect::Load(enrichment, script) => loads_in(asked.drop_last()).push(
                (enrichment, script),
            ),
            _ => loads_in(asked.drop_last()),
        }
    }
}

/// The engines that are sent among `asked`.
pub open spec fn sends_in<E, H>(asked: Seq<TopicEffect<E, H>>) -> Seq<E>
    decreases asked.len(),
{
    if asked.len() == 0 {
        Seq::empty()
    } else {
        match asked.last() {
            TopicEffect::Send(engine) => sends_in(asked.drop_last()).push(engine),
            _ => sends_in(asked.drop_last()),
        }
    }
}

/// The handlers in `frames` for a topic, in order.
pub open spec fn handlers_in<E, H>(topic: Seq<char>, frames: Seq<SeenFrame<E, H>>) -> Seq<
    (Seq<char>, Scru128Id),
>
    decreases frames.len(),
{
    if frames.len() == 0 {
        Seq::empty()
    } else {
        let earlier = handlers_in(topic, frames.drop_last());
        match handler_for(topic, frames.last()) {
            Some(handler) => earlier.push(handler),
            None => earlier,
        }
    }
}

/// The engines that are made of the handlers in `frames` for a topic, in order. A
/// handler that is no good gives none.
pub open spec fn engines_in<E, H>(topic: Seq<char>, frames: Seq<SeenFrame<E, H>>) -> Seq<E>
    decreases frames.len(),
{
    if frames.len() == 0 {
        Seq::empty()
    } else {
        let earlier = engines_in(topic, frames.drop_last());
        match (handler_for(topic, frames.last()), frames.last().made) {
            (Some(_), Some(engine)) => earlier.push(engine),
            _ => earlier,
        }
    }
}

/// How a handler is loaded: from the base engine with the modules as of its
/// frame, and nothing else.
pub open spec fn load_of<E>(base: E, handler: (Seq<char>, Scru128Id)) -> (
    Enrichment<E>,
    Seq<char>,
) {
    (Enrichment::ModulesAt(base, handler.1), handler.0)
}

/// How handlers are loaded, each on its own.
pub open spec fn loads_of<E>(base: E, handlers: Seq<(Seq<char>, Scru128Id)>) -> Seq<
    (Enrichment<E>, Seq<char>),
> {
    handlers.map_values(|handler: (Seq<char>, Scru128Id)| load_of(base, handler))
}

proof fn lemma_loads_add<E, H>(asked: Seq<TopicEffect<E, H>>, more: Seq<TopicEffect<E, H>>)
    ensures
        loads_in(asked + more) == loads_in(asked) + loads_in(more),
        sends_in(asked + more) == sends_in(asked) + sends_in(more),
    decreases more.len(),
{
    if more.len() == 0 {
        assert(asked + more =~= asked);
        assert(loads_in(asked) + loads_in(more) =~= loads_in(asked));
        assert(sends_in(asked) + sends_in(more) =~= sends_in(asked));
    } else {
        lemma_loads_add(asked, more.drop_last());
        assert((asked + more).drop_last() =~= asked + more.drop_last());
        assert((asked + more).last() == more.last());
        assert(loads_in(asked + more) =~= loads_in(asked) + loads_in(more));
        assert(sends_in(asked + more) =~= sends_in(asked) + sends_in(more));
    }
}

proof fn lemma_one_effect<E, H>(effect: TopicEffect<E, H>)
    ensures
        loads_in(seq![effect]) == (match effect {
            TopicEffect::Load(enrichment, script) => seq![(enrichment, script)],
            _ => Seq::empty(),
        }),
        sends_in(seq![effect]) == (match effect {
            TopicEffect::Send(engine) => seq![engine],
            _ => Seq::empty(),
        }),
{
    reveal_with_fuel(loads_in, 2);
    reveal_with_fuel(sends_in, 2);
    let one = seq![effect];
    assert(one.drop_last() =~= Seq::<TopicEffect<E, H>>::empty());
    assert(one.last() == effect);
    assert(loads_in(one) =~= (match effect {
        TopicEffect::Load(enrichment, script) => seq![(enrichment, script)],
        _ => Seq::empty(),
    }));
    assert(sends_in(one) =~= (match effect {
        TopicEffect::Send(engine) => seq![engine],
        _ => Seq::empty(),
    }));
}

proof fn lemma_two_effects<E, H>(first: TopicEffect<E, H>, second: TopicEffect<E, H>)
    ensures
        loads_in(seq![first, second]) == loads_in(seq![first]) + loads_in(seq![second]),
        sends_in(seq![first, second]) == sends_in(seq![first]) + sends_in(seq![second]),
{
    assert(seq![first, second] =~= seq![first] + seq![second]);
    lemma_loads_add(seq![first], seq![second]);
}

/// On account of a frame the watch loads the handler that the frame holds, if it
/// is a frame of the topic and holds one, and nothing else: from the base engine,
/// with the modules as of that frame. It sends the engine that was made, if one
/// was, and goes on to the next frame unless the server is gone.
#[verifier::spinoff_prover]
pub proof fn law_watch_loads_handler_of_frame<E, H>(
    base: E,
    topic: Seq<char>,
    seen: SeenFrame<E, H>,
)
    ensures
        ({
            let (phase, asked) = handled(base, topic, seen);
            &&& loads_in(asked) == (match handler_for(topic, seen) {
                Some(handler) => seq![load_of(base, handler)],
                None => Seq::empty(),
            })
            &&& sends_in(asked) == (match (handler_for(topic, seen), seen.made) {
                (Some(_), Some(engine)) => seq![engine],
                _ => Seq::empty(),
            })
            &&& if finds_server_gone(topic, seen) {
                phase is Finished
            } else {
                phase is Following && asked.last() is NextFrame
            }
        }),
{
    let none = Seq::<TopicEffect<E, H>>::empty();
    let next = TopicEffect::<E, H>::NextFrame;
    lemma_one_effect(next);
    match (frame_content(seen.frame), seen.read) {
        (Some((hash, id)), read) if seen.frame.topic@ == topic => {
            let reads = TopicEffect::<E, H>::ReadContent(hash);
            lemma_one_effect(reads);
            match read {
                Ok(bytes) => match content_text(Some(bytes@)) {
                    Some(text) => {
                        let load = TopicEffect::<E, H>::Load(
                            enrichment(base, Some(id)),
                            text,
                        );
                        assert(handler_for(topic, seen) == Some((text, id)));
                        lemma_one_effect(load);
                        lemma_loads_add(seq![reads], seq![load]);
                        let so_far = seq![reads] + seq![load];
                        assert(loads_in(so_far) =~= seq![load_of(base, (text, id))]);
                        assert(sends_in(so_far) =~= Seq::<E>::empty());
                        match seen.made {
                            Some(engine) => {
                                let send = TopicEffect::<E, H>::Send(engine);
                                lemma_one_effect(send);
                                lemma_loads_add(so_far, seq![send]);
                                let then = so_far + seq![send];
                                assert(loads_in(then) =~= loads_in(so_far));
                                assert(sends_in(then) =~= seq![engine]);
                                if seen.sent {
                                    lemma_loads_add(then, seq![next]);
                                    assert(loads_in(then + seq![next]) =~= loads_in(then));
                                    assert(sends_in(then + seq![next]) =~= sends_in(then));
                                } else {
                                    assert(then + none =~= then);
                                }
                            },
                            None => {
                                lemma_loads_add(so_far, seq![next]);
                                assert(loads_in(so_far + seq![next]) =~= loads_in(so_far));
                                assert(sends_in(so_far + seq![next]) =~= sends_in(so_far));
                            },
                        }
                    },
                    None => {
                        let report = TopicEffect::<E, H>::Report(
                            "Error decoding topic content: "@ + crate::encoding::utf8_error_text(
                                bytes@,
                            ),
                        );
                        lemma_reported_frame(reads, report);
                    },
                },
                Err(error) => {
                    let report = TopicEffect::<E, H>::Report(
                        "Error reading topic content: "@ + error@,
                    );
                    lemma_reported_frame(reads, report);
                },
            }
        },
        _ => {},
    }
}

proof fn lemma_reported_frame<E, H>(reads: TopicEffect<E, H>, report: TopicEffect<E, H>)
    requires
        reads is ReadContent,
        report is Report,
    ensures
        ({
            let asked = seq![reads] + seq![report, TopicEffect::<E, H>::NextFrame];
            &&& loads_in(asked) == Seq::<(Enrichment<E>, Seq<char>)>::empty()
            &&& sends_in(asked) == Seq::<E>::empty()
        }),
{
    let next = TopicEffect::<E, H>::NextFrame;
    lemma_one_effect(reads);
    lemma_one_effect(report);
    lemma_one_effect(next);
    lemma_two_effects(report, next);
    lemma_loads_add(seq![reads], seq![report, next]);
    let asked = seq![reads] + seq![report, next];
    assert(loads_in(asked) =~= Seq::<(Enrichment<E>, Seq<char>)>::empty());
    assert(sends_in(asked) =~= Seq::<E>::empty());
}

/// No frame but the last of `frames` finds the server gone.
pub open spec fn server_stays<E, H>(topic: Seq<char>, frames: Seq<SeenFrame<E, H>>) -> bool {
    forall|i: int| 0 <= i < frames.len() - 1 ==> !#[trigger] finds_server_gone(topic, frames[i])
}

proof fn lemma_watch_goes_on<E, H>(base: E, topic: Seq<char>, frames: Seq<SeenFrame<E, H>>)
    requires
        server_stays(topic, frames),
    ensures
        followed(base, topic, frames).0 is Following <==> !(frames.len() > 0 && finds_server_gone(
            topic,
            frames.last(),
        )),
        frames.len() > 0 ==> followed(base, topic, frames).1 == followed(
            base,
            topic,
            frames.drop_last(),
        ).1 + handled(base, topic, frames.last()).1,
    decreases frames.len(),
{
    if frames.len() > 0 {
        let earlier = frames.drop_last();
        assert forall|i: int| 0 <= i < earlier.len() implies !#[trigger] finds_server_gone(
            topic,
            earlier[i],
        ) by {
            assert(earlier[i] == frames[i]);
            assert(!finds_server_gone(topic, frames[i]));
        }
        lemma_watch_goes_on(base, topic, earlier);
        if earlier.len() > 0 {
            assert(earlier.last() == earlier[earlier.len() - 1]);
        }
        law_watch_loads_handler_of_frame(base, topic, frames.last());
    }
}

/// Over a series of frames the watch loads the handlers of the topic's frames, in
/// order and each once, always from the base engine with the modules as of the
/// handler's own frame. The last of them is what the watch has loaded last. The
/// engines that were made of them are sent, in order and each once. A watch ends with the frame that finds the server gone, so it can only be the
/// last of a series.
pub proof fn law_watch_loads_handlers_in_order<E, H>(
    base: E,
    topic: Seq<char>,
    frames: Seq<SeenFrame<E, H>>,
    first: Option<(Seq<char>, Scru128Id)>,
)
    requires
        server_stays(topic, frames),
    ensures
        ({
            let handlers = handlers_in(topic, frames);
            &&& loads_in(followed(base, topic, frames).1) == loads_of(base, handlers)
            &&& sends_in(followed(base, topic, frames).1) == engines_in(topic, frames)
            &&& watched(
                first,
                frames.map_values(|seen: SeenFrame<E, H>| stored(seen)),
                topic,
            ) == (if handlers.len() > 0 {
                Some(handlers.last())
            } else {
                first
            })
        }),
    decreases frames.len(),
{
    let stores = |seen: SeenFrame<E, H>| stored(seen);
    if frames.len() == 0 {
        lemma_one_effect(TopicEffect::<E, H>::NextFrame);
        assert(loads_of(base, handlers_in(topic, frames)) =~= Seq::<
            (Enrichment<E>, Seq<char>),
        >::empty());
    } else {
        let earlier = frames.drop_last();
        let last = frames.last();
        assert forall|i: int| 0 <= i < earlier.len() - 1 implies !#[trigger] finds_server_gone(
            topic,
            earlier[i],
        ) by {
            assert(earlier[i] == frames[i]);
            assert(!finds_server_gone(topic, frames[i]));
        }
        law_watch_loads_handlers_in_order(base, topic, earlier, first);
        lemma_watch_goes_on(base, topic, frames);
        law_watch_loads_handler_of_frame(base, topic, last);
        lemma_loads_add(followed(base, topic, earlier).1, handled(base, topic, last).1);
        assert(loads_in(followed(base, topic, frames).1) =~= loads_of(
            base,
            handlers_in(topic, frames),
        ));
        assert(sends_in(followed(base, topic, frames).1) =~= engines_in(topic, frames));
        assert(frames.map_values(stores).drop_last() =~= earlier.map_values(stores));
        assert(frames.map_values(stores).last() == stored(last));
    }
}

/// What the watch asks for on account of a frame is what it would ask for if that
/// frame were the first it sees: nothing is carried over from earlier engines.
pub proof fn law_frame_is_handled_as_if_alone<E, H>(
    base: E,
    topic: Seq<char>,
    before: Seq<SeenFrame<E, H>>,
    seen: SeenFrame<E, H>,
)
    requires
        server_stays(topic, before.push(seen)),
    ensures
        followed(base, topic, before.push(seen)).1 == followed(base, topic, before).1 + handled(
            base,
            topic,
            seen,
        ).1,
        followed(base, topic, seq![seen]).1 == seq![TopicEffect::<E, H>::NextFrame] + handled(
            base,
            topic,
            seen,
        ).1,
{
    lemma_watch_goes_on(base, topic, before.push(seen));
    assert(before.push(seen).drop_last() =~= before);
    assert(before.push(seen).last() == seen);
    lemma_watch_goes_on(base, topic, seq![seen]);
    let none = Seq::<SeenFrame<E, H>>::empty();
    assert(seq![seen].drop_last() =~= none);
    assert(followed(base, topic, none).1 == seq![TopicEffect::<E, H>::NextFrame]);
}

proof fn lemma_watched_is_latest(
    past: Seq<StoredFrame>,
    frames: Seq<StoredFrame>,
    topic: Seq<char>,
    first: Option<(Seq<char>, Scru128Id)>,
)
    requires
        latest(past + frames, topic) matches Some(frame) ==> handler_in(frame) is Some,
        first == found_at_start(past, topic),
    ensures
        watched(first, frames, topic) == found_at_start(past + frames, topic),
    decreases frames.len(),
{
    let log = past + frames;
    if frames.len() == 0 {
        assert(log =~= past);
    } else {
        assert(log.drop_last() =~= past + frames.drop_last());
        assert(log.last() == frames.last());
        if frames.last().topic != topic {
            lemma_watched_is_latest(past, frames.drop_last(), topic, first);
        }
    }
}

/// A restart finds the handler that the watch has loaded last. The watch starts
/// behind the frame that was loaded at first, or at the first frame where a
/// placeholder was. This holds wherever the topic's latest frame, if there is
/// one, holds a handler.
pub proof fn law_restart_agrees_with_watch(
    past: Seq<StoredFrame>,
    since: Seq<StoredFrame>,
    topic: Seq<char>,
)
    requires
        latest(past + since, topic) matches Some(frame) ==> handler_in(frame) is Some,
    ensures
        ({
            let first = found_at_start(past, topic);
            let seen = if first is Some {
                since
            } else {
                past + since
            };
            watched(first, seen, topic) == found_at_start(past + since, topic)
        }),
{
    if found_at_start(past, topic) is Some {
        lemma_watched_is_latest(past, since, topic, found_at_start(past, topic));
    } else {
        let none = Seq::<StoredFrame>::empty();
        assert(none + (past + since) =~= past + since);
        lemma_watched_is_latest(none, past + since, topic, None);
    }
}

/// The frames of `log` that a query gives which follows from behind the frame
/// `after`, or from the first one on.
pub open spec fn frames_behind<E, H>(log: Seq<SeenFrame<E, H>>, after: Option<Scru128Id>) -> Seq<
    SeenFrame<E, H>,
>
    decreases log.len(),
{
    match after {
        None => log,
        Some(id) => if log.len() == 0 {
            log
        } else if log[0].frame.id == id {
            log.skip(1)
        } else {
            frames_behind(log.skip(1), after)
        },
    }
}

/// No two frames have the same identifier.
pub open spec fn distinct_ids<E, H>(log: Seq<SeenFrame<E, H>>) -> bool {
    forall|i: int, j: int|
        0 <= i < j < log.len() ==> (#[trigger] log[i]).frame.id != (#[trigger] log[j]).frame.id
}

/// The frames of `log` as they are stored.
pub open spec fn stored_log<E, H>(log: Seq<SeenFrame<E, H>>) -> Seq<StoredFrame> {
    log.map_values(|seen: SeenFrame<E, H>| stored(seen))
}

/// Frame `at` is the latest of a topic in `log`.
pub open spec fn is_latest<E, H>(log: Seq<SeenFrame<E, H>>, topic: Seq<char>, at: int) -> bool {
    &&& 0 <= at < log.len()
    &&& log[at].frame.topic@ == topic
    &&& forall|i: int| at < i < log.len() ==> (#[trigger] log[i]).frame.topic@ != topic
}

proof fn lemma_latest_is_at<E, H>(log: Seq<SeenFrame<E, H>>, topic: Seq<char>, at: int)
    requires
        is_latest(log, topic, at),
    ensures
        latest(stored_log(log), topic) == Some(stored(log[at])),
    decreases log.len(),
{
    let all = stored_log(log);
    assert(all.last() == stored(log.last()));
    if at < log.len() - 1 {
        let earlier = log.drop_last();
        assert(log[log.len() - 1].frame.topic@ != topic);
        assert forall|i: int| at < i < earlier.len() implies (
        #[trigger] earlier[i]).frame.topic@ != topic by {
            assert(earlier[i] == log[i]);
        }
        lemma_latest_is_at(earlier, topic, at);
        assert(all.drop_last() =~= stored_log(earlier));
    }
}

proof fn lemma_frames_behind<E, H>(log: Seq<SeenFrame<E, H>>, at: int)
    requires
        distinct_ids(log),
        0 <= at < log.len(),
    ensures
        frames_behind(log, Some(log[at].frame.id)) == log.skip(at + 1),
    decreases log.len(),
{
    let rest = log.skip(1);
    if at > 0 {
        assert(log[0].frame.id != log[at].frame.id);
        assert forall|i: int, j: int| 0 <= i < j < rest.len() implies (
        #[trigger] rest[i]).frame.id != (#[trigger] rest[j]).frame.id by {
            assert(rest[i] == log[i + 1] && rest[j] == log[j + 1]);
        }
        lemma_frames_behind(rest, at - 1);
        assert(rest[at - 1] == log[at]);
        assert(rest.skip(at) =~= log.skip(at + 1));
    }
}

proof fn lemma_handlers_behind<E, H>(
    topic: Seq<char>,
    first: SeenFrame<E, H>,
    frames: Seq<SeenFrame<E, H>>,
)
    ensures
        handlers_in(topic, seq![first] + frames) == (match handler_for(topic, first) {
            Some(handler) => seq![handler],
            None => Seq::empty(),
        }) + handlers_in(topic, frames),
        engines_in(topic, seq![first] + frames) == (match (
            handler_for(topic, first),
            first.made,
        ) {
            (Some(_), Some(engine)) => seq![engine],
            _ => Seq::empty(),
        }) + engines_in(topic, frames),
    decreases frames.len(),
{
    let all = seq![first] + frames;
    let none = Seq::<SeenFrame<E, H>>::empty();
    if frames.len() == 0 {
        assert(all.drop_last() =~= none);
        assert(all.last() == first);
        assert(handlers_in(topic, none) =~= Seq::<(Seq<char>, Scru128Id)>::empty());
        assert(engines_in(topic, none) =~= Seq::<E>::empty());
    } else {
        lemma_handlers_behind(topic, first, frames.drop_last());
        assert(all.drop_last() =~= seq![first] + frames.drop_last());
        assert(all.last() == frames.last());
    }
    assert(handlers_in(topic, all) =~= (match handler_for(topic, first) {
        Some(handler) => seq![handler],
        None => Seq::empty(),
    }) + handlers_in(topic, frames));
    assert(engines_in(topic, all) =~= (match (handler_for(topic, first), first.made) {
        (Some(_), Some(engine)) => seq![engine],
        _ => Seq::empty(),
    }) + engines_in(topic, frames));
}

/// What a topic is loaded with from the start on, `log` being all frames that the
/// store ever gets: the first script, and then what the watch loads.
pub open spec fn topic_loads<E, H>(
    load: TopicLoad<E>,
    log: Seq<SeenFrame<E, H>>,
) -> Seq<(Enrichment<E>, Seq<char>)> {
    let watch = watch_of(load);
    seq![(enrichment(load.base, load.as_of), load.script@)] + loads_in(
        followed(watch.base, watch.topic@, frames_behind(log, watch.after)).1,
    )
}

/// The engines that are sent for a topic from the start on, `made` being what
/// came of the first script.
pub open spec fn topic_sends<E, H>(
    load: TopicLoad<E>,
    made: Option<E>,
    log: Seq<SeenFrame<E, H>>,
) -> Seq<E> {
    let watch = watch_of(load);
    (match first_actions(load, made)[0] {
        FirstAction::Send(engine) => seq![engine],
        _ => Seq::empty(),
    }) + sends_in(followed(watch.base, watch.topic@, frames_behind(log, watch.after)).1)
}

/// A topic that is watched, and whose latest frame `at` holds a handler when it is
/// read first, is loaded with that handler and then with each later one of the
/// topic, in order and each once. Nothing that is appended between the first read
/// and the start of the watch is lost, and what was loaded first is not loaded
/// again. The engines that were made are sent in the same way.
pub proof fn law_topic_is_loaded_frame_by_frame<E, H>(
    load: TopicLoad<E>,
    template: Seq<char>,
    store_path: Seq<char>,
    log: Seq<SeenFrame<E, H>>,
    read: int,
    at: int,
)
    requires
        load.watch,
        distinct_ids(log),
        0 <= read <= log.len(),
        is_latest(log.take(read), load.topic@, at),
        handler_for(load.topic@, log[at]) is Some,
        loads_found(
            load,
            template,
            store_path,
            found_at_start(stored_log(log.take(read)), load.topic@),
        ),
        server_stays(load.topic@, log.skip(at + 1)),
    ensures
        topic_loads(load, log) == loads_of(load.base, handlers_in(load.topic@, log.skip(at))),
        topic_sends(load, log[at].made, log) == engines_in(load.topic@, log.skip(at)),
{
    let topic = load.topic@;
    let rest = log.skip(at + 1);
    let handler = handler_for(topic, log[at])->0;
    assert(log.take(read)[at] == log[at]);
    lemma_latest_is_at(log.take(read), topic, at);
    assert(handler == (load.script@, load.as_of->0));
    lemma_frames_behind(log, at);
    law_watch_loads_handlers_in_order(load.base, topic, rest, None);
    assert(log.skip(at) =~= seq![log[at]] + rest);
    lemma_handlers_behind(topic, log[at], rest);
    assert(topic_loads(load, log) =~= loads_of(load.base, seq![handler] + handlers_in(topic, rest)));
    assert(topic_sends(load, log[at].made, log) =~= engines_in(topic, log.skip(at)));
}

/// A topic that is watched, and that holds no handler when it is read first, is
/// loaded with the placeholder, from the base engine alone, and then with each
/// handler of the topic from the first frame on, in order and each once.
pub proof fn law_placeholder_gives_way_frame_by_frame<E, H>(
    load: TopicLoad<E>,
    template: Seq<char>,
    store_path: Seq<char>,
    made: Option<E>,
    log: Seq<SeenFrame<E, H>>,
    read: int,
)
    requires
        load.watch,
        0 <= read <= log.len(),
        found_at_start(stored_log(log.take(read)), load.topic@) is None,
        loads_found(
            load,
            template,
            store_path,
            found_at_start(stored_log(log.take(read)), load.topic@),
        ),
        server_stays(load.topic@, log),
    ensures
        topic_loads(load, log) == seq![
            (Enrichment::BaseOnly(load.base), placeholder(template, load.topic@, store_path)),
        ] + loads_of(load.base, handlers_in(load.topic@, log)),
        topic_sends(load, made, log) == (match made {
            Some(engine) => seq![engine],
            None => Seq::empty(),
        }) + engines_in(load.topic@, log),
{
    law_watch_loads_handlers_in_order(load.base, load.topic@, log, None);
}

/// A template with neither mark in it is its own placeholder.
pub proof fn law_placeholder_without_marks(
    template: Seq<char>,
    topic: Seq<char>,
    store_path: Seq<char>,
)
    requires
        forall|at: int|
            0 <= at < template.len() ==> !crate::text::occurs_at(template, TOPIC_MARK@, at)
                && !#[trigger] crate::text::occurs_at(template, STORE_PATH_MARK@, at),
    ensures
        placeholder(template, topic, store_path) == template,
{
    assert forall|at: int| 0 <= at < template.len() implies !crate::text::occurs_at(
        template,
        TOPIC_MARK@,
        at,
    ) by {
        assert(!crate::text::occurs_at(template, STORE_PATH_MARK@, at));
    }
    crate::text::law_replaced_without_occurrence(template, TOPIC_MARK@, topic);
    crate::text::law_replaced_without_occurrence(template, STORE_PATH_MARK@, store_path);
}

/// In a template that holds each mark once, the topic one first, the marks give
/// way to the topic and to the path of the store, and the rest stays. A topic
/// that brings the other mark along is left out.
pub proof fn law_placeholder_fills_marks(
    before: Seq<char>,
    between: Seq<char>,
    after: Seq<char>,
    topic: Seq<char>,
    store_path: Seq<char>,
)
    requires
        ({
            let template = before + TOPIC_MARK@ + between + STORE_PATH_MARK@ + after;
            let rest = between + STORE_PATH_MARK@ + after;
            let with_topic = before + topic + between + STORE_PATH_MARK@ + after;
            &&& forall|at: int|
                0 <= at < before.len() ==> !crate::text::occurs_at(template, TOPIC_MARK@, at)
            &&& forall|at: int|
                0 <= at < rest.len() ==> !crate::text::occurs_at(rest, TOPIC_MARK@, at)
            &&& forall|at: int|
                0 <= at < before.len() + topic.len() + between.len() ==> !crate::text::occurs_at(
                    with_topic,
                    STORE_PATH_MARK@,
                    at,
                )
            &&& forall|at: int|
                0 <= at < after.len() ==> !crate::text::occurs_at(after, STORE_PATH_MARK@, at)
        }),
    ensures
        placeholder(
            before + TOPIC_MARK@ + between + STORE_PATH_MARK@ + after,
            topic,
            store_path,
        ) == before + topic + between + store_path + after,
{
    reveal_strlit("__TOPIC__");
    reveal_strlit("__STORE_PATH__");
    let template = before + TOPIC_MARK@ + between + STORE_PATH_MARK@ + after;
    let rest = between + STORE_PATH_MARK@ + after;
    let with_topic = before + topic + between + STORE_PATH_MARK@ + after;
    let first = before.len() as int;
    assert(template.skip(first).take(TOPIC_MARK@.len() as int) =~= TOPIC_MARK@);
    assert(template.take(first) =~= before);
    assert(template.skip(first + TOPIC_MARK@.len()) =~= rest);
    crate::text::law_replaced_at_first_occurrence(template, TOPIC_MARK@, topic, first);
    crate::text::law_replaced_without_occurrence(rest, TOPIC_MARK@, topic);
    assert(before + topic + rest =~= with_topic);
    let second = (before.len() + topic.len() + between.len()) as int;
    assert(with_topic.skip(second).take(STORE_PATH_MARK@.len() as int) =~= STORE_PATH_MARK@);
    assert(with_topic.take(second) =~= before + topic + between);
    assert(with_topic.skip(second + STORE_PATH_MARK@.len()) =~= after);
    crate::text::law_replaced_at_first_occurrence(
        with_topic,
        STORE_PATH_MARK@,
        store_path,
        second,
    );
    crate::text::law_replaced_without_occurrence(after, STORE_PATH_MARK@, store_path);
}

/// The engines that are sent among the first actions.
pub open spec fn first_sends<E>() -> spec_fn(FirstAction<E>) -> Option<E> {
    |action: FirstAction<E>|
        match action {
            FirstAction::Send(engine) => Some(engine),
            FirstAction::Watch(_) => None,
        }
}

/// The watches that are started among the first actions.
pub open spec fn first_watches<E>() -> spec_fn(FirstAction<E>) -> Option<TopicWatcher<E>> {
    |action: FirstAction<E>|
        match action {
            FirstAction::Watch(watcher) => Some(watcher),
            FirstAction::Send(_) => None,
        }
}

/// The engine that was made of the first script is sent, whether it is a stored
/// handler or a placeholder and whether or not the topic is watched; where none
/// was made, none is. A watch is started exactly if it is asked for, behind that:
/// on the topic, from the base engine, and from behind the frame that was loaded.
pub proof fn law_first_engine_is_sent<E>(load: TopicLoad<E>, made: Option<E>)
    ensures
        ({
            let actions = first_actions(load, made);
            let sent = crate::trace::picked(actions, first_sends());
            let watches = crate::trace::picked(actions, first_watches());
            &&& match made {
                Some(engine) => sent == seq![engine] && actions[0] is Send,
                None => sent.len() == 0,
            }
            &&& watches.len() == crate::trace::once_if(load.watch)
            &&& load.watch ==> watches[0].base == load.base && watches[0].topic == load.topic
                && watches[0].after == load.as_of && watches[0].phase is Following
        }),
{
    reveal_with_fuel(crate::trace::picked, 3);
    let actions = first_actions(load, made);
    if actions.len() > 1 {
        assert(actions.drop_last().last() == actions[0]);
        assert(actions.drop_last().drop_last().len() == 0);
    }
    if let Some(engine) = made {
        assert(actions[0] == FirstAction::Send(engine));
        assert(crate::trace::picked(actions, first_sends()) =~= seq![engine]);
    }
}

/// What a start loads is what it found: the text of a stored handler, with the
/// modules as of its frame, or the filled-in template, with none.
pub proof fn law_start_loads_what_it_found<E>(
    load: TopicLoad<E>,
    template: Seq<char>,
    store_path: Seq<char>,
    content: Option<(Seq<char>, Scru128Id)>,
)
    requires
        loads_found(load, template, store_path, content),
    ensures
        match content {
            Some((text, id)) => load.script@ == text && load.as_of == Some(id) && enrichment(
                load.base,
                load.as_of,
            ) == Enrichment::ModulesAt(load.base, id),
            None => load.script@ == placeholder(template, load.topic@, store_path)
                && load.as_of is None && enrichment(load.base, load.as_of)
                == Enrichment::BaseOnly(load.base),
        },
{
}

/// An engine gets modules exactly if there is a frame as of which to take them,
/// and is made from the base engine either way.
pub proof fn law_modules_come_from_the_frame<B>(base: B, as_of: Option<Scru128Id>, id: Scru128Id)
    ensures
        enrichment(base, as_of) == Enrichment::ModulesAt(base, id) <==> as_of == Some(id),
        enrichment(base, as_of) == Enrichment::BaseOnly(base) <==> as_of is None,
{
}

/// The topic is filled in before the path of the store, so that a topic which is
/// itself a mark of the path is filled in in turn.
pub proof fn law_topic_is_filled_in_first(
    template: Seq<char>,
    topic: Seq<char>,
    store_path: Seq<char>,
)
    ensures
        exists|with_topic: Seq<char>|
            with_topic == crate::text::replaced(template, "__TOPIC__"@, topic) && placeholder(
                template,
                topic,
                store_path,
            ) == #[trigger] crate::text::replaced(with_topic, "__STORE_PATH__"@, store_path),
{
    let with_topic = crate::text::replaced(template, "__TOPIC__"@, topic);
    assert(placeholder(template, topic, store_path) == crate::text::replaced(
        with_topic,
        "__STORE_PATH__"@,
        store_path,
    ));
}

/// Content is a text exactly if it is the encoding of one.
pub proof fn law_content_is_text_iff_it_encodes_one(bytes: Seq<u8>, text: Seq<char>)
    ensures
        content_text(Some(bytes)) == Some(text) <==> bytes == encode_utf8(text),
        content_text(Some(bytes)) is None <==> !valid_utf8(bytes),
        content_text(None) is None,
{
    encode_utf8_valid_utf8(text);
    encode_utf8_decode_utf8(text);
    if valid_utf8(bytes) {
        decode_utf8_encode_utf8(bytes);
    }
}

/// A frame asks for content exactly if it names some, and then for that, as of
/// itself. What a topic holds is seen as it is.
pub proof fn law_frame_names_its_content<H>(
    frame: TopicFrame<H>,
    hash: H,
    id: Scru128Id,
    content: Option<(String, Scru128Id)>,
)
    ensures
        frame_content(frame) == Some((hash, id)) <==> frame.hash == Some(hash) && id == frame.id,
        frame_content(frame) is None <==> frame.hash is None,
        content is None <==> content_view(content) is None,
        content matches Some((text, at)) ==> content_view(content) == Some((text@, at)),
{
}

/// What can come is the outcome of what was asked for, whatever it is.
pub proof fn law_what_can_come<E, H>(
    phase: TopicPhase,
    frame: TopicFrame<H>,
    content: Result<Vec<u8>, String>,
    made: Option<E>,
    taken: bool,
)
    ensures
        possible_in(phase, TopicEvent::<E, H>::Frame(frame)) <==> phase is Following,
        possible_in(phase, TopicEvent::<E, H>::Ended) <==> phase is Following,
        possible_in(phase, TopicEvent::<E, H>::Content(content)) <==> phase is Reading,
        possible_in(phase, TopicEvent::<E, H>::Made(made)) <==> phase is Making,
        possible_in(phase, TopicEvent::<E, H>::Sent(taken)) <==> phase is Sending,
{
}

/// Content is read exactly for a frame of the topic that names some.
pub proof fn law_content_is_read_for_frames_of_the_topic<E, H>(
    base: E,
    topic: Seq<char>,
    phase: TopicPhase,
    event: TopicEvent<E, H>,
    hash: H,
)
    requires
        possible_in(phase, event),
    ensures
        ({
            let (next, more) = topic_step(base, topic, phase, event);
            let wanted = event matches TopicEvent::Frame(frame) && frame.topic@ == topic
                && frame.hash == Some(hash);
            &&& crate::trace::times(more, TopicEffect::ReadContent(hash)) == crate::trace::once_if(
                wanted,
            )
            &&& wanted ==> next == TopicPhase::Reading(event->Frame_0.id)
        }),
{
    let more = topic_step(base, topic, phase, event).1;
    crate::trace::lemma_count_few(more, crate::trace::equal_to(TopicEffect::ReadContent(hash)));
}

/// An engine is asked for exactly when the content of a frame is there and is the
/// encoding of a text: of that text, from the base engine with the modules as of
/// that frame. An engine that was made is sent, and nothing else is.
pub proof fn law_watch_loads_text_and_sends_engines<E, H>(
    base: E,
    topic: Seq<char>,
    phase: TopicPhase,
    event: TopicEvent<E, H>,
    id: Scru128Id,
    text: Seq<char>,
    from: Enrichment<E>,
    engine: E,
)
    requires
        possible_in(phase, event),
        phase is Reading ==> phase == TopicPhase::Reading(id),
    ensures
        ({
            let (next, more) = topic_step(base, topic, phase, event);
            let readable = event matches TopicEvent::Content(Ok(bytes)) && bytes@ == encode_utf8(
                text,
            );
            &&& crate::trace::times(more, TopicEffect::Load(from, text)) == crate::trace::once_if(
                readable && from == Enrichment::ModulesAt(base, id),
            )
            &&& readable ==> next is Making
            &&& crate::trace::times(more, TopicEffect::Send(engine)) == crate::trace::once_if(
                event == TopicEvent::<E, H>::Made(Some(engine)),
            )
            &&& event == TopicEvent::<E, H>::Made(Some(engine)) ==> next is Sending
        }),
{
    let more = topic_step(base, topic, phase, event).1;
    crate::trace::lemma_count_few(more, crate::trace::equal_to(TopicEffect::Load(from, text)));
    crate::trace::lemma_count_few(more, crate::trace::equal_to(TopicEffect::Send(engine)));
    if let TopicEvent::Content(Ok(bytes)) = event {
        law_content_is_text_iff_it_encodes_one(bytes@, text);
    }
}

/// The watch goes on to the next frame behind every frame that is not its own or
/// names no content, behind content that cannot be read or is no text, behind a
/// script that is no good and behind an engine that was taken. It ends only where
/// there are no more frames or the server no longer takes engines.
pub proof fn law_watch_goes_on_or_ends<E, H>(
    base: E,
    topic: Seq<char>,
    phase: TopicPhase,
    event: TopicEvent<E, H>,
)
    requires
        possible_in(phase, event),
    ensures
        ({
            let (next, more) = topic_step(base, topic, phase, event);
            let goes_on = match event {
                TopicEvent::Frame(frame) => frame.topic@ != topic || frame.hash is None,
                TopicEvent::Content(Ok(bytes)) => !valid_utf8(bytes@),
                TopicEvent::Content(Err(_)) => true,
                TopicEvent::Made(made) => made is None,
                TopicEvent::Sent(taken) => taken,
                TopicEvent::Ended => false,
            };
            &&& crate::trace::times(more, TopicEffect::NextFrame) == crate::trace::once_if(goes_on)
            &&& goes_on <==> next is Following
            &&& goes_on ==> more.last() is NextFrame
            &&& next is Finished <==> event is Ended || event == TopicEvent::<E, H>::Sent(false)
        }),
{
    let more = topic_step(base, topic, phase, event).1;
    crate::trace::lemma_count_few(
        more,
        crate::trace::equal_to(TopicEffect::<E, H>::NextFrame),
    );
}

/// Content that cannot be read, or that is no text, is told with the error, and
/// nothing else is told.
pub proof fn law_faults_are_told<E, H>(
    base: E,
    topic: Seq<char>,
    phase: TopicPhase,
    event: TopicEvent<E, H>,
    line: Seq<char>,
)
    requires
        possible_in(phase, event),
    ensures
        crate::trace::times(
            topic_step(base, topic, phase, event).1,
            TopicEffect::Report(line),
        ) == crate::trace::once_if(
            match event {
                TopicEvent::Content(Ok(bytes)) => !valid_utf8(bytes@) && line
                    == "Error decoding topic content: "@ + crate::encoding::utf8_error_text(bytes@),
                TopicEvent::Content(Err(error)) => line == "Error reading topic content: "@
                    + error@,
                _ => false,
            },
        ),
{
    let more = topic_step(base, topic, phase, event).1;
    crate::trace::lemma_count_few(
        more,
        crate::trace::equal_to(TopicEffect::<E, H>::Report(line)),
    );
}

/// What is asked for is seen as it is: nothing is added, left out or changed.
pub proof fn law_actions_are_seen_as_they_are<E, H>(actions: Seq<TopicAction<E, H>>, at: int)
    requires
        0 <= at < actions.len(),
    ensures
        effects(actions).len() == actions.len(),
        match (actions[at], effects(actions)[at]) {
            (TopicAction::NextFrame, TopicEffect::NextFrame) => true,
            (TopicAction::ReadContent(a), TopicEffect::ReadContent(b)) => a == b,
            (TopicAction::Load(from, script), TopicEffect::Load(seen, text)) => script@ == text
                && match (from, seen) {
                (Enrichment::BaseOnly(a), Enrichment::BaseOnly(b)) => *a == b,
                (Enrichment::ModulesAt(a, id), Enrichment::ModulesAt(b, seen_id)) => *a == b && id
                    == seen_id,
                _ => false,
            },
            (TopicAction::Send(a), TopicEffect::Send(b)) => a == b,
            (TopicAction::Report(a), TopicEffect::Report(b)) => a@ == b,
            _ => false,
        },
{
}

/// An open store is always started with its API, at the address that was given,
/// before anything else; actors, services and actions run beside it exactly if
/// they are asked for, each once.
pub proof fn law_store_runs_what_is_asked_for(services: bool, expose: Option<String>)
    ensures
        ({
            let tasks = store_tasks(services, expose);
            let one = crate::trace::once_if(services);
            &&& tasks[0] == StoreTask::Api(expose)
            &&& tasks.len() == 1 + 3 * one
            &&& services ==> tasks[1] is Actors && tasks[2] is Services && tasks[3] is Actions
        }),
{
}

/// The line that reports how a task ended is one for each task, with the error
/// behind it.
pub proof fn law_task_failure_ends_with_the_error(
    task: StoreTask,
    other: StoreTask,
    error: Seq<char>,
)
    ensures
        task_failure(task, error) == task_failure(task, Seq::empty()) + error,
        task is Api && other is Api ==> task_failure(task, error) == task_failure(other, error),
{
    assert(task_failure(task, Seq::empty()) + error =~= task_failure(task, error));
}

} // verus!

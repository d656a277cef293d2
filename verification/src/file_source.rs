//! A script file, and the watch on its directory.
//!
//! The file is loaded once at the start. With `--watch`, changes below its
//! directory make it load again: a change is noted, further changes are waited
//! out, and once it has been quiet for a while the file is read anew.

use crate::fs_path::{FsPath, ResolvedPath};
use vstd::prelude::*;

verus! {

/// How long the file system must be quiet before a noted change is acted on.
pub const DEBOUNCE_MS: u64 = 100;

/// How long to wait for changes while none is noted: one day.
pub const IDLE_MS: u64 = 86_400_000;

/// What happened to files, as far as the watch tells apart.
#[derive(Clone, Copy, Debug, PartialEq, Eq, Structural)]
pub enum ChangeKind {
    Any,
    Access,
    Create,
    Modify,
    Remove,
    Other,
}

/// An event of the file system: what happened, and to which paths.
#[derive(Debug)]
pub struct ChangeEvent {
    pub kind: ChangeKind,
    pub paths: Vec<FsPath>,
}

/// The event names paths, and every one of them lies in the directory that is
/// to be ignored.
pub open spec fn all_ignored(paths: Seq<FsPath>, ignore: Option<FsPath>) -> bool {
    match ignore {
        Some(dir) => {
            &&& paths.len() > 0
            &&& forall|i: int| 0 <= i < paths.len() ==> dir@.is_prefix_of(#[trigger] paths[i]@)
        },
        None => false,
    }
}

/// Files appear, change or vanish.
pub open spec fn alters_files(kind: ChangeKind) -> bool {
    kind == ChangeKind::Create || kind == ChangeKind::Modify || kind == ChangeKind::Remove
}

/// The event calls for a reload.
pub open spec fn calls_for_reload(event: ChangeEvent, ignore: Option<FsPath>) -> bool {
    alters_files(event.kind) && !all_ignored(event.paths@, ignore)
}

/// What the watch got when it waited.
#[derive(Debug)]
pub enum WatchMessage {
    /// A file system event.
    Change(ChangeEvent),
    /// The watch failed to tell what happened, with this error text.
    Fault(String),
    /// The time ran out before anything came.
    Quiet,
    /// Nothing will come any more.
    Closed,
}

/// What the watch does about it.
pub enum WatchEffect {
    /// Wait again.
    Wait,
    /// Read the script again.
    Reload,
    /// Report this line, then wait again.
    Report(Seq<char>),
    /// Stop watching.
    Stop,
}

/// One message: whether a reload is pending afterwards, and what is done.
pub open spec fn watch_step(
    pending: bool,
    ignore: Option<FsPath>,
    message: WatchMessage,
) -> (bool, WatchEffect) {
    match message {
        WatchMessage::Change(event) => (
            pending || calls_for_reload(event, ignore),
            WatchEffect::Wait,
        ),
        WatchMessage::Fault(error) => (pending, WatchEffect::Report("Watch error: "@ + error@)),
        WatchMessage::Quiet => (
            false,
            if pending {
                WatchEffect::Reload
            } else {
                WatchEffect::Wait
            },
        ),
        WatchMessage::Closed => (pending, WatchEffect::Stop),
    }
}

/// Whether an event calls for a reload.
pub fn concerns(event: &ChangeEvent, ignore: &Option<FsPath>) -> (concerned: bool)
    ensures
        concerned == calls_for_reload(*event, *ignore),
{
    let alters: bool = match event.kind {
        ChangeKind::Create | ChangeKind::Modify | ChangeKind::Remove => true,
        _ => false,
    };
    if !alters {
        return false;
    }
    match ignore {
        None => true,
        Some(dir) => {
            if event.paths.len() == 0 {
                return true;
            }
            let mut i: usize = 0;
            while i < event.paths.len()
                invariant
                    alters_files(event.kind),
                    *ignore == Some(*dir),
                    i <= event.paths@.len(),
                    forall|j: int| 0 <= j < i ==> dir@.is_prefix_of(#[trigger] event.paths@[j]@),
                decreases event.paths@.len() - i,
            {
                if !event.paths[i].starts_with(dir) {
                    return true;
                }
                i += 1;
            }
            false
        },
    }
}

/// How long to wait for the next message.
pub open spec fn wait_ms(pending: bool) -> u64 {
    if pending {
        DEBOUNCE_MS
    } else {
        IDLE_MS
    }
}

/// How long to wait while a reload is pending or not.
pub fn timeout_ms(pending: bool) -> (ms: u64)
    ensures
        ms == wait_ms(pending),
{
    if pending {
        DEBOUNCE_MS
    } else {
        IDLE_MS
    }
}

/// Where a file source stands.
#[derive(Debug)]
pub enum FilePhase {
    /// The script is being read for the first time.
    Reading,
    /// This script was read, and its path is being resolved.
    Resolving(String),
    /// An engine is being made of the script at this path; whether it is the
    /// first.
    Making(ResolvedPath, bool),
    /// That engine is being sent.
    Sending(ResolvedPath, bool),
    /// The watch waits; a change may be noted that no reload has followed yet.
    Waiting(ResolvedPath, bool),
    /// The script is being read again.
    Rereading(ResolvedPath),
    /// There is nothing left to do.
    Finished,
}

/// What came of the last thing a file source asked for, `E` being an engine.
#[derive(Debug)]
pub enum FileEvent<E> {
    /// The script was read, or the error text.
    Read(Result<String, String>),
    /// The path was resolved, or the error text.
    Resolved(Result<ResolvedPath, String>),
    /// This engine was made, or none because the script is no good.
    Made(Option<E>),
    /// The engine was sent, or else the server no longer takes engines.
    Sent(bool),
    /// What the wait gave.
    Message(WatchMessage),
}

/// What a file source asks for.
#[derive(Debug)]
pub enum FileAction<'a, E> {
    /// Read the script at this path, which is as it was given.
    ReadScript(&'a String),
    /// Resolve this path.
    ResolvePath(&'a String),
    /// Make an engine from a base engine, of a script at a resolved path.
    Load(&'a E, String, &'a ResolvedPath),
    /// Send this engine.
    Send(E),
    /// Start to watch the directory that so many leading components of the path
    /// make up.
    StartWatch(&'a ResolvedPath, usize),
    /// Wait for the watch, at most so many milliseconds.
    Wait(u64),
    /// Read the script at this path again.
    ReadAgain(&'a ResolvedPath),
    /// Report this line.
    Report(String),
    /// Report this line and exit with status 1.
    Exit(String),
}

/// A [`FileAction`] as a value.
pub enum FileEffect<E> {
    ReadScript(Seq<char>),
    ResolvePath(Seq<char>),
    Load(E, Seq<char>, ResolvedPath),
    Send(E),
    StartWatch(ResolvedPath, int),
    Wait(u64),
    ReadAgain(ResolvedPath),
    Report(Seq<char>),
    Exit(Seq<char>),
}

impl<'a, E> View for FileAction<'a, E> {
    type V = FileEffect<E>;

    open spec fn view(&self) -> FileEffect<E> {
        match self {
            FileAction::ReadScript(path) => FileEffect::ReadScript(path@),
            FileAction::ResolvePath(path) => FileEffect::ResolvePath(path@),
            FileAction::Load(base, script, path) => FileEffect::Load(**base, script@, **path),
            FileAction::Send(engine) => FileEffect::Send(*engine),
            FileAction::StartWatch(path, depth) => FileEffect::StartWatch(**path, *depth as int),
            FileAction::Wait(ms) => FileEffect::Wait(*ms),
            FileAction::ReadAgain(path) => FileEffect::ReadAgain(**path),
            FileAction::Report(line) => FileEffect::Report(line@),
            FileAction::Exit(line) => FileEffect::Exit(line@),
        }
    }
}

/// The effects of a list of actions.
pub open spec fn effects<E>(actions: Seq<FileAction<E>>) -> Seq<FileEffect<E>> {
    actions.map_values(|action: FileAction<E>| action@)
}

/// Whether `event` can come in `phase`. The server cannot be gone before it has
/// got its first engine.
pub open spec fn possible_in<E>(phase: FilePhase, event: FileEvent<E>) -> bool {
    match event {
        FileEvent::Read(_) => phase is Reading || phase is Rereading,
        FileEvent::Resolved(_) => phase is Resolving,
        FileEvent::Made(_) => phase is Making,
        FileEvent::Sent(taken) => phase matches FilePhase::Sending(_, first) && (taken || !first),
        FileEvent::Message(_) => phase is Waiting,
    }
}

/// What follows once a script is dealt with: the watch is started behind the
/// first, if there is to be one, and goes on behind any other.
pub open spec fn settled<E>(watch: bool, at: ResolvedPath, first: bool) -> (
    FilePhase,
    Seq<FileEffect<E>>,
) {
    if !first {
        (FilePhase::Waiting(at, false), seq![FileEffect::Wait(IDLE_MS)])
    } else if watch {
        (
            FilePhase::Waiting(at, false),
            seq![
                FileEffect::StartWatch(at, crate::fs_path::parent_depth(at.parts@)),
                FileEffect::Wait(IDLE_MS),
            ],
        )
    } else {
        (FilePhase::Finished, seq![])
    }
}

/// One event: the phase afterwards, and what is asked for, in order. What cannot come
/// in the phase would end the source.
pub open spec fn file_step<E>(
    base: E,
    path: Seq<char>,
    watch: bool,
    ignore: Option<FsPath>,
    phase: FilePhase,
    event: FileEvent<E>,
) -> (FilePhase, Seq<FileEffect<E>>) {
    match (phase, event) {
        (FilePhase::Reading, FileEvent::Read(Ok(script))) => (
            FilePhase::Resolving(script),
            seq![FileEffect::ResolvePath(path)],
        ),
        (FilePhase::Reading, FileEvent::Read(Err(error))) => (
            FilePhase::Finished,
            seq![FileEffect::Exit("Error reading "@ + path + ": "@ + error@)],
        ),
        (FilePhase::Resolving(script), FileEvent::Resolved(Ok(at))) => (
            FilePhase::Making(at, true),
            seq![FileEffect::Load(base, script@, at)],
        ),
        (FilePhase::Resolving(_), FileEvent::Resolved(Err(error))) => (
            FilePhase::Finished,
            seq![FileEffect::Exit("Error resolving "@ + path + ": "@ + error@)],
        ),
        (FilePhase::Making(at, first), FileEvent::Made(Some(engine))) => (
            FilePhase::Sending(at, first),
            seq![FileEffect::Send(engine)],
        ),
        (FilePhase::Making(at, first), FileEvent::Made(None)) => settled(watch, at, first),
        (FilePhase::Sending(at, first), FileEvent::Sent(taken)) => if taken {
            settled(watch, at, first)
        } else {
            (FilePhase::Finished, seq![])
        },
        (FilePhase::Rereading(at), FileEvent::Read(Ok(script))) => (
            FilePhase::Making(at, false),
            seq![FileEffect::Load(base, script@, at)],
        ),
        (FilePhase::Rereading(at), FileEvent::Read(Err(error))) => (
            FilePhase::Waiting(at, false),
            seq![
                FileEffect::Report("Error reading script file: "@ + error@),
                FileEffect::Wait(IDLE_MS),
            ],
        ),
        (FilePhase::Waiting(at, noted), FileEvent::Message(message)) => {
            let (pending, effect) = watch_step(noted, ignore, message);
            match effect {
                WatchEffect::Wait => (
                    FilePhase::Waiting(at, pending),
                    seq![FileEffect::Wait(wait_ms(pending))],
                ),
                WatchEffect::Report(line) => (
                    FilePhase::Waiting(at, pending),
                    seq![FileEffect::Report(line), FileEffect::Wait(wait_ms(pending))],
                ),
                WatchEffect::Reload => (
                    FilePhase::Rereading(at),
                    seq![FileEffect::ReadAgain(at)],
                ),
                WatchEffect::Stop => (FilePhase::Finished, seq![]),
            }
        },
        _ => (FilePhase::Finished, seq![]),
    }
}

/// A script file as a source of engines.
pub struct FileSource<E> {
    /// The engine from which all others are made.
    pub base: E,
    /// The path of the script, as it was given.
    pub path: String,
    /// Whether changes make the script load again.
    pub watch: bool,
    /// The directory whose own changes do not matter.
    pub ignore: Option<FsPath>,
    pub phase: FilePhase,
}

/// What is to be done, apart from what the source itself holds.
enum Task<E> {
    Nothing,
    Resolve,
    Load(String),
    Send(E),
    Settle(bool),
    Wait,
    ReportAndWait(String),
    Reread,
    Exit(String),
}

/// The effects of a task for a source in `phase`.
spec fn task_effects<E>(base: E, path: Seq<char>, phase: FilePhase, task: Task<E>) -> Seq<
    FileEffect<E>,
> {
    match (task, phase) {
        (Task::Resolve, _) => seq![FileEffect::ResolvePath(path)],
        (Task::Load(script), FilePhase::Making(at, _)) => seq![
            FileEffect::Load(base, script@, at),
        ],
        (Task::Send(engine), _) => seq![FileEffect::Send(engine)],
        (Task::Settle(first), FilePhase::Waiting(at, _)) => settled(true, at, first).1,
        (Task::Wait, FilePhase::Waiting(_, pending)) => seq![FileEffect::Wait(wait_ms(pending))],
        (Task::ReportAndWait(line), FilePhase::Waiting(_, pending)) => seq![
            FileEffect::Report(line@),
            FileEffect::Wait(wait_ms(pending)),
        ],
        (Task::Reread, FilePhase::Rereading(at)) => seq![FileEffect::ReadAgain(at)],
        (Task::Exit(line), _) => seq![FileEffect::Exit(line@)],
        _ => seq![],
    }
}

impl<E> FileSource<E> {
    /// A source that has yet to read its script.
    pub fn new(base: E, path: String, watch: bool, ignore: Option<FsPath>) -> (source: FileSource<
        E,
    >)
        ensures
            source == (FileSource { base, path, watch, ignore, phase: FilePhase::Reading }),
    {
        FileSource { base, path, watch, ignore, phase: FilePhase::Reading }
    }

    /// What a new source asks for first.
    pub fn first(&self) -> (action: FileAction<'_, E>)
        ensures
            action@ == FileEffect::<E>::ReadScript(self.path@),
    {
        FileAction::ReadScript(&self.path)
    }

    /// Whether `event` can come now.
    pub fn expects(&self, event: &FileEvent<E>) -> (expected: bool)
        ensures
            expected == possible_in(self.phase, *event),
    {
        match (event, &self.phase) {
            (FileEvent::Read(_), FilePhase::Reading) => true,
            (FileEvent::Read(_), FilePhase::Rereading(_)) => true,
            (FileEvent::Resolved(_), FilePhase::Resolving(_)) => true,
            (FileEvent::Made(_), FilePhase::Making(_, _)) => true,
            (FileEvent::Sent(taken), FilePhase::Sending(_, first)) => *taken || !*first,
            (FileEvent::Message(_), FilePhase::Waiting(_, _)) => true,
            _ => false,
        }
    }

    /// Takes one event, and gives what is to be done, in order. With nothing to
    /// do, the source is finished.
    pub fn on_event<'a>(&'a mut self, event: FileEvent<E>) -> (actions: Vec<FileAction<'a, E>>)
        requires
            possible_in(old(self).phase, event),
        ensures
            final(self).base == old(self).base,
            final(self).path == old(self).path,
            final(self).watch == old(self).watch,
            final(self).ignore == old(self).ignore,
            final(self).phase == file_step(
                old(self).base,
                old(self).path@,
                old(self).watch,
                old(self).ignore,
                old(self).phase,
                event,
            ).0,
            effects(actions@) == file_step(
                old(self).base,
                old(self).path@,
                old(self).watch,
                old(self).ignore,
                old(self).phase,
                event,
            ).1,
    {
        let mut phase: FilePhase = FilePhase::Finished;
        std::mem::swap(&mut phase, &mut self.phase);
        let (next, task) = decide(&self.path, self.watch, &self.ignore, phase, event);
        self.phase = next;
        (&*self).carry_out(task)
    }

    fn carry_out<'a>(&'a self, task: Task<E>) -> (actions: Vec<FileAction<'a, E>>)
        ensures
            effects(actions@) == task_effects(self.base, self.path@, self.phase, task),
    {
        let ghost then = task_effects(self.base, self.path@, self.phase, task);
        let mut actions: Vec<FileAction<'a, E>> = Vec::new();
        match (task, &self.phase) {
            (Task::Resolve, _) => {
                actions.push(FileAction::ResolvePath(&self.path));
            },
            (Task::Load(script), FilePhase::Making(at, _)) => {
                actions.push(FileAction::Load(&self.base, script, at));
            },
            (Task::Send(engine), _) => {
                actions.push(FileAction::Send(engine));
            },
            (Task::Settle(first), FilePhase::Waiting(at, _)) => {
                if first {
                    actions.push(FileAction::StartWatch(at, at.parts.parent_len()));
                }
                actions.push(FileAction::Wait(IDLE_MS));
            },
            (Task::Wait, FilePhase::Waiting(_, pending)) => {
                actions.push(FileAction::Wait(timeout_ms(*pending)));
            },
            (Task::ReportAndWait(line), FilePhase::Waiting(_, pending)) => {
                actions.push(FileAction::Report(line));
                actions.push(FileAction::Wait(timeout_ms(*pending)));
            },
            (Task::Reread, FilePhase::Rereading(at)) => {
                actions.push(FileAction::ReadAgain(at));
            },
            (Task::Exit(line), _) => {
                actions.push(FileAction::Exit(line));
            },
            _ => {},
        }
        assert(effects(actions@) =~= then);
        actions
    }
}

/// Decides on one event: the phase afterwards, and the task.
fn decide<E>(
    path: &String,
    watch: bool,
    ignore: &Option<FsPath>,
    phase: FilePhase,
    event: FileEvent<E>,
) -> (result: (FilePhase, Task<E>))
    requires
        possible_in(phase, event),
    ensures
        forall|base: E| #[trigger]
            file_step(base, path@, watch, *ignore, phase, event) == (
                result.0,
                task_effects(base, path@, result.0, result.1),
            ),
{
    match (phase, event) {
        (FilePhase::Reading, FileEvent::Read(Ok(script))) => (
            FilePhase::Resolving(script),
            Task::Resolve,
        ),
        (FilePhase::Reading, FileEvent::Read(Err(error))) => {
            let line: String = "Error reading ".to_owned();
            (
                FilePhase::Finished,
                Task::Exit(line.concat(path.as_str()).concat(": ").concat(error.as_str())),
            )
        },
        (FilePhase::Resolving(script), FileEvent::Resolved(Ok(at))) => (
            FilePhase::Making(at, true),
            Task::Load(script),
        ),
        (FilePhase::Resolving(_), FileEvent::Resolved(Err(error))) => {
            let line: String = "Error resolving ".to_owned();
            (
                FilePhase::Finished,
                Task::Exit(line.concat(path.as_str()).concat(": ").concat(error.as_str())),
            )
        },
        (FilePhase::Making(at, first), FileEvent::Made(Some(engine))) => (
            FilePhase::Sending(at, first),
            Task::Send(engine),
        ),
        (FilePhase::Making(at, first), FileEvent::Made(None)) => settle(watch, at, first),
        (FilePhase::Sending(at, first), FileEvent::Sent(taken)) => {
            if taken {
                settle(watch, at, first)
            } else {
                (FilePhase::Finished, Task::Nothing)
            }
        },
        (FilePhase::Rereading(at), FileEvent::Read(Ok(script))) => (
            FilePhase::Making(at, false),
            Task::Load(script),
        ),
        (FilePhase::Rereading(at), FileEvent::Read(Err(error))) => {
            let line: String = "Error reading script file: ".to_owned();
            (FilePhase::Waiting(at, false), Task::ReportAndWait(line.concat(error.as_str())))
        },
        (FilePhase::Waiting(at, pending), FileEvent::Message(message)) => match message {
            WatchMessage::Change(change) => (
                FilePhase::Waiting(at, pending || concerns(&change, ignore)),
                Task::Wait,
            ),
            WatchMessage::Fault(error) => {
                let line: String = "Watch error: ".to_owned();
                (FilePhase::Waiting(at, pending), Task::ReportAndWait(line.concat(error.as_str())))
            },
            WatchMessage::Quiet => {
                if pending {
                    (FilePhase::Rereading(at), Task::Reread)
                } else {
                    (FilePhase::Waiting(at, false), Task::Wait)
                }
            },
            WatchMessage::Closed => (FilePhase::Finished, Task::Nothing),
        },
        (_, _) => vstd::pervasive::unreached(),
    }
}

/// What follows once a script is dealt with.
fn settle<E>(watch: bool, at: ResolvedPath, first: bool) -> (result: (FilePhase, Task<E>))
    ensures
        result.0 == settled::<E>(watch, at, first).0,
        forall|base: E, path: Seq<char>|
            #[trigger] task_effects(base, path, result.0, result.1) == settled::<E>(
                watch,
                at,
                first,
            ).1,
{
    if first && !watch {
        (FilePhase::Finished, Task::Nothing)
    } else {
        (FilePhase::Waiting(at, false), Task::Settle(first))
    }
}

/// Whether a reload is pending after `messages`, for a watch that starts with
/// none pending.
pub open spec fn pending_after(ignore: Option<FsPath>, messages: Seq<WatchMessage>) -> bool
    decreases messages.len(),
{
    if messages.len() == 0 {
        false
    } else {
        watch_step(pending_after(ignore, messages.drop_last()), ignore, messages.last()).0
    }
}

/// Message `at` is a change that calls for a reload, and it has not been quiet
/// since.
pub open spec fn change_waits(
    ignore: Option<FsPath>,
    messages: Seq<WatchMessage>,
    at: int,
) -> bool {
    &&& 0 <= at < messages.len()
    &&& messages[at] matches WatchMessage::Change(event) && calls_for_reload(event, ignore)
    &&& forall|k: int| at < k < messages.len() ==> !((#[trigger] messages[k]) is Quiet)
}

/// A reload is pending exactly if a change that calls for one came since it was
/// last quiet.
pub proof fn law_pending_iff_change_waits(ignore: Option<FsPath>, messages: Seq<WatchMessage>)
    ensures
        pending_after(ignore, messages) <==> exists|at: int| change_waits(ignore, messages, at),
    decreases messages.len(),
{
    if messages.len() > 0 {
        let earlier = messages.drop_last();
        let last = messages.len() - 1;
        law_pending_iff_change_waits(ignore, earlier);
        assert(messages[last] == messages.last());
        if pending_after(ignore, messages) {
            if pending_after(ignore, earlier) {
                let at = choose|at: int| change_waits(ignore, earlier, at);
                assert forall|k: int| at < k < messages.len() implies !((
                #[trigger] messages[k]) is Quiet) by {
                    if k < last {
                        assert(earlier[k] == messages[k]);
                    }
                }
                assert(earlier[at] == messages[at]);
                assert(change_waits(ignore, messages, at));
            } else {
                assert(change_waits(ignore, messages, last));
            }
        }
        if exists|at: int| change_waits(ignore, messages, at) {
            let at = choose|at: int| change_waits(ignore, messages, at);
            if at < last {
                assert forall|k: int| at < k < earlier.len() implies !((
                #[trigger] earlier[k]) is Quiet) by {
                    assert(earlier[k] == messages[k]);
                }
                assert(earlier[at] == messages[at]);
                assert(change_waits(ignore, earlier, at));
                assert(!(messages[last] is Quiet));
            }
        }
    }
}

/// A burst of messages that never pauses is followed by one reload, if any of
/// them called for it, and by none if none did; after that nothing is pending.
pub proof fn law_burst_reloads_once(ignore: Option<FsPath>, burst: Seq<WatchMessage>)
    requires
        forall|k: int| 0 <= k < burst.len() ==> !((#[trigger] burst[k]) is Quiet),
    ensures
        ({
            let called = exists|at: int|
                0 <= at < burst.len() && (#[trigger] burst[at] matches WatchMessage::Change(event)
                    && calls_for_reload(event, ignore));
            let first = watch_step(pending_after(ignore, burst), ignore, WatchMessage::Quiet);
            let second = watch_step(first.0, ignore, WatchMessage::Quiet);
            &&& first.1 is Reload <==> called
            &&& second.1 is Wait
            &&& !second.0
        }),
{
    law_pending_iff_change_waits(ignore, burst);
    if pending_after(ignore, burst) {
        let at = choose|at: int| change_waits(ignore, burst, at);
        assert(burst[at] is Change);
    }
    if exists|at: int|
        0 <= at < burst.len() && (#[trigger] burst[at] matches WatchMessage::Change(event)
            && calls_for_reload(event, ignore)) {
        let at = choose|at: int|
            0 <= at < burst.len() && (#[trigger] burst[at] matches WatchMessage::Change(event)
                && calls_for_reload(event, ignore));
        assert(change_waits(ignore, burst, at));
    }
}

/// Changes that stay inside the ignored directory never lead to a reload.
pub proof fn law_ignored_changes_never_reload(ignore: Option<FsPath>, messages: Seq<WatchMessage>)
    requires
        forall|k: int|
            0 <= k < messages.len() ==> ((#[trigger] messages[k]) matches WatchMessage::Change(event)
                ==> all_ignored(event.paths@, ignore)),
    ensures
        !pending_after(ignore, messages),
        watch_step(pending_after(ignore, messages), ignore, WatchMessage::Quiet).1 is Wait,
{
    law_pending_iff_change_waits(ignore, messages);
    if pending_after(ignore, messages) {
        let at = choose|at: int| change_waits(ignore, messages, at);
        assert(messages[at] is Change);
    }
}

/// A change that also touches a path outside the ignored directory calls for a
/// reload.
pub proof fn law_outside_change_calls_for_reload(
    event: ChangeEvent,
    ignore: Option<FsPath>,
    at: int,
)
    requires
        alters_files(event.kind),
        0 <= at < event.paths@.len(),
        ignore matches Some(dir) ==> !dir@.is_prefix_of(event.paths@[at]@),
    ensures
        calls_for_reload(event, ignore),
{
}

/// The phase of a source after `events`, and all that it asked for, in order.
pub open spec fn history<E>(
    base: E,
    path: Seq<char>,
    watch: bool,
    ignore: Option<FsPath>,
    events: Seq<FileEvent<E>>,
) -> (FilePhase, Seq<FileEffect<E>>)
    decreases events.len(),
{
    if events.len() == 0 {
        (FilePhase::Reading, seq![FileEffect::ReadScript(path)])
    } else {
        let (phase, done) = history(base, path, watch, ignore, events.drop_last());
        let (next, more) = file_step(base, path, watch, ignore, phase, events.last());
        (next, done + more)
    }
}

/// Each of `events` can come when its turn is.
pub open spec fn can_happen<E>(
    base: E,
    path: Seq<char>,
    watch: bool,
    ignore: Option<FsPath>,
    events: Seq<FileEvent<E>>,
) -> bool
    decreases events.len(),
{
    events.len() == 0 || (can_happen(base, path, watch, ignore, events.drop_last()) && possible_in(
        history(base, path, watch, ignore, events.drop_last()).0,
        events.last(),
    ))
}

/// The messages of the watch among `events`.
pub open spec fn messages_in<E>(events: Seq<FileEvent<E>>) -> Seq<WatchMessage>
    decreases events.len(),
{
    if events.len() == 0 {
        Seq::empty()
    } else {
        match events.last() {
            FileEvent::Message(message) => messages_in(events.drop_last()).push(message),
            _ => messages_in(events.drop_last()),
        }
    }
}

/// What each phase says of the messages before it.
proof fn lemma_phase_tells_pending<E>(
    base: E,
    path: Seq<char>,
    watch: bool,
    ignore: Option<FsPath>,
    events: Seq<FileEvent<E>>,
)
    requires
        can_happen(base, path, watch, ignore, events),
    ensures
        ({
            let pending = pending_after(ignore, messages_in(events));
            match history(base, path, watch, ignore, events).0 {
                FilePhase::Waiting(_, noted) => noted == pending,
                FilePhase::Finished => true,
                _ => !pending,
            }
        }),
    decreases events.len(),
{
    if events.len() > 0 {
        lemma_phase_tells_pending(base, path, watch, ignore, events.drop_last());
        let earlier = messages_in(events.drop_last());
        if let FileEvent::Message(message) = events.last() {
            assert(earlier.push(message).drop_last() =~= earlier);
        }
    }
}

/// The script is read again exactly when it has become quiet after a change that
/// calls for it, however often it was read before.
pub proof fn law_reads_again_iff_change_waits<E>(
    base: E,
    path: Seq<char>,
    watch: bool,
    ignore: Option<FsPath>,
    events: Seq<FileEvent<E>>,
    message: WatchMessage,
)
    requires
        can_happen(base, path, watch, ignore, events.push(FileEvent::Message(message))),
    ensures
        ({
            let before = history(base, path, watch, ignore, events).0;
            let (next, more) = file_step(
                base,
                path,
                watch,
                ignore,
                before,
                FileEvent::Message(message),
            );
            let at = before->Waiting_0;
            &&& next is Rereading <==> message is Quiet && exists|at: int|
                change_waits(ignore, messages_in(events), at)
            &&& next is Rereading ==> more == seq![FileEffect::<E>::ReadAgain(at)]
            &&& !(next is Rereading) ==> forall|i: int|
                0 <= i < more.len() ==> !((#[trigger] more[i]) is ReadAgain)
        }),
{
    let all = events.push(FileEvent::Message(message));
    assert(all.drop_last() =~= events);
    assert(all.last() == FileEvent::<E>::Message(message));
    lemma_phase_tells_pending(base, path, watch, ignore, events);
    law_pending_iff_change_waits(ignore, messages_in(events));
}

/// The path that a phase works at, if there is one yet.
pub open spec fn path_in(phase: FilePhase) -> Option<ResolvedPath> {
    match phase {
        FilePhase::Making(at, _) => Some(at),
        FilePhase::Sending(at, _) => Some(at),
        FilePhase::Waiting(at, _) => Some(at),
        FilePhase::Rereading(at) => Some(at),
        _ => None,
    }
}

proof fn lemma_path_was_resolved<E>(
    base: E,
    path: Seq<char>,
    watch: bool,
    ignore: Option<FsPath>,
    events: Seq<FileEvent<E>>,
)
    requires
        can_happen(base, path, watch, ignore, events),
    ensures
        ({
            let phase = history(base, path, watch, ignore, events).0;
            &&& path_in(phase) matches Some(at) ==> events.len() > 1 && events[1]
                == FileEvent::<E>::Resolved(Ok(at))
            &&& phase is Reading ==> events.len() == 0
            &&& phase matches FilePhase::Resolving(script) ==> events.len() == 1 && events[0]
                == FileEvent::<E>::Read(Ok(script))
        }),
    decreases events.len(),
{
    if events.len() > 0 {
        let earlier = events.drop_last();
        lemma_path_was_resolved(base, path, watch, ignore, earlier);
        assert forall|i: int| 0 <= i < earlier.len() implies earlier[i] == events[i] by {
        }
    }
}

/// Every engine is made from the base engine, never from one that was sent, of a
/// script that was read, at the one path that was resolved. So scripts that are
/// the same make the source ask for the same, whatever happened between them.
pub proof fn law_loads_come_from_base_and_resolved_path<E>(
    base: E,
    path: Seq<char>,
    watch: bool,
    ignore: Option<FsPath>,
    events: Seq<FileEvent<E>>,
    at: int,
)
    requires
        can_happen(base, path, watch, ignore, events),
        0 <= at < history(base, path, watch, ignore, events).1.len(),
        history(base, path, watch, ignore, events).1[at] is Load,
    ensures
        events.len() > 1,
        events[1] matches FileEvent::Resolved(Ok(resolved)) && exists|k: int, script: String|
            0 <= k < events.len() && #[trigger] events[k] == FileEvent::<E>::Read(Ok(script))
                && history(base, path, watch, ignore, events).1[at] == FileEffect::Load(
                base,
                #[trigger] script@,
                resolved,
            ),
    decreases events.len(),
{
    if events.len() > 0 {
        let earlier = events.drop_last();
        let (phase, done) = history(base, path, watch, ignore, earlier);
        let more = file_step(base, path, watch, ignore, phase, events.last()).1;
        let all = history(base, path, watch, ignore, events).1;
        let last = events.len() - 1;
        assert(all == done + more);
        lemma_path_was_resolved(base, path, watch, ignore, earlier);
        if at < done.len() {
            law_loads_come_from_base_and_resolved_path(base, path, watch, ignore, earlier, at);
            let resolved = events[1]->Resolved_0->Ok_0;
            assert(earlier[1] == events[1]);
            let (k, script) = choose|k: int, script: String|
                0 <= k < earlier.len() && #[trigger] earlier[k] == FileEvent::<E>::Read(Ok(script))
                    && done[at] == FileEffect::Load(base, #[trigger] script@, resolved);
            assert(events[k] == FileEvent::<E>::Read(Ok(script)));
            assert(all[at] == FileEffect::Load(base, script@, resolved));
        } else {
            assert(all[at] == more[at - done.len()]);
            match phase {
                FilePhase::Resolving(script) => {
                    assert(events[0] == earlier[0]);
                    assert(events[1] == events.last());
                    assert(events[0] == FileEvent::<E>::Read(Ok(script)));
                    assert(all[at] == FileEffect::Load(
                        base,
                        script@,
                        events[1]->Resolved_0->Ok_0,
                    ));
                },
                FilePhase::Rereading(resolved) => {
                    let script = events.last()->Read_0->Ok_0;
                    assert(events[1] == earlier[1]);
                    assert(events[last] == FileEvent::<E>::Read(Ok(script)));
                    assert(all[at] == FileEffect::Load(base, script@, resolved));
                },
                _ => {
                    assert(false);
                },
            }
        }
    }
}

/// An engine is sent exactly if one was made of the script that was asked for
/// last, and it is that engine.
pub proof fn law_sends_what_was_made<E>(
    base: E,
    path: Seq<char>,
    watch: bool,
    ignore: Option<FsPath>,
    phase: FilePhase,
    event: FileEvent<E>,
)
    requires
        possible_in(phase, event),
    ensures
        ({
            let more = file_step(base, path, watch, ignore, phase, event).1;
            forall|engine: E| #[trigger]
                more.contains(FileEffect::Send(engine)) <==> event == FileEvent::Made(Some(engine))
        }),
        file_step(base, path, watch, ignore, phase, event).0 is Making <==> exists|i: int|
            0 <= i < file_step(base, path, watch, ignore, phase, event).1.len() && (
            #[trigger] file_step(base, path, watch, ignore, phase, event).1[i]) is Load,
{
    let (next, more) = file_step(base, path, watch, ignore, phase, event);
    assert forall|engine: E| #[trigger]
        more.contains(FileEffect::Send(engine)) <==> event == FileEvent::Made(Some(engine)) by {
        if event == FileEvent::Made(Some(engine)) {
            assert(more[0] == FileEffect::Send(engine));
        }
    }
    if next is Making {
        assert(more[0] is Load);
    }
}

/// The engine that is sent, if one is.
pub open spec fn sends<E>() -> spec_fn(FileEffect<E>) -> Option<E> {
    |effect: FileEffect<E>|
        match effect {
            FileEffect::Send(engine) => Some(engine),
            _ => None,
        }
}

/// The engine that was made, if one was.
pub open spec fn makes<E>() -> spec_fn(FileEvent<E>) -> Option<E> {
    |event: FileEvent<E>|
        match event {
            FileEvent::Made(made) => made,
            _ => None,
        }
}

proof fn lemma_sends_of_step<E>(
    base: E,
    path: Seq<char>,
    watch: bool,
    ignore: Option<FsPath>,
    phase: FilePhase,
    event: FileEvent<E>,
)
    requires
        possible_in(phase, event),
    ensures
        crate::trace::picked(file_step(base, path, watch, ignore, phase, event).1, sends()) == (
        match makes()(event) {
            Some(engine) => seq![engine],
            None => Seq::empty(),
        }),
{
    reveal_with_fuel(crate::trace::picked, 3);
    let more = file_step(base, path, watch, ignore, phase, event).1;
    if more.len() > 1 {
        assert(more.drop_last().last() == more[0]);
    }
    assert(crate::trace::picked(more, sends()) =~= (match makes()(event) {
        Some(engine) => seq![engine],
        None => Seq::empty(),
    }));
}

/// The engines that a source sends are those that were made for it, in order and
/// each once.
pub proof fn law_source_sends_what_is_made<E>(
    base: E,
    path: Seq<char>,
    watch: bool,
    ignore: Option<FsPath>,
    events: Seq<FileEvent<E>>,
)
    requires
        can_happen(base, path, watch, ignore, events),
    ensures
        crate::trace::picked(history(base, path, watch, ignore, events).1, sends())
            == crate::trace::picked(events, makes()),
    decreases events.len(),
{
    let sent = crate::trace::picked(history(base, path, watch, ignore, events).1, sends());
    if events.len() == 0 {
        reveal_with_fuel(crate::trace::picked, 2);
        assert(sent =~= crate::trace::picked(events, makes()));
    } else {
        let earlier = events.drop_last();
        law_source_sends_what_is_made(base, path, watch, ignore, earlier);
        let (phase, done) = history(base, path, watch, ignore, earlier);
        let more = file_step(base, path, watch, ignore, phase, events.last()).1;
        crate::trace::lemma_picked_add(done, more, sends());
        lemma_sends_of_step(base, path, watch, ignore, phase, events.last());
        assert(sent =~= crate::trace::picked(events, makes()));
    }
}

/// A step of loading a script.
pub open spec fn loads<E>() -> spec_fn(FileEffect<E>) -> bool {
    |effect: FileEffect<E>| effect is Load
}

/// Without a watch, a script is loaded at most once, and nothing is waited for.
pub proof fn law_unwatched_script_loads_once<E>(
    base: E,
    path: Seq<char>,
    ignore: Option<FsPath>,
    events: Seq<FileEvent<E>>,
)
    requires
        can_happen(base, path, false, ignore, events),
    ensures
        ({
            let (phase, done) = history(base, path, false, ignore, events);
            &&& crate::trace::count(done, loads()) <= 1
            &&& phase is Reading || phase is Resolving ==> crate::trace::count(done, loads()) == 0
            &&& !(phase is Waiting)
            &&& !(phase is Rereading)
            &&& phase matches FilePhase::Making(_, first) ==> first
            &&& phase matches FilePhase::Sending(_, first) ==> first
        }),
    decreases events.len(),
{
    reveal_with_fuel(crate::trace::count, 2);
    if events.len() == 0 {
        assert(crate::trace::count(seq![FileEffect::<E>::ReadScript(path)], loads()) == 0);
    } else {
        law_unwatched_script_loads_once(base, path, ignore, events.drop_last());
        let (phase, done) = history(base, path, false, ignore, events.drop_last());
        let more = file_step(base, path, false, ignore, phase, events.last()).1;
        crate::trace::lemma_count_add(done, more, loads());
    }
}

/// The first script is dealt with by this event, in a source that works at `at`:
/// its engine was sent, or none could be made of it.
pub open spec fn deals_with_first<E>(phase: FilePhase, event: FileEvent<E>, at: ResolvedPath) -> bool {
    ||| phase == FilePhase::Making(at, true) && event == FileEvent::<E>::Made(None)
    ||| phase == FilePhase::Sending(at, true) && event == FileEvent::<E>::Sent(true)
}

/// A script of a running watch is dealt with by this event: its engine was sent,
/// none could be made of it, or it could not be read.
pub open spec fn deals_with_later<E>(phase: FilePhase, event: FileEvent<E>, at: ResolvedPath) -> bool {
    ||| phase == FilePhase::Making(at, false) && event == FileEvent::<E>::Made(None)
    ||| phase == FilePhase::Sending(at, false) && event == FileEvent::<E>::Sent(true)
    ||| phase == FilePhase::Rereading(at) && event matches FileEvent::Read(Err(_))
}

/// The watch is started once the first script is dealt with, whether or not an
/// engine came of it, and at no other time: on the resolved path, at the depth of
/// its parent directory. Without `watch` it never is.
pub proof fn law_watch_starts_behind_first_script<E>(
    base: E,
    path: Seq<char>,
    watch: bool,
    ignore: Option<FsPath>,
    phase: FilePhase,
    event: FileEvent<E>,
    at: ResolvedPath,
    depth: int,
)
    requires
        possible_in(phase, event),
    ensures
        ({
            let (next, more) = file_step(base, path, watch, ignore, phase, event);
            let last = at.parts.parts@.last().kind;
            let rooted = at.parts.parts@.len() == 0 || last is RootDir || last is Prefix;
            &&& crate::trace::times(more, FileEffect::StartWatch(at, depth))
                == crate::trace::once_if(
                watch && deals_with_first(phase, event, at) && depth == (if rooted {
                    at.parts.parts@.len() as int
                } else {
                    at.parts.parts@.len() - 1
                }),
            )
            &&& watch && deals_with_first(phase, event, at) ==> next == FilePhase::Waiting(
                at,
                false,
            )
            &&& !watch && deals_with_first(phase, event, at) ==> next is Finished
        }),
{
    let more = file_step(base, path, watch, ignore, phase, event).1;
    crate::trace::lemma_count_few(
        more,
        crate::trace::equal_to(FileEffect::StartWatch(at, depth)),
    );
    if at.parts.parts@.len() > 0 {
        assert(at.parts@.last() == at.parts.parts@.last()@);
    }
}

/// A source ends only where its first script cannot be read or resolved, where
/// the first script is dealt with and nothing is watched, where the watch is
/// closed, or where the server no longer takes engines. Whatever else happens, it
/// goes on.
pub proof fn law_source_ends_only_for_a_reason<E>(
    base: E,
    path: Seq<char>,
    watch: bool,
    ignore: Option<FsPath>,
    phase: FilePhase,
    event: FileEvent<E>,
)
    requires
        possible_in(phase, event),
    ensures
        file_step(base, path, watch, ignore, phase, event).0 is Finished <==> {
            ||| phase is Reading && event matches FileEvent::Read(Err(_))
            ||| event matches FileEvent::Resolved(Err(_))
            ||| !watch && exists|at: ResolvedPath| deals_with_first(phase, event, at)
            ||| event == FileEvent::<E>::Message(WatchMessage::Closed)
            ||| event == FileEvent::<E>::Sent(false)
        },
{
    match phase {
        FilePhase::Making(at, first) => {
            assert(first && event == FileEvent::<E>::Made(None) ==> deals_with_first(
                phase,
                event,
                at,
            ));
        },
        FilePhase::Sending(at, first) => {
            assert(first && event == FileEvent::<E>::Sent(true) ==> deals_with_first(
                phase,
                event,
                at,
            ));
        },
        _ => {},
    }
}

/// A source waits again behind every script that its watch had to deal with, with
/// no change noted, and behind every message of the watch that neither closes it
/// nor makes it read. A change that matters is noted, and stays so until it is
/// quiet. The wait is asked for last, for a tenth of a second where a change is noted, and else
/// for a day.
pub proof fn law_source_waits_for_changes<E>(
    base: E,
    path: Seq<char>,
    watch: bool,
    ignore: Option<FsPath>,
    phase: FilePhase,
    event: FileEvent<E>,
    at: ResolvedPath,
    ms: u64,
)
    requires
        possible_in(phase, event),
    ensures
        ({
            let (next, more) = file_step(base, path, watch, ignore, phase, event);
            &&& deals_with_later(phase, event, at) ==> next == FilePhase::Waiting(at, false)
            &&& match (phase, event) {
                (FilePhase::Waiting(here, noted), FileEvent::Message(message)) => match message {
                    WatchMessage::Change(change) => next == FilePhase::Waiting(
                        here,
                        noted || ((change.kind is Create || change.kind is Modify
                            || change.kind is Remove) && touches_outside(change, ignore)),
                    ),
                    WatchMessage::Fault(_) => next == phase,
                    WatchMessage::Quiet => next == (if noted {
                        FilePhase::Rereading(here)
                    } else {
                        phase
                    }),
                    WatchMessage::Closed => next is Finished,
                },
                _ => true,
            }
            &&& crate::trace::times(more, FileEffect::Wait(ms)) == crate::trace::once_if(
                next matches FilePhase::Waiting(_, noted) && ms == (if noted {
                    100u64
                } else {
                    86_400_000u64
                }),
            )
            &&& next is Waiting ==> more.len() > 0 && more.last() is Wait
        }),
{
    let more = file_step(base, path, watch, ignore, phase, event).1;
    crate::trace::lemma_count_few(more, crate::trace::equal_to(FileEffect::Wait(ms)));
    if let FileEvent::Message(WatchMessage::Change(change)) = event {
        law_change_matters_iff_it_touches_what_is_not_ignored(change, ignore);
    }
}

/// `base` is a directory above `path`, or `path` itself: it has the same
/// components, as far as it goes.
pub open spec fn lies_under(path: FsPath, base: FsPath) -> bool {
    &&& base.parts@.len() <= path.parts@.len()
    &&& forall|i: int|
        0 <= i < base.parts@.len() ==> (#[trigger] base.parts@[i]).kind == path.parts@[i].kind
            && base.parts@[i].bytes@ == path.parts@[i].bytes@
}

/// A change is not confined to the ignored directory: there is none, the change
/// names no path, or it names one that lies elsewhere.
pub open spec fn touches_outside(change: ChangeEvent, ignore: Option<FsPath>) -> bool {
    match ignore {
        None => true,
        Some(dir) => change.paths@.len() == 0 || exists|i: int|
            0 <= i < change.paths@.len() && !lies_under(#[trigger] change.paths@[i], dir),
    }
}

proof fn lemma_prefix_is_under(path: FsPath, base: FsPath)
    ensures
        base@.is_prefix_of(path@) <==> lies_under(path, base),
{
    if base@.is_prefix_of(path@) {
        assert forall|i: int| 0 <= i < base.parts@.len() implies (
        #[trigger] base.parts@[i]).kind == path.parts@[i].kind && base.parts@[i].bytes@
            == path.parts@[i].bytes@ by {
            assert(base@[i] == path@.subrange(0, base@.len() as int)[i]);
            assert(base@[i] == base.parts@[i]@);
            assert(path@[i] == path.parts@[i]@);
        }
    }
    if lies_under(path, base) {
        assert forall|i: int| 0 <= i < base@.len() implies base@[i] == path@[i] by {
            assert(base.parts@[i].kind == path.parts@[i].kind);
            assert(base@[i] == base.parts@[i]@);
            assert(path@[i] == path.parts@[i]@);
        }
        assert(base@ =~= path@.subrange(0, base@.len() as int));
    }
}

/// A change calls for a reload exactly if files were made, altered or removed, and
/// not only such as lie in the ignored directory.
pub proof fn law_change_matters_iff_it_touches_what_is_not_ignored(
    change: ChangeEvent,
    ignore: Option<FsPath>,
)
    ensures
        calls_for_reload(change, ignore) <==> (change.kind is Create || change.kind is Modify
            || change.kind is Remove) && touches_outside(change, ignore),
        alters_files(change.kind) <==> change.kind is Create || change.kind is Modify
            || change.kind is Remove,
{
    if let Some(dir) = ignore {
        assert forall|i: int| 0 <= i < change.paths@.len() implies dir@.is_prefix_of(
            #[trigger] change.paths@[i]@,
        ) == lies_under(change.paths@[i], dir) by {
            lemma_prefix_is_under(change.paths@[i], dir);
        }
        if exists|i: int| 0 <= i < change.paths@.len() && !lies_under(#[trigger] change.paths@[i], dir) {
            let i = choose|i: int|
                0 <= i < change.paths@.len() && !lies_under(#[trigger] change.paths@[i], dir);
            assert(!dir@.is_prefix_of(change.paths@[i]@));
        } else {
            assert forall|i: int| 0 <= i < change.paths@.len() implies dir@.is_prefix_of(
                #[trigger] change.paths@[i]@,
            ) by {
                assert(lies_under(change.paths@[i], dir));
            }
        }
    }
}

/// An engine is asked for exactly when the path of the first script was resolved
/// or the script was read again: from the base engine, of the text that was read,
/// at the resolved path. It is the first exactly if the script was not read again.
pub proof fn law_every_script_is_loaded<E>(
    base: E,
    path: Seq<char>,
    watch: bool,
    ignore: Option<FsPath>,
    phase: FilePhase,
    event: FileEvent<E>,
    from: E,
    script: Seq<char>,
    at: ResolvedPath,
)
    requires
        possible_in(phase, event),
    ensures
        ({
            let (next, more) = file_step(base, path, watch, ignore, phase, event);
            let first = event == FileEvent::<E>::Resolved(Ok(at)) && (
            phase matches FilePhase::Resolving(text) && text@ == script);
            let later = phase == FilePhase::Rereading(at) && (event matches FileEvent::Read(
                Ok(text),
            ) && text@ == script);
            &&& crate::trace::times(more, FileEffect::Load(from, script, at))
                == crate::trace::once_if(from == base && (first || later))
            &&& first ==> next == FilePhase::Making(at, true)
            &&& later ==> next == FilePhase::Making(at, false)
        }),
{
    let more = file_step(base, path, watch, ignore, phase, event).1;
    crate::trace::lemma_count_few(
        more,
        crate::trace::equal_to(FileEffect::Load(from, script, at)),
    );
}

/// An engine that was made is sent, once, and the source waits for what becomes of
/// it, without losing its path or whether it is the first.
pub proof fn law_every_engine_is_sent<E>(
    base: E,
    path: Seq<char>,
    watch: bool,
    ignore: Option<FsPath>,
    phase: FilePhase,
    event: FileEvent<E>,
    engine: E,
)
    requires
        possible_in(phase, event),
    ensures
        ({
            let (next, more) = file_step(base, path, watch, ignore, phase, event);
            &&& crate::trace::times(more, FileEffect::Send(engine)) == crate::trace::once_if(
                event == FileEvent::Made(Some(engine)),
            )
            &&& event == FileEvent::Made(Some(engine)) ==> (
            phase matches FilePhase::Making(at, first) && next == FilePhase::Sending(at, first))
        }),
{
    let more = file_step(base, path, watch, ignore, phase, event).1;
    crate::trace::lemma_count_few(more, crate::trace::equal_to(FileEffect::Send(engine)));
}

/// The path is resolved exactly when the script was read for the first time, and
/// it is the path that was given; the text is kept for later. The script is read
/// again, at the resolved path, exactly when it is quiet after a change was noted.
/// It is never read from the given path again.
pub proof fn law_paths_are_used_in_turn<E>(
    base: E,
    path: Seq<char>,
    watch: bool,
    ignore: Option<FsPath>,
    phase: FilePhase,
    event: FileEvent<E>,
    given: Seq<char>,
    at: ResolvedPath,
)
    requires
        possible_in(phase, event),
    ensures
        ({
            let (next, more) = file_step(base, path, watch, ignore, phase, event);
            &&& crate::trace::times(more, FileEffect::ResolvePath(given)) == crate::trace::once_if(
                given == path && phase is Reading && event matches FileEvent::Read(Ok(_)),
            )
            &&& phase is Reading ==> (event matches FileEvent::Read(Ok(text)) ==> next
                == FilePhase::Resolving(text))
            &&& crate::trace::times(more, FileEffect::ReadAgain(at)) == crate::trace::once_if(
                phase == FilePhase::Waiting(at, true) && event == FileEvent::<E>::Message(
                    WatchMessage::Quiet,
                ),
            )
            &&& crate::trace::times(more, FileEffect::ReadScript(given)) == 0
        }),
{
    let more = file_step(base, path, watch, ignore, phase, event).1;
    crate::trace::lemma_count_few(more, crate::trace::equal_to(FileEffect::ResolvePath(given)));
    crate::trace::lemma_count_few(more, crate::trace::equal_to(FileEffect::ReadAgain(at)));
    crate::trace::lemma_count_few(more, crate::trace::equal_to(FileEffect::ReadScript(given)));
}

/// A fault is told to the user with its error, and where the program ends on it
/// also with the path. A first script that cannot be read or resolved ends the
/// program; a fault of the watch, or a script that cannot be read again, is only
/// reported. Nothing else is told.
pub proof fn law_faults_are_told<E>(
    base: E,
    path: Seq<char>,
    watch: bool,
    ignore: Option<FsPath>,
    phase: FilePhase,
    event: FileEvent<E>,
    line: Seq<char>,
)
    requires
        possible_in(phase, event),
    ensures
        ({
            let more = file_step(base, path, watch, ignore, phase, event).1;
            &&& crate::trace::times(more, FileEffect::Exit(line)) == crate::trace::once_if(
                match event {
                    FileEvent::Read(Err(error)) => phase is Reading && line == "Error reading "@
                        + path + ": "@ + error@,
                    FileEvent::Resolved(Err(error)) => line == "Error resolving "@ + path + ": "@
                        + error@,
                    _ => false,
                },
            )
            &&& crate::trace::times(more, FileEffect::Report(line)) == crate::trace::once_if(
                match event {
                    FileEvent::Read(Err(error)) => phase is Rereading && line
                        == "Error reading script file: "@ + error@,
                    FileEvent::Message(WatchMessage::Fault(error)) => line == "Watch error: "@
                        + error@,
                    _ => false,
                },
            )
        }),
{
    let more = file_step(base, path, watch, ignore, phase, event).1;
    crate::trace::lemma_count_few(more, crate::trace::equal_to(FileEffect::Exit(line)));
    crate::trace::lemma_count_few(more, crate::trace::equal_to(FileEffect::Report(line)));
}

/// A step of starting a watch.
pub open spec fn starts_watch<E>() -> spec_fn(FileEffect<E>) -> bool {
    |effect: FileEffect<E>| effect is StartWatch
}

/// Over its whole life a watched source starts its watch once, behind the first
/// script that it was dealt with, and an unwatched one never does.
pub proof fn law_watch_is_started_once<E>(
    base: E,
    path: Seq<char>,
    watch: bool,
    ignore: Option<FsPath>,
    events: Seq<FileEvent<E>>,
)
    requires
        can_happen(base, path, watch, ignore, events),
    ensures
        ({
            let (phase, done) = history(base, path, watch, ignore, events);
            let started = crate::trace::count(done, starts_watch());
            match phase {
                FilePhase::Waiting(_, _) | FilePhase::Rereading(_) => watch && started == 1,
                FilePhase::Making(_, first) | FilePhase::Sending(_, first) => started
                    == crate::trace::once_if(!first) && (!first ==> watch),
                FilePhase::Finished => started <= 1 && (!watch ==> started == 0),
                _ => started == 0,
            }
        }),
    decreases events.len(),
{
    if events.len() == 0 {
        crate::trace::lemma_count_few(
            seq![FileEffect::<E>::ReadScript(path)],
            starts_watch(),
        );
    } else {
        law_watch_is_started_once(base, path, watch, ignore, events.drop_last());
        let (phase, done) = history(base, path, watch, ignore, events.drop_last());
        let more = file_step(base, path, watch, ignore, phase, events.last()).1;
        crate::trace::lemma_count_add(done, more, starts_watch());
        crate::trace::lemma_count_few(more, starts_watch());
    }
}

/// What can come is the outcome of what was asked for: a script that was read, a
/// path that was resolved, an engine that was made or not, one that was sent, and
/// any message for a watch that waits. That an engine was not taken can come of
/// every one but the first.
pub proof fn law_what_can_come<E>(
    phase: FilePhase,
    read: Result<String, String>,
    resolved: Result<ResolvedPath, String>,
    made: Option<E>,
    taken: bool,
    message: WatchMessage,
)
    ensures
        possible_in(phase, FileEvent::<E>::Read(read)) <==> phase is Reading || phase is Rereading,
        possible_in(phase, FileEvent::<E>::Resolved(resolved)) <==> phase is Resolving,
        possible_in(phase, FileEvent::Made(made)) <==> phase is Making,
        possible_in(phase, FileEvent::<E>::Sent(taken)) <==> phase is Sending && (taken
            || !phase->Sending_1),
        possible_in(phase, FileEvent::<E>::Message(message)) <==> phase is Waiting,
{
}

/// What is asked for is seen as it is: nothing is added, left out or changed.
pub proof fn law_actions_are_seen_as_they_are<E>(actions: Seq<FileAction<E>>, at: int)
    requires
        0 <= at < actions.len(),
    ensures
        effects(actions).len() == actions.len(),
        match (actions[at], effects(actions)[at]) {
            (FileAction::ReadScript(a), FileEffect::ReadScript(b)) => a@ == b,
            (FileAction::ResolvePath(a), FileEffect::ResolvePath(b)) => a@ == b,
            (FileAction::Load(a, script, path), FileEffect::Load(b, text, resolved)) => *a == b
                && script@ == text && *path == resolved,
            (FileAction::Send(a), FileEffect::Send(b)) => a == b,
            (FileAction::StartWatch(a, depth), FileEffect::StartWatch(b, d)) => *a == b && depth
                == d,
            (FileAction::Wait(a), FileEffect::Wait(b)) => a == b,
            (FileAction::ReadAgain(a), FileEffect::ReadAgain(b)) => *a == b,
            (FileAction::Report(a), FileEffect::Report(b)) => a@ == b,
            (FileAction::Exit(a), FileEffect::Exit(b)) => a@ == b,
            _ => false,
        },
{
}

} // verus!

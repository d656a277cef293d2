//! Scripts on standard input.
//!
//! Without `--watch` the whole input is one script. With it, the input is a
//! stream of scripts, each ended by a NUL byte; an empty script, or the end of
//! the input, ends the stream.

use crate::encoding::from_utf8_lossy;
use vstd::prelude::*;
use vstd::utf8::*;

verus! {

/// What reading one byte gave.
#[derive(Debug)]
pub enum StdinRead {
    /// The input is at its end.
    Eof,
    /// The next byte.
    Byte(u8),
    /// The read failed, with this error text.
    Failed(String),
}

/// What the reader wants next.
#[derive(Debug)]
pub enum ReaderStep {
    /// Read another byte.
    ReadMore,
    /// Load this script, then read on.
    Script(Vec<u8>),
    /// The stream is over.
    Finished,
    /// Report this line and give up.
    Aborted(String),
}

/// A [`ReaderStep`] as a value.
pub enum ReaderEffect {
    ReadMore,
    Script(Seq<u8>),
    Finished,
    Aborted(Seq<char>),
}

impl View for ReaderStep {
    type V = ReaderEffect;

    open spec fn view(&self) -> ReaderEffect {
        match self {
            ReaderStep::ReadMore => ReaderEffect::ReadMore,
            ReaderStep::Script(bytes) => ReaderEffect::Script(bytes@),
            ReaderStep::Finished => ReaderEffect::Finished,
            ReaderStep::Aborted(line) => ReaderEffect::Aborted(line@),
        }
    }
}

/// One read: the bytes that are pending afterwards, and what happens.
pub open spec fn reader_step(pending: Seq<u8>, read: StdinRead) -> (Seq<u8>, ReaderEffect) {
    match read {
        StdinRead::Failed(error) => (
            pending,
            ReaderEffect::Aborted("Error reading stdin: "@ + error@),
        ),
        StdinRead::Byte(byte) if byte != 0 => (pending.push(byte), ReaderEffect::ReadMore),
        _ => if pending.len() == 0 {
            (pending, ReaderEffect::Finished)
        } else {
            (Seq::empty(), ReaderEffect::Script(pending))
        },
    }
}

/// Cuts a byte stream into scripts. Its view is the part of the current script
/// that has been read.
pub struct ScriptReader {
    buffer: Vec<u8>,
}

impl View for ScriptReader {
    type V = Seq<u8>;

    closed spec fn view(&self) -> Seq<u8> {
        self.buffer@
    }
}

impl ScriptReader {
    /// A reader at the start of a stream.
    pub fn new() -> (reader: ScriptReader)
        ensures
            reader@ == Seq::<u8>::empty(),
    {
        ScriptReader { buffer: Vec::new() }
    }

    /// Takes the outcome of one read.
    pub fn feed(&mut self, read: StdinRead) -> (step: ReaderStep)
        ensures
            final(self)@ == reader_step(old(self)@, read).0,
            step@ == reader_step(old(self)@, read).1,
    {
        match read {
            StdinRead::Failed(error) => {
                let line: String = "Error reading stdin: ".to_owned();
                ReaderStep::Aborted(line.concat(error.as_str()))
            },
            StdinRead::Byte(byte) => {
                if byte != 0 {
                    self.buffer.push(byte);
                    ReaderStep::ReadMore
                } else {
                    self.end_of_script()
                }
            },
            StdinRead::Eof => self.end_of_script(),
        }
    }

    fn end_of_script(&mut self) -> (step: ReaderStep)
        ensures
            final(self)@ == Seq::<u8>::empty(),
            step@ == (if old(self)@.len() == 0 {
                ReaderEffect::Finished
            } else {
                ReaderEffect::Script(old(self)@)
            }),
    {
        if self.buffer.len() == 0 {
            assert(self.buffer@ =~= Seq::<u8>::empty());
            ReaderStep::Finished
        } else {
            let mut script: Vec<u8> = Vec::new();
            script.append(&mut self.buffer);
            assert(script@ =~= old(self).buffer@);
            ReaderStep::Script(script)
        }
    }
}

/// The text of a script that came as bytes: what is well-formed UTF-8 is kept,
/// the rest is replaced.
pub fn script_text(script: &Vec<u8>) -> (text: String)
    ensures
        text@ == crate::encoding::lossy_text(script@),
        valid_utf8(script@) ==> text@ == decode_utf8(script@),
{
    from_utf8_lossy(script)
}

/// Where standard input stands as a source.
#[derive(Clone, Copy, Debug, PartialEq, Eq, Structural)]
pub enum StdinPhase {
    /// All of the input is being read.
    ReadingAll,
    /// A script of the stream is being read.
    ReadingScript,
    /// An engine is being made of a script; whether it is the only one.
    Making { only: bool },
    /// That engine is being sent.
    Sending { only: bool },
    /// There is nothing left to do.
    Finished,
}

/// What came of the last thing the source asked for, `E` being an engine.
#[derive(Debug)]
pub enum StdinEvent<E> {
    /// This is all of the input.
    All(String),
    /// One byte was asked for.
    Read(StdinRead),
    /// This engine was made, or none because the script is no good.
    Made(Option<E>),
    /// The engine was sent, or else the server no longer takes engines.
    Sent(bool),
}

/// What the source asks for.
#[derive(Debug)]
pub enum StdinAction<'a, E> {
    /// Read all of the input.
    ReadAll,
    /// Read one byte.
    ReadByte,
    /// Make an engine of a script, from a base engine.
    Load(&'a E, String),
    /// Send this engine.
    Send(E),
    /// Report this line. Nothing comes after it.
    Report(String),
}

/// A [`StdinAction`] as a value.
pub enum StdinEffect<E> {
    ReadAll,
    ReadByte,
    Load(E, Seq<char>),
    Send(E),
    Report(Seq<char>),
}

impl<'a, E> View for StdinAction<'a, E> {
    type V = StdinEffect<E>;

    open spec fn view(&self) -> StdinEffect<E> {
        match self {
            StdinAction::ReadAll => StdinEffect::ReadAll,
            StdinAction::ReadByte => StdinEffect::ReadByte,
            StdinAction::Load(base, script) => StdinEffect::Load(**base, script@),
            StdinAction::Send(engine) => StdinEffect::Send(*engine),
            StdinAction::Report(line) => StdinEffect::Report(line@),
        }
    }
}

/// The effect of an action, if there is one.
pub open spec fn effect<E>(action: Option<StdinAction<E>>) -> Option<StdinEffect<E>> {
    match action {
        Some(action) => Some(action@),
        None => None,
    }
}

/// Whether `event` can come in `phase`. The server cannot be gone before it has
/// got its only engine.
pub open spec fn possible_in<E>(phase: StdinPhase, event: StdinEvent<E>) -> bool {
    match event {
        StdinEvent::All(_) => phase == StdinPhase::ReadingAll,
        StdinEvent::Read(_) => phase == StdinPhase::ReadingScript,
        StdinEvent::Made(_) => phase is Making,
        StdinEvent::Sent(taken) => phase matches StdinPhase::Sending { only } && (taken || !only),
    }
}

/// What follows once a script is dealt with: the next one of the stream, or
/// nothing where it was the only one.
pub open spec fn settled<E>(only: bool) -> (StdinPhase, Option<StdinEffect<E>>) {
    if only {
        (StdinPhase::Finished, None)
    } else {
        (StdinPhase::ReadingScript, Some(StdinEffect::ReadByte))
    }
}

/// One event, with the bytes of a script that are pending: the phase and the
/// pending bytes afterwards, and what is asked for. What cannot come
/// in the phase would end the source.
pub open spec fn stdin_step<E>(
    base: E,
    phase: StdinPhase,
    pending: Seq<u8>,
    event: StdinEvent<E>,
) -> (StdinPhase, Seq<u8>, Option<StdinEffect<E>>) {
    match (phase, event) {
        (_, StdinEvent::All(script)) => (
            StdinPhase::Making { only: true },
            pending,
            Some(StdinEffect::Load(base, script@)),
        ),
        (_, StdinEvent::Read(read)) => {
            let (next, effect) = reader_step(pending, read);
            match effect {
                ReaderEffect::ReadMore => (
                    StdinPhase::ReadingScript,
                    next,
                    Some(StdinEffect::ReadByte),
                ),
                ReaderEffect::Script(script) => (
                    StdinPhase::Making { only: false },
                    next,
                    Some(StdinEffect::Load(base, crate::encoding::lossy_text(script))),
                ),
                ReaderEffect::Finished => (StdinPhase::Finished, next, None),
                ReaderEffect::Aborted(line) => (
                    StdinPhase::Finished,
                    next,
                    Some(StdinEffect::Report(line)),
                ),
            }
        },
        (StdinPhase::Making { only }, StdinEvent::Made(Some(engine))) => (
            StdinPhase::Sending { only },
            pending,
            Some(StdinEffect::Send(engine)),
        ),
        (StdinPhase::Making { only }, StdinEvent::Made(None)) => (
            settled::<E>(only).0,
            pending,
            settled::<E>(only).1,
        ),
        (StdinPhase::Sending { only }, StdinEvent::Sent(taken)) => if taken {
            (settled::<E>(only).0, pending, settled::<E>(only).1)
        } else {
            (StdinPhase::Finished, pending, None)
        },
        _ => (StdinPhase::Finished, pending, None),
    }
}

/// Standard input as a source of engines.
pub struct StdinSource<E> {
    /// The engine from which all others are made.
    pub base: E,
    pub phase: StdinPhase,
    pub reader: ScriptReader,
}

/// The phase in which a source starts.
pub open spec fn first_phase(watch: bool) -> StdinPhase {
    if watch {
        StdinPhase::ReadingScript
    } else {
        StdinPhase::ReadingAll
    }
}

impl<E> StdinSource<E> {
    /// A source that has read nothing.
    pub fn new(base: E, watch: bool) -> (source: StdinSource<E>)
        ensures
            source.base == base,
            source.reader@ == Seq::<u8>::empty(),
            source.phase == first_phase(watch),
    {
        let phase: StdinPhase = if watch {
            StdinPhase::ReadingScript
        } else {
            StdinPhase::ReadingAll
        };
        StdinSource { base, phase, reader: ScriptReader::new() }
    }

    /// What a new source asks for first: a byte where the input is a stream of
    /// scripts, else everything.
    pub fn first(&self) -> (action: StdinAction<'_, E>)
        ensures
            action@ == (if self.phase == StdinPhase::ReadingAll {
                StdinEffect::<E>::ReadAll
            } else {
                StdinEffect::<E>::ReadByte
            }),
    {
        if self.phase == StdinPhase::ReadingAll {
            StdinAction::ReadAll
        } else {
            StdinAction::ReadByte
        }
    }

    /// Whether `event` can come now.
    pub fn expects(&self, event: &StdinEvent<E>) -> (expected: bool)
        ensures
            expected == possible_in(self.phase, *event),
    {
        match (event, self.phase) {
            (StdinEvent::All(_), StdinPhase::ReadingAll) => true,
            (StdinEvent::Read(_), StdinPhase::ReadingScript) => true,
            (StdinEvent::Made(_), StdinPhase::Making { .. }) => true,
            (StdinEvent::Sent(taken), StdinPhase::Sending { only }) => *taken || !only,
            _ => false,
        }
    }

    /// Takes one event, and gives what is to be done. With nothing to do, the
    /// source is finished. A script of the stream that is well-formed UTF-8 is
    /// loaded as the text that it encodes.
    pub fn on_event<'a>(&'a mut self, event: StdinEvent<E>) -> (action: Option<StdinAction<'a, E>>)
        requires
            possible_in(old(self).phase, event),
        ensures
            final(self).base == old(self).base,
            final(self).phase == stdin_step(
                old(self).base,
                old(self).phase,
                old(self).reader@,
                event,
            ).0,
            final(self).reader@ == stdin_step(
                old(self).base,
                old(self).phase,
                old(self).reader@,
                event,
            ).1,
            effect(action) == stdin_step(
                old(self).base,
                old(self).phase,
                old(self).reader@,
                event,
            ).2,
            match event {
                StdinEvent::Read(read) => match reader_step(old(self).reader@, read).1 {
                    ReaderEffect::Script(script) => valid_utf8(script) ==> effect(action) == Some(
                        StdinEffect::Load(old(self).base, decode_utf8(script)),
                    ),
                    _ => true,
                },
                _ => true,
            },
    {
        let phase: StdinPhase = self.phase;
        match (phase, event) {
            (_, StdinEvent::All(script)) => {
                self.phase = StdinPhase::Making { only: true };
                Some(StdinAction::Load(&self.base, script))
            },
            (_, StdinEvent::Read(read)) => match self.reader.feed(read) {
                ReaderStep::ReadMore => Some(StdinAction::ReadByte),
                ReaderStep::Script(script) => {
                    self.phase = StdinPhase::Making { only: false };
                    Some(StdinAction::Load(&self.base, script_text(&script)))
                },
                ReaderStep::Finished => {
                    self.phase = StdinPhase::Finished;
                    None
                },
                ReaderStep::Aborted(line) => {
                    self.phase = StdinPhase::Finished;
                    Some(StdinAction::Report(line))
                },
            },
            (StdinPhase::Making { only }, StdinEvent::Made(Some(engine))) => {
                self.phase = StdinPhase::Sending { only };
                Some(StdinAction::Send(engine))
            },
            (StdinPhase::Making { only: false }, StdinEvent::Made(None)) => {
                self.phase = StdinPhase::ReadingScript;
                Some(StdinAction::ReadByte)
            },
            (StdinPhase::Sending { only: false }, StdinEvent::Sent(true)) => {
                self.phase = StdinPhase::ReadingScript;
                Some(StdinAction::ReadByte)
            },
            (_, _) => {
                self.phase = StdinPhase::Finished;
                None
            },
        }
    }
}

/// The scripts that a reader hands out over a series of reads.
pub open spec fn handed_out(pending: Seq<u8>, reads: Seq<StdinRead>) -> Seq<Seq<u8>>
    decreases reads.len(),
{
    if reads.len() == 0 {
        Seq::empty()
    } else {
        let (next, effect) = reader_step(pending, reads[0]);
        match effect {
            ReaderEffect::ReadMore => handed_out(next, reads.drop_first()),
            ReaderEffect::Script(script) => seq![script] + handed_out(next, reads.drop_first()),
            _ => Seq::empty(),
        }
    }
}

/// The reads among `events`.
pub open spec fn reads_in<E>(events: Seq<StdinEvent<E>>) -> Seq<StdinRead>
    decreases events.len(),
{
    if events.len() == 0 {
        Seq::empty()
    } else {
        match events[0] {
            StdinEvent::Read(read) => seq![read] + reads_in(events.drop_first()),
            _ => reads_in(events.drop_first()),
        }
    }
}

/// Each of `events` can come when its turn is, from a phase on.
pub open spec fn can_follow<E>(
    base: E,
    phase: StdinPhase,
    pending: Seq<u8>,
    events: Seq<StdinEvent<E>>,
) -> bool
    decreases events.len(),
{
    events.len() == 0 || {
        let (next, left, _) = stdin_step(base, phase, pending, events[0]);
        possible_in(phase, events[0]) && can_follow(base, next, left, events.drop_first())
    }
}

/// What a source asks to be loaded over `events`, from a phase on: each time the
/// engine to start from, and the script.
pub open spec fn loaded<E>(
    base: E,
    phase: StdinPhase,
    pending: Seq<u8>,
    events: Seq<StdinEvent<E>>,
) -> Seq<(E, Seq<char>)>
    decreases events.len(),
{
    if events.len() == 0 {
        Seq::empty()
    } else {
        let (next, left, effect) = stdin_step(base, phase, pending, events[0]);
        let rest = loaded(base, next, left, events.drop_first());
        match effect {
            Some(StdinEffect::Load(from, script)) => seq![(from, script)] + rest,
            _ => rest,
        }
    }
}

proof fn lemma_source_loads<E>(
    base: E,
    phase: StdinPhase,
    pending: Seq<u8>,
    events: Seq<StdinEvent<E>>,
)
    requires
        phase != StdinPhase::ReadingAll,
        phase matches StdinPhase::Making { only } ==> !only,
        phase matches StdinPhase::Sending { only } ==> !only,
        can_follow(base, phase, pending, events),
    ensures
        loaded(base, phase, pending, events) == handed_out(pending, reads_in(events)).map_values(
            |script: Seq<u8>| (base, crate::encoding::lossy_text(script)),
        ),
    decreases events.len(),
{
    let load = |script: Seq<u8>| (base, crate::encoding::lossy_text(script));
    if events.len() == 0 {
        assert(handed_out(pending, reads_in(events)).map_values(load) =~= Seq::<
            (E, Seq<char>),
        >::empty());
    } else {
        let rest = events.drop_first();
        let (next, left, _) = stdin_step(base, phase, pending, events[0]);
        lemma_source_loads(base, next, left, rest);
        if let StdinEvent::Read(read) = events[0] {
            let reads = reads_in(events);
            assert(reads[0] == read);
            assert(reads.drop_first() =~= reads_in(rest));
            match reader_step(pending, read).1 {
                ReaderEffect::ReadMore => {},
                ReaderEffect::Script(script) => {
                    assert((seq![script] + handed_out(left, reads_in(rest))).map_values(load)
                        =~= seq![load(script)] + handed_out(left, reads_in(rest)).map_values(load));
                },
                _ => {
                    assert(next == StdinPhase::Finished);
                    assert(can_follow(base, next, left, rest));
                    assert(rest.len() == 0);
                    assert(handed_out(pending, reads).map_values(load) =~= Seq::<
                        (E, Seq<char>),
                    >::empty());
                },
            }
        }
    }
}

/// A source that takes a stream of scripts loads exactly those that its reader
/// hands out, in order, decoded, each from the base engine.
pub proof fn law_source_loads_what_reader_hands_out<E>(base: E, events: Seq<StdinEvent<E>>)
    requires
        can_follow(base, StdinPhase::ReadingScript, Seq::empty(), events),
    ensures
        loaded(base, StdinPhase::ReadingScript, Seq::empty(), events) == handed_out(
            Seq::empty(),
            reads_in(events),
        ).map_values(|script: Seq<u8>| (base, crate::encoding::lossy_text(script))),
{
    lemma_source_loads(base, StdinPhase::ReadingScript, Seq::empty(), events);
}

/// What came of the scripts that were loaded over `events`, in order: an engine
/// each, or none where a script is no good.
pub open spec fn outcomes_in<E>(events: Seq<StdinEvent<E>>) -> Seq<Option<E>>
    decreases events.len(),
{
    if events.len() == 0 {
        Seq::empty()
    } else {
        match events[0] {
            StdinEvent::Made(made) => seq![made] + outcomes_in(events.drop_first()),
            _ => outcomes_in(events.drop_first()),
        }
    }
}

/// The engines among `outcomes`, in order.
pub open spec fn engines_in<E>(outcomes: Seq<Option<E>>) -> Seq<E>
    decreases outcomes.len(),
{
    if outcomes.len() == 0 {
        Seq::empty()
    } else {
        match outcomes[0] {
            Some(engine) => seq![engine] + engines_in(outcomes.drop_first()),
            None => engines_in(outcomes.drop_first()),
        }
    }
}

/// The engines that a source sends over `events`, from a phase on.
pub open spec fn sent<E>(
    base: E,
    phase: StdinPhase,
    pending: Seq<u8>,
    events: Seq<StdinEvent<E>>,
) -> Seq<E>
    decreases events.len(),
{
    if events.len() == 0 {
        Seq::empty()
    } else {
        let (next, left, effect) = stdin_step(base, phase, pending, events[0]);
        let rest = sent(base, next, left, events.drop_first());
        match effect {
            Some(StdinEffect::Send(engine)) => seq![engine] + rest,
            _ => rest,
        }
    }
}

/// The phase of a source after `events`.
pub open spec fn phase_after<E>(
    base: E,
    phase: StdinPhase,
    pending: Seq<u8>,
    events: Seq<StdinEvent<E>>,
) -> StdinPhase
    decreases events.len(),
{
    if events.len() == 0 {
        phase
    } else {
        let (next, left, _) = stdin_step(base, phase, pending, events[0]);
        phase_after(base, next, left, events.drop_first())
    }
}

proof fn lemma_source_sends<E>(
    base: E,
    phase: StdinPhase,
    pending: Seq<u8>,
    events: Seq<StdinEvent<E>>,
)
    requires
        can_follow(base, phase, pending, events),
    ensures
        sent(base, phase, pending, events) == engines_in(outcomes_in(events)),
        loaded(base, phase, pending, events).len() + (if phase is Making {
            1int
        } else {
            0int
        }) == outcomes_in(events).len() + (if phase_after(base, phase, pending, events) is Making {
            1int
        } else {
            0int
        }),
    decreases events.len(),
{
    if events.len() > 0 {
        let rest = events.drop_first();
        let (next, left, _) = stdin_step(base, phase, pending, events[0]);
        lemma_source_sends(base, next, left, rest);
        if let StdinEvent::Made(made) = events[0] {
            let outcomes = outcomes_in(events);
            assert(outcomes[0] == made);
            assert(outcomes.drop_first() =~= outcomes_in(rest));
        }
    }
}

/// The engines that a source sends are those that were made of its scripts, in
/// order and each once. There is one outcome for each script that was loaded, but
/// for the one of which an engine is still being made.
pub proof fn law_source_sends_what_is_made_of_its_scripts<E>(
    base: E,
    watch: bool,
    events: Seq<StdinEvent<E>>,
)
    requires
        can_follow(base, first_phase(watch), Seq::empty(), events),
    ensures
        sent(base, first_phase(watch), Seq::empty(), events) == engines_in(outcomes_in(events)),
        loaded(base, first_phase(watch), Seq::empty(), events).len() == outcomes_in(events).len()
            + (if phase_after(base, first_phase(watch), Seq::empty(), events) is Making {
            1int
        } else {
            0int
        }),
{
    lemma_source_sends(base, first_phase(watch), Seq::empty(), events);
}

/// An engine is sent exactly if one was made, and it is that engine.
pub proof fn law_sends_what_was_made<E>(
    base: E,
    phase: StdinPhase,
    pending: Seq<u8>,
    event: StdinEvent<E>,
    engine: E,
)
    requires
        possible_in(phase, event),
    ensures
        stdin_step(base, phase, pending, event).2 == Some(StdinEffect::Send(engine)) <==> event
            == StdinEvent::Made(Some(engine)),
{
}

/// The reads of an input that holds `input` and then ends.
pub open spec fn reads_of(input: Seq<u8>) -> Seq<StdinRead> {
    input.map_values(|byte: u8| StdinRead::Byte(byte)) + seq![StdinRead::Eof, StdinRead::Eof]
}

/// The number of bytes in front of the first NUL.
pub open spec fn script_len(input: Seq<u8>) -> nat
    decreases input.len(),
{
    if input.len() == 0 || input[0] == 0 {
        0
    } else {
        1 + script_len(input.skip(1))
    }
}

/// The scripts in `input`: the parts between NUL bytes, up to the first that is
/// empty.
pub open spec fn scripts_in(input: Seq<u8>) -> Seq<Seq<u8>>
    decreases input.len(),
{
    let n = script_len(input);
    if n == 0 {
        Seq::empty()
    } else if n >= input.len() {
        seq![input]
    } else {
        seq![input.take(n as int)] + scripts_in(input.skip(n as int + 1))
    }
}

/// The bytes that carry `scripts`: each followed by a NUL.
pub open spec fn wire(scripts: Seq<Seq<u8>>) -> Seq<u8>
    decreases scripts.len(),
{
    if scripts.len() == 0 {
        Seq::empty()
    } else {
        scripts[0].push(0u8) + wire(scripts.drop_first())
    }
}

proof fn lemma_script_len_skips(script: Seq<u8>, rest: Seq<u8>)
    requires
        !script.contains(0u8),
    ensures
        script_len(script + rest) == script.len() + script_len(rest),
    decreases script.len(),
{
    if script.len() == 0 {
        assert(script + rest =~= rest);
    } else {
        let tail = script.skip(1);
        assert(script.contains(script[0]));
        assert((script + rest).skip(1) =~= tail + rest);
        assert forall|i: int| 0 <= i < tail.len() implies tail[i] != 0u8 by {
            assert(script.contains(script[i + 1]));
        }
        lemma_script_len_skips(tail, rest);
    }
}

/// A NUL-free, non-empty script that a NUL ends comes first, and what is behind
/// the NUL is cut on its own.
proof fn lemma_scripts_in_step(script: Seq<u8>, rest: Seq<u8>)
    requires
        !script.contains(0u8),
        script.len() > 0,
    ensures
        scripts_in(script.push(0u8) + rest) == seq![script] + scripts_in(rest),
{
    let input = script.push(0u8) + rest;
    let behind = seq![0u8] + rest;
    assert(input =~= script + behind);
    lemma_script_len_skips(script, behind);
    assert(behind[0] == 0u8);
    assert(input.take(script.len() as int) =~= script);
    assert(input.skip(script.len() as int + 1) =~= rest);
}

proof fn lemma_handed_out(pending: Seq<u8>, input: Seq<u8>)
    requires
        !pending.contains(0u8),
    ensures
        handed_out(pending, reads_of(input)) == scripts_in(pending + input),
    decreases input.len(),
{
    let reads = reads_of(input);
    let none = Seq::<u8>::empty();
    if input.len() == 0 {
        assert(pending + input =~= pending);
        assert(reads =~= seq![StdinRead::Eof, StdinRead::Eof]);
        let last = reads.drop_first();
        assert(last.len() == 1 && last[0] == StdinRead::Eof);
        assert(reader_step(none, last[0]).1 is Finished);
        assert(handed_out(none, last) =~= Seq::<Seq<u8>>::empty());
        lemma_script_len_skips(pending, none);
        assert(pending + none =~= pending);
        if pending.len() > 0 {
            assert(handed_out(pending, reads) =~= seq![pending]);
        }
    } else {
        let byte = input[0];
        let rest = input.drop_first();
        assert(reads[0] == StdinRead::Byte(byte));
        assert(reads.drop_first() =~= reads_of(rest));
        if byte != 0 {
            let longer = pending.push(byte);
            assert forall|i: int| 0 <= i < longer.len() implies longer[i] != 0u8 by {
                if i < pending.len() {
                    assert(pending.contains(pending[i]));
                }
            }
            lemma_handed_out(longer, rest);
            assert(longer + rest =~= pending + input);
        } else if pending.len() == 0 {
            assert(pending + input =~= input);
            assert(script_len(input) == 0);
        } else {
            lemma_handed_out(none, rest);
            assert(none + rest =~= rest);
            lemma_scripts_in_step(pending, rest);
            assert(pending + input =~= pending.push(0u8) + rest);
        }
    }
}

/// Reading an input to its end hands out exactly the scripts in it, in order.
pub proof fn law_reader_hands_out_scripts(input: Seq<u8>)
    ensures
        handed_out(Seq::empty(), reads_of(input)) == scripts_in(input),
{
    lemma_handed_out(Seq::empty(), input);
    assert(Seq::<u8>::empty() + input =~= input);
}

/// Scripts that were written with a NUL behind each are found again, in order
/// and unchanged, whatever follows them.
pub proof fn law_framing_round_trip(scripts: Seq<Seq<u8>>, rest: Seq<u8>)
    requires
        forall|i: int|
            0 <= i < scripts.len() ==> (#[trigger] scripts[i]).len() > 0
                && !scripts[i].contains(0u8),
    ensures
        scripts_in(wire(scripts) + rest) == scripts + scripts_in(rest),
    decreases scripts.len(),
{
    if scripts.len() == 0 {
        assert(wire(scripts) + rest =~= rest);
        assert(scripts + scripts_in(rest) =~= scripts_in(rest));
    } else {
        let others = scripts.drop_first();
        assert forall|i: int| 0 <= i < others.len() implies (#[trigger] others[i]).len() > 0
            && !others[i].contains(0u8) by {
            assert(others[i] == scripts[i + 1]);
        }
        law_framing_round_trip(others, rest);
        assert(scripts[0].len() > 0 && !scripts[0].contains(0u8));
        lemma_scripts_in_step(scripts[0], wire(others) + rest);
        assert(wire(scripts) + rest =~= scripts[0].push(0u8) + (wire(others) + rest));
        assert(seq![scripts[0]] + (others + scripts_in(rest)) =~= scripts + scripts_in(rest));
    }
}

/// An empty script ends the stream: what stands behind it is never loaded.
pub proof fn law_empty_script_ends_stream(scripts: Seq<Seq<u8>>, rest: Seq<u8>)
    requires
        forall|i: int|
            0 <= i < scripts.len() ==> (#[trigger] scripts[i]).len() > 0
                && !scripts[i].contains(0u8),
    ensures
        scripts_in(wire(scripts) + seq![0u8] + rest) == scripts,
{
    let behind = seq![0u8] + rest;
    assert(wire(scripts) + seq![0u8] + rest =~= wire(scripts) + behind);
    law_framing_round_trip(scripts, behind);
    assert(script_len(behind) == 0);
    assert(scripts + Seq::<Seq<u8>>::empty() =~= scripts);
}

/// The last script needs no NUL: the end of the input ends it too.
pub proof fn law_last_script_may_end_at_eof(scripts: Seq<Seq<u8>>, last: Seq<u8>)
    requires
        forall|i: int|
            0 <= i < scripts.len() ==> (#[trigger] scripts[i]).len() > 0
                && !scripts[i].contains(0u8),
        last.len() > 0,
        !last.contains(0u8),
    ensures
        scripts_in(wire(scripts) + last) == scripts.push(last),
{
    law_framing_round_trip(scripts, last);
    lemma_script_len_skips(last, Seq::empty());
    assert(last + Seq::<u8>::empty() =~= last);
    assert(scripts_in(last) =~= seq![last]);
    assert(scripts + seq![last] =~= scripts.push(last));
}

/// Script texts that are sent as UTF-8, each followed by a NUL, are read back
/// as the same texts.
pub proof fn law_texts_round_trip(texts: Seq<Seq<char>>)
    requires
        forall|i: int|
            0 <= i < texts.len() ==> (#[trigger] texts[i]).len() > 0
                && !texts[i].contains('\0'),
    ensures
        ({
            let read = handed_out(
                Seq::empty(),
                reads_of(wire(texts.map_values(|text: Seq<char>| encode_utf8(text)))),
            );
            &&& read.len() == texts.len()
            &&& forall|i: int|
                0 <= i < texts.len() ==> valid_utf8(#[trigger] read[i]) && decode_utf8(read[i])
                    == texts[i]
        }),
{
    let sent = texts.map_values(|text: Seq<char>| encode_utf8(text));
    assert forall|i: int| 0 <= i < sent.len() implies (#[trigger] sent[i]).len() > 0
        && !sent[i].contains(0u8) by {
        assert(texts[i].len() > 0);
        crate::encoding::lemma_encoded_without_nul(texts[i]);
    }
    law_reader_hands_out_scripts(wire(sent));
    law_framing_round_trip(sent, Seq::empty());
    assert(wire(sent) + Seq::<u8>::empty() =~= wire(sent));
    assert(scripts_in(Seq::<u8>::empty()) =~= Seq::<Seq<u8>>::empty());
    assert(sent + Seq::<Seq<u8>>::empty() =~= sent);
    assert forall|i: int| 0 <= i < texts.len() implies valid_utf8(#[trigger] sent[i])
        && decode_utf8(sent[i]) == texts[i] by {
        encode_utf8_valid_utf8(texts[i]);
        encode_utf8_decode_utf8(texts[i]);
    }
}

/// What one read makes of the bytes before it: a byte other than NUL is kept
/// behind them, and the reader reads on; a NUL or the end of the input hands them
/// out as they are and leaves none, or ends the stream where there are none; a
/// failure is told with its error.
pub proof fn law_reads_are_kept_until_a_script_ends(pending: Seq<u8>, read: StdinRead)
    ensures
        ({
            let (left, effect) = reader_step(pending, read);
            let ends = read == StdinRead::Byte(0) || read is Eof;
            &&& effect is ReadMore <==> !ends && read is Byte
            &&& effect is ReadMore ==> left.len() == pending.len() + 1 && left.drop_last()
                == pending && read == StdinRead::Byte(left.last())
            &&& effect is Script <==> ends && pending.len() > 0
            &&& effect matches ReaderEffect::Script(script) ==> script == pending && left.len() == 0
            &&& effect is Finished <==> ends && pending.len() == 0
            &&& effect is Finished ==> left.len() == 0
            &&& effect is Aborted <==> read is Failed
            &&& effect is Aborted ==> left == pending
            &&& effect matches ReaderEffect::Aborted(line) ==> (read matches StdinRead::Failed(error)
                && line == "Error reading stdin: "@ + error@)
        }),
{
    if let StdinRead::Byte(byte) = read {
        if byte != 0 {
            assert(pending.push(byte).drop_last() =~= pending);
        }
    }
}

/// The event ends a script of the stream: a NUL or the end of the input came.
pub open spec fn ends_script<E>(event: StdinEvent<E>) -> bool {
    event == StdinEvent::<E>::Read(StdinRead::Byte(0)) || event == StdinEvent::<E>::Read(
        StdinRead::Eof,
    )
}

/// A stream ends only for a failed read, for an empty script or the end of the
/// input, or because the server no longer takes engines. A source that takes all
/// of its input as one script ends when that is dealt with.
pub proof fn law_source_ends_only_for_a_reason<E>(
    base: E,
    phase: StdinPhase,
    pending: Seq<u8>,
    event: StdinEvent<E>,
)
    requires
        possible_in(phase, event),
    ensures
        stdin_step(base, phase, pending, event).0 == StdinPhase::Finished <==> {
            ||| event matches StdinEvent::Read(StdinRead::Failed(_))
            ||| ends_script(event) && pending.len() == 0
            ||| event == StdinEvent::<E>::Sent(false)
            ||| phase == StdinPhase::Making { only: true } && event == StdinEvent::<E>::Made(None)
            ||| phase == StdinPhase::Sending { only: true }
        },
{
}

/// A stream is read on, byte by byte, behind every byte of a script and behind
/// every script that is dealt with: one whose engine was taken as well as one that
/// is no good. Nothing is read while a script is dealt with.
pub proof fn law_stream_is_read_on<E>(
    base: E,
    phase: StdinPhase,
    pending: Seq<u8>,
    event: StdinEvent<E>,
)
    requires
        possible_in(phase, event),
    ensures
        ({
            let (next, left, effect) = stdin_step(base, phase, pending, event);
            let goes_on = {
                ||| event is Read && !ends_script(event) && !(event matches StdinEvent::Read(
                    StdinRead::Failed(_),
                ))
                ||| phase == StdinPhase::Making { only: false } && event
                    == StdinEvent::<E>::Made(None)
                ||| phase == StdinPhase::Sending { only: false } && event
                    == StdinEvent::<E>::Sent(true)
            };
            &&& effect == Some(StdinEffect::<E>::ReadByte) <==> goes_on
            &&& next == StdinPhase::ReadingScript <==> goes_on
            &&& effect != Some(StdinEffect::<E>::ReadAll)
            &&& effect is None ==> next == StdinPhase::Finished
            &&& event is Made || event is Sent || event is All ==> left == pending
            &&& event matches StdinEvent::Read(StdinRead::Byte(byte)) ==> (byte != 0 ==> left
                == pending.push(byte))
            &&& ends_script(event) ==> left.len() == 0
        }),
{
}

/// An engine is asked for exactly when a script has ended or all of the input is
/// there: from the base engine, of that text. It is the only one exactly if it is
/// all of the input.
pub proof fn law_every_script_is_loaded<E>(
    base: E,
    phase: StdinPhase,
    pending: Seq<u8>,
    event: StdinEvent<E>,
    from: E,
    script: Seq<char>,
)
    requires
        possible_in(phase, event),
    ensures
        ({
            let (next, _, effect) = stdin_step(base, phase, pending, event);
            let whole = event matches StdinEvent::All(text) && text@ == script;
            let part = ends_script(event) && pending.len() > 0 && script
                == crate::encoding::lossy_text(pending);
            &&& effect == Some(StdinEffect::Load(from, script)) <==> from == base && (whole || part)
            &&& whole ==> next == StdinPhase::Making { only: true }
            &&& part ==> next == StdinPhase::Making { only: false }
        }),
{
}

/// An engine that was made is sent, and the source waits for what becomes of it.
/// A failed read is told with its error, and nothing else is told.
pub proof fn law_engines_are_sent_and_failures_told<E>(
    base: E,
    phase: StdinPhase,
    pending: Seq<u8>,
    event: StdinEvent<E>,
    engine: E,
    line: Seq<char>,
)
    requires
        possible_in(phase, event),
    ensures
        ({
            let (next, _, effect) = stdin_step(base, phase, pending, event);
            &&& effect == Some(StdinEffect::Send(engine)) <==> event == StdinEvent::Made(
                Some(engine),
            )
            &&& event == StdinEvent::Made(Some(engine)) ==> (
            phase matches StdinPhase::Making { only } && next == StdinPhase::Sending { only })
            &&& effect == Some(StdinEffect::<E>::Report(line)) <==> (event matches StdinEvent::Read(
                StdinRead::Failed(error),
            ) && line == "Error reading stdin: "@ + error@)
        }),
{
}

/// The source of a stream starts by reading a script, any other by reading all.
pub proof fn law_source_starts_by_reading()
    ensures
        first_phase(true) == StdinPhase::ReadingScript,
        first_phase(false) == StdinPhase::ReadingAll,
{
}

/// What can come is the outcome of what was asked for. That an engine was not
/// taken can come of every one but an only one.
pub proof fn law_what_can_come<E>(
    phase: StdinPhase,
    all: String,
    read: StdinRead,
    made: Option<E>,
    taken: bool,
)
    ensures
        possible_in(phase, StdinEvent::<E>::All(all)) <==> phase is ReadingAll,
        possible_in(phase, StdinEvent::<E>::Read(read)) <==> phase is ReadingScript,
        possible_in(phase, StdinEvent::Made(made)) <==> phase is Making,
        possible_in(phase, StdinEvent::<E>::Sent(taken)) <==> phase is Sending && (taken
            || !phase->Sending_only),
{
}

/// What is asked for is seen as it is.
pub proof fn law_actions_are_seen_as_they_are<E>(action: Option<StdinAction<E>>, step: ReaderStep)
    ensures
        match (action, effect(action)) {
            (None, None) => true,
            (Some(action), Some(effect)) => match (action, effect) {
                (StdinAction::ReadAll, StdinEffect::ReadAll) => true,
                (StdinAction::ReadByte, StdinEffect::ReadByte) => true,
                (StdinAction::Load(a, script), StdinEffect::Load(b, text)) => *a == b && script@
                    == text,
                (StdinAction::Send(a), StdinEffect::Send(b)) => a == b,
                (StdinAction::Report(a), StdinEffect::Report(b)) => a@ == b,
                _ => false,
            },
            _ => false,
        },
        match (step, step@) {
            (ReaderStep::ReadMore, ReaderEffect::ReadMore) => true,
            (ReaderStep::Script(a), ReaderEffect::Script(b)) => a@ == b,
            (ReaderStep::Finished, ReaderEffect::Finished) => true,
            (ReaderStep::Aborted(a), ReaderEffect::Aborted(b)) => a@ == b,
            _ => false,
        },
{
}

/// The input is read in order from its start: `reads` holds its bytes, and only
/// then the end.
pub open spec fn reads_input(reads: Seq<StdinRead>, input: Seq<u8>) -> bool {
    forall|i: int|
        0 <= i < reads.len() ==> #[trigger] reads[i] == (if i < input.len() {
            StdinRead::Byte(input[i])
        } else {
            StdinRead::Eof
        })
}

/// A reader that comes to the end of its stream has handed out all scripts.
proof fn lemma_finished_reader_handed_out_all(pending: Seq<u8>, reads: Seq<StdinRead>, input: Seq<u8>)
    requires
        !pending.contains(0u8),
        reads_input(reads, input),
        finishes(pending, reads),
    ensures
        handed_out(pending, reads) == scripts_in(pending + input),
    decreases reads.len(),
{
    let rest = reads.drop_first();
    let none = Seq::<u8>::empty();
    let (left, effect) = reader_step(pending, reads[0]);
    if input.len() == 0 {
        assert(reads[0] == StdinRead::Eof);
        assert(pending + input =~= pending);
        lemma_script_len_skips(pending, none);
        assert(pending + none =~= pending);
        if pending.len() > 0 {
            assert forall|i: int| 0 <= i < rest.len() implies #[trigger] rest[i] == (if i
                < none.len() {
                StdinRead::Byte(none[i])
            } else {
                StdinRead::Eof
            }) by {
                assert(rest[i] == reads[i + 1]);
            }
            lemma_finished_reader_handed_out_all(none, rest, none);
            assert(none + none =~= none);
            assert(handed_out(pending, reads) =~= seq![pending]);
        }
    } else {
        let byte = input[0];
        let behind = input.drop_first();
        assert(reads[0] == StdinRead::Byte(byte));
        assert forall|i: int| 0 <= i < rest.len() implies #[trigger] rest[i] == (if i
            < behind.len() {
            StdinRead::Byte(behind[i])
        } else {
            StdinRead::Eof
        }) by {
            assert(rest[i] == reads[i + 1]);
        }
        if byte != 0 {
            let longer = pending.push(byte);
            assert forall|i: int| 0 <= i < longer.len() implies longer[i] != 0u8 by {
                if i < pending.len() {
                    assert(pending.contains(pending[i]));
                }
            }
            lemma_finished_reader_handed_out_all(longer, rest, behind);
            assert(longer + behind =~= pending + input);
        } else if pending.len() == 0 {
            assert(pending + input =~= input);
            assert(script_len(input) == 0);
        } else {
            lemma_finished_reader_handed_out_all(none, rest, behind);
            assert(none + behind =~= behind);
            lemma_scripts_in_step(pending, behind);
            assert(pending + input =~= pending.push(0u8) + behind);
        }
    }
}

/// A reader comes to the end of its stream over `reads`.
pub open spec fn finishes(pending: Seq<u8>, reads: Seq<StdinRead>) -> bool
    decreases reads.len(),
{
    reads.len() > 0 && {
        let (left, effect) = reader_step(pending, reads[0]);
        effect is Finished || ((effect is ReadMore || effect is Script) && finishes(
            left,
            reads.drop_first(),
        ))
    }
}

proof fn lemma_finished_source_finished_reading<E>(
    base: E,
    phase: StdinPhase,
    pending: Seq<u8>,
    events: Seq<StdinEvent<E>>,
)
    requires
        phase is ReadingScript || phase == (StdinPhase::Making { only: false }) || phase == (
        StdinPhase::Sending { only: false }),
        can_follow(base, phase, pending, events),
        phase_after(base, phase, pending, events) == StdinPhase::Finished,
        forall|i: int|
            0 <= i < events.len() ==> #[trigger] events[i] != StdinEvent::<E>::Sent(false)
                && !(events[i] matches StdinEvent::Read(StdinRead::Failed(_))),
    ensures
        finishes(pending, reads_in(events)),
    decreases events.len(),
{
    let rest = events.drop_first();
    let (next, left, _) = stdin_step(base, phase, pending, events[0]);
    assert(events[0] != StdinEvent::<E>::Sent(false));
    assert forall|i: int| 0 <= i < rest.len() implies #[trigger] rest[i]
        != StdinEvent::<E>::Sent(false) && !(rest[i] matches StdinEvent::Read(
        StdinRead::Failed(_),
    )) by {
        assert(rest[i] == events[i + 1]);
    }
    if let StdinEvent::Read(read) = events[0] {
        let reads = reads_in(events);
        assert(reads[0] == read);
        assert(reads.drop_first() =~= reads_in(rest));
    }
    if next != StdinPhase::Finished {
        lemma_finished_source_finished_reading(base, next, left, rest);
    }
}

/// A stream is loaded to its end: a source that has finished, with no engine
/// refused and no read failed, has loaded every script in its input, in order,
/// each from the base engine.
pub proof fn law_stream_is_loaded_to_its_end<E>(
    base: E,
    events: Seq<StdinEvent<E>>,
    input: Seq<u8>,
)
    requires
        can_follow(base, StdinPhase::ReadingScript, Seq::empty(), events),
        reads_input(reads_in(events), input),
        phase_after(base, StdinPhase::ReadingScript, Seq::empty(), events) == StdinPhase::Finished,
        forall|i: int|
            0 <= i < events.len() ==> #[trigger] events[i] != StdinEvent::<E>::Sent(false)
                && !(events[i] matches StdinEvent::Read(StdinRead::Failed(_))),
    ensures
        loaded(base, StdinPhase::ReadingScript, Seq::empty(), events) == scripts_in(
            input,
        ).map_values(|script: Seq<u8>| (base, crate::encoding::lossy_text(script))),
{
    let none = Seq::<u8>::empty();
    law_source_loads_what_reader_hands_out(base, events);
    lemma_finished_source_finished_reading(base, StdinPhase::ReadingScript, none, events);
    lemma_finished_reader_handed_out_all(none, reads_in(events), input);
    assert(none + input =~= input);
}

} // verus!

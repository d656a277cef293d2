use http_nu_core::command_source::{CommandAction, CommandSource};
use http_nu_core::file_source::{
    concerns, timeout_ms, ChangeEvent, ChangeKind, FileAction, FileEvent, FilePhase, FileSource,
    WatchMessage, DEBOUNCE_MS, IDLE_MS,
};
use http_nu_core::fs_path::{FsPath, PartKind, PathPart, ResolvedPath};
use http_nu_core::stdin_source::{
    script_text, ReaderStep, ScriptReader, StdinAction, StdinEvent, StdinPhase, StdinRead,
    StdinSource,
};
use std::path::PathBuf;

type Event = FileEvent<u8>;
type Input = StdinEvent<u8>;

fn path(text: &str) -> FsPath {
    let mut parts = Vec::new();
    if text.starts_with('/') {
        parts.push(PathPart { kind: PartKind::RootDir, bytes: b"/".to_vec() });
    }
    for name in text.split('/') {
        if !name.is_empty() {
            parts.push(PathPart { kind: PartKind::Normal, bytes: name.as_bytes().to_vec() });
        }
    }
    FsPath { parts }
}

fn change(kind: ChangeKind, paths: &[&str]) -> ChangeEvent {
    ChangeEvent { kind, paths: paths.iter().map(|p| path(p)).collect() }
}

fn scripts_of(input: &[u8]) -> Vec<Vec<u8>> {
    let mut reader = ScriptReader::new();
    let mut scripts = Vec::new();
    let mut rest = input.iter();
    loop {
        let read = match rest.next() {
            Some(byte) => StdinRead::Byte(*byte),
            None => StdinRead::Eof,
        };
        match reader.feed(read) {
            ReaderStep::ReadMore => {}
            ReaderStep::Script(script) => scripts.push(script),
            ReaderStep::Finished => return scripts,
            ReaderStep::Aborted(_) => panic!("no read failed"),
        }
    }
}

fn resolved() -> ResolvedPath {
    ResolvedPath { path: PathBuf::from("/srv/serve.nu"), parts: path("/srv/serve.nu") }
}

/// A source whose base engine is 9, and which waits for its watch.
fn watching(pending: bool, ignore: Option<FsPath>) -> FileSource<u8> {
    let mut source = FileSource::new(9, "serve.nu".to_string(), true, ignore);
    source.phase = FilePhase::Waiting(resolved(), pending);
    source
}

#[test]
fn paths_are_compared_by_whole_components() {
    assert!(path("/srv/store/data").starts_with(&path("/srv/store")));
    assert!(path("/srv/store").starts_with(&path("/srv/store")));
    assert!(!path("/srv/store2/data").starts_with(&path("/srv/store")));
    assert!(!path("/srv").starts_with(&path("/srv/store")));
    assert!(!path("srv/store").starts_with(&path("/srv")));
    assert!(path("/srv").starts_with(&path("")));
}

#[test]
fn components_differ_by_kind_too() {
    let dot = PathPart { kind: PartKind::CurDir, bytes: b".".to_vec() };
    let name = PathPart { kind: PartKind::Normal, bytes: b".".to_vec() };
    assert!(!dot.same(&name));
    assert!(dot.same(&PathPart { kind: PartKind::CurDir, bytes: b".".to_vec() }));
}

#[test]
fn the_parent_drops_the_last_name() {
    assert_eq!(path("/srv/app/serve.nu").parent_len(), 3);
    assert_eq!(path("serve.nu").parent_len(), 0);
    assert_eq!(path("/").parent_len(), 1);
    assert_eq!(path("").parent_len(), 0);
}

#[test]
fn only_altered_files_call_for_a_reload() {
    let none = None;
    assert!(concerns(&change(ChangeKind::Create, &["/a"]), &none));
    assert!(concerns(&change(ChangeKind::Modify, &["/a"]), &none));
    assert!(concerns(&change(ChangeKind::Remove, &["/a"]), &none));
    assert!(!concerns(&change(ChangeKind::Access, &["/a"]), &none));
    assert!(!concerns(&change(ChangeKind::Any, &["/a"]), &none));
    assert!(!concerns(&change(ChangeKind::Other, &["/a"]), &none));
}

#[test]
fn changes_inside_the_ignored_directory_do_not_matter() {
    let store = Some(path("/srv/store"));
    assert!(!concerns(&change(ChangeKind::Modify, &["/srv/store/a", "/srv/store/b"]), &store));
    assert!(concerns(&change(ChangeKind::Modify, &["/srv/store/a", "/srv/serve.nu"]), &store));
    assert!(concerns(&change(ChangeKind::Modify, &["/srv/store2/a"]), &store));
    assert!(concerns(&change(ChangeKind::Modify, &[]), &store));
}

#[test]
fn waits_are_short_while_a_reload_is_pending() {
    assert_eq!(timeout_ms(true), 100);
    assert_eq!(timeout_ms(false), 86_400_000);
    assert_eq!(DEBOUNCE_MS, 100);
    assert_eq!(IDLE_MS, 86_400_000);
}

#[test]
fn a_burst_of_changes_reloads_once() {
    let mut source = watching(false, None);
    for _ in 0..3 {
        let event = Event::Message(WatchMessage::Change(change(ChangeKind::Modify, &["/a"])));
        assert!(source.expects(&event));
        let actions = source.on_event(event);
        assert!(matches!(actions.as_slice(), [FileAction::Wait(100)]));
    }
    let actions = source.on_event(Event::Message(WatchMessage::Quiet));
    assert!(matches!(
        actions.as_slice(),
        [FileAction::ReadAgain(at)] if at.path == PathBuf::from("/srv/serve.nu")
    ));
    let actions = source.on_event(Event::Read(Ok("new".to_string())));
    assert!(matches!(
        actions.as_slice(),
        [FileAction::Load(9, script, at)]
            if script == "new" && at.path == PathBuf::from("/srv/serve.nu")
    ));
    let actions = source.on_event(Event::Made(Some(4)));
    assert!(matches!(actions.as_slice(), [FileAction::Send(4)]));
    let actions = source.on_event(Event::Sent(true));
    assert!(matches!(actions.as_slice(), [FileAction::Wait(86_400_000)]));
    let actions = source.on_event(Event::Message(WatchMessage::Quiet));
    assert!(matches!(actions.as_slice(), [FileAction::Wait(86_400_000)]));
    assert!(matches!(source.phase, FilePhase::Waiting(_, false)));
}

#[test]
fn every_reload_starts_from_the_base_engine() {
    let mut source = watching(false, None);
    for engine in [4u8, 5] {
        let event = Event::Message(WatchMessage::Change(change(ChangeKind::Modify, &["/a"])));
        source.on_event(event);
        source.on_event(Event::Message(WatchMessage::Quiet));
        let actions = source.on_event(Event::Read(Ok("same".to_string())));
        assert!(matches!(
            actions.as_slice(),
            [FileAction::Load(9, script, at)]
                if script == "same" && at.path == PathBuf::from("/srv/serve.nu")
        ));
        let actions = source.on_event(Event::Made(Some(engine)));
        assert!(matches!(actions.as_slice(), [FileAction::Send(sent)] if *sent == engine));
        source.on_event(Event::Sent(true));
    }
}

#[test]
fn ignored_changes_lead_to_no_reload() {
    let mut source = watching(false, Some(path("/srv/store")));
    let event = change(ChangeKind::Create, &["/srv/store/frame"]);
    let actions = source.on_event(Event::Message(WatchMessage::Change(event)));
    assert!(matches!(actions.as_slice(), [FileAction::Wait(86_400_000)]));
    let actions = source.on_event(Event::Message(WatchMessage::Quiet));
    assert!(matches!(actions.as_slice(), [FileAction::Wait(86_400_000)]));
}

#[test]
fn a_fault_of_the_watch_is_reported() {
    let mut source = watching(true, None);
    let message = WatchMessage::Fault("queue full".to_string());
    let actions = source.on_event(Event::Message(message));
    assert!(matches!(
        actions.as_slice(),
        [FileAction::Report(line), FileAction::Wait(100)] if line == "Watch error: queue full"
    ));
    assert!(matches!(source.phase, FilePhase::Waiting(_, true)));
}

#[test]
fn a_closed_watch_ends_the_source() {
    let mut source = watching(true, None);
    assert!(source.on_event(Event::Message(WatchMessage::Closed)).is_empty());
    assert!(matches!(source.phase, FilePhase::Finished));
}

#[test]
fn a_script_that_cannot_be_read_again_is_reported() {
    let mut source = watching(true, None);
    source.on_event(Event::Message(WatchMessage::Quiet));
    let actions = source.on_event(Event::Read(Err("gone".to_string())));
    assert!(matches!(
        actions.as_slice(),
        [FileAction::Report(line), FileAction::Wait(86_400_000)]
            if line == "Error reading script file: gone"
    ));
    assert!(matches!(source.phase, FilePhase::Waiting(_, false)));
}

#[test]
fn a_reload_ends_when_the_server_is_gone() {
    let mut source = watching(true, None);
    source.on_event(Event::Message(WatchMessage::Quiet));
    source.on_event(Event::Read(Ok("new".to_string())));
    source.on_event(Event::Made(Some(4)));
    assert!(source.on_event(Event::Sent(false)).is_empty());
    assert!(matches!(source.phase, FilePhase::Finished));
}

#[test]
fn a_script_without_watch_is_loaded_once() {
    let mut source = FileSource::new(9u8, "serve.nu".to_string(), false, None);
    assert!(matches!(source.first(), FileAction::ReadScript(path) if path == "serve.nu"));
    let actions = source.on_event(Event::Read(Ok("text".to_string())));
    assert!(matches!(
        actions.as_slice(),
        [FileAction::ResolvePath(path)] if *path == "serve.nu"
    ));
    let actions = source.on_event(Event::Resolved(Ok(resolved())));
    assert!(matches!(
        actions.as_slice(),
        [FileAction::Load(9, script, at)]
            if script == "text" && at.path == PathBuf::from("/srv/serve.nu")
    ));
    let actions = source.on_event(Event::Made(Some(4)));
    assert!(matches!(actions.as_slice(), [FileAction::Send(4)]));
    assert!(!source.expects(&Event::Sent(false)));
    assert!(source.on_event(Event::Sent(true)).is_empty());
    assert!(matches!(source.phase, FilePhase::Finished));
}

#[test]
fn a_watched_script_is_watched_even_if_it_is_no_good() {
    let mut source = FileSource::new(9u8, "serve.nu".to_string(), true, None);
    source.on_event(Event::Read(Ok("text".to_string())));
    source.on_event(Event::Resolved(Ok(resolved())));
    let actions = source.on_event(Event::Made(None));
    assert!(matches!(
        actions.as_slice(),
        [FileAction::StartWatch(at, 2), FileAction::Wait(86_400_000)]
            if at.path == PathBuf::from("/srv/serve.nu")
    ));
}

#[test]
fn a_script_that_cannot_be_read_at_first_ends_the_program() {
    let mut source = FileSource::new(9u8, "serve.nu".to_string(), true, None);
    let actions = source.on_event(Event::Read(Err("gone".to_string())));
    assert!(matches!(
        actions.as_slice(),
        [FileAction::Exit(line)] if line == "Error reading serve.nu: gone"
    ));
    assert!(matches!(source.phase, FilePhase::Finished));
}

#[test]
fn a_path_that_cannot_be_resolved_ends_the_program() {
    let mut source = FileSource::new(9u8, "serve.nu".to_string(), false, None);
    source.on_event(Event::Read(Ok(String::new())));
    let actions = source.on_event(Event::Resolved(Err("loop".to_string())));
    assert!(matches!(
        actions.as_slice(),
        [FileAction::Exit(line)] if line == "Error resolving serve.nu: loop"
    ));
}

#[test]
fn scripts_end_at_nul() {
    assert_eq!(scripts_of(b"one\0two\0"), vec![b"one".to_vec(), b"two".to_vec()]);
}

#[test]
fn the_last_script_may_end_with_the_input() {
    assert_eq!(scripts_of(b"one\0two"), vec![b"one".to_vec(), b"two".to_vec()]);
}

#[test]
fn an_empty_script_ends_the_stream() {
    assert_eq!(scripts_of(b"one\0\0two\0"), vec![b"one".to_vec()]);
    assert_eq!(scripts_of(b"\0one\0"), Vec::<Vec<u8>>::new());
    assert_eq!(scripts_of(b""), Vec::<Vec<u8>>::new());
}

#[test]
fn a_failed_read_drops_what_was_read() {
    let mut reader = ScriptReader::new();
    assert!(matches!(reader.feed(StdinRead::Byte(b'a')), ReaderStep::ReadMore));
    let step = reader.feed(StdinRead::Failed("broken pipe".to_string()));
    assert!(matches!(
        step,
        ReaderStep::Aborted(line) if line == "Error reading stdin: broken pipe"
    ));
}

#[test]
fn texts_survive_the_stream() {
    let texts = ["{|req| \"h\u{e9}llo\"}", "\u{1F600}", "a\nb"];
    let mut wire = Vec::new();
    for text in texts {
        wire.extend_from_slice(text.as_bytes());
        wire.push(0);
    }
    let read: Vec<String> = scripts_of(&wire).iter().map(script_text).collect();
    assert_eq!(read, texts);
}

#[test]
fn bytes_that_are_no_text_are_replaced() {
    assert_eq!(script_text(&vec![b'a', 0xff, b'b']), "a\u{fffd}b");
    assert_eq!(script_text(&vec![0xe2, 0x82]), "\u{fffd}");
    assert_eq!(script_text(&Vec::new()), "");
}

#[test]
fn all_of_the_input_is_one_script_without_watch() {
    let mut source = StdinSource::new(9u8, false);
    assert!(matches!(source.first(), StdinAction::ReadAll));
    let action = source.on_event(Input::All("a\0b".to_string()));
    assert!(matches!(action, Some(StdinAction::Load(9, script)) if script == "a\0b"));
    let action = source.on_event(Input::Made(Some(4)));
    assert!(matches!(action, Some(StdinAction::Send(4))));
    assert!(!source.expects(&Input::Sent(false)));
    assert!(source.on_event(Input::Sent(true)).is_none());
    assert_eq!(source.phase, StdinPhase::Finished);
}

#[test]
fn an_only_script_that_is_no_good_ends_the_source() {
    let mut source = StdinSource::new(9u8, false);
    source.on_event(Input::All("{".to_string()));
    assert!(source.on_event(Input::Made(None)).is_none());
    assert_eq!(source.phase, StdinPhase::Finished);
}

#[test]
fn a_stream_is_loaded_script_by_script() {
    let mut source = StdinSource::new(9u8, true);
    assert!(matches!(source.first(), StdinAction::ReadByte));
    let read = |byte: u8| Input::Read(StdinRead::Byte(byte));
    assert!(matches!(source.on_event(read(b'a')), Some(StdinAction::ReadByte)));
    let action = source.on_event(read(0));
    assert!(matches!(action, Some(StdinAction::Load(9, script)) if script == "a"));
    let action = source.on_event(Input::Made(None));
    assert!(matches!(action, Some(StdinAction::ReadByte)));
    assert!(matches!(source.on_event(read(0xff)), Some(StdinAction::ReadByte)));
    let action = source.on_event(Input::Read(StdinRead::Eof));
    assert!(matches!(action, Some(StdinAction::Load(9, script)) if script == "\u{fffd}"));
    let action = source.on_event(Input::Made(Some(4)));
    assert!(matches!(action, Some(StdinAction::Send(4))));
    assert!(source.on_event(Input::Sent(false)).is_none());
    assert_eq!(source.phase, StdinPhase::Finished);
}

#[test]
fn a_stream_that_fails_is_reported() {
    let mut source = StdinSource::new(9u8, true);
    let event = Input::Read(StdinRead::Failed("broken pipe".to_string()));
    let action = source.on_event(event);
    assert!(matches!(
        action,
        Some(StdinAction::Report(line)) if line == "Error reading stdin: broken pipe"
    ));
    assert_eq!(source.phase, StdinPhase::Finished);
}

#[test]
fn a_stream_sends_what_is_made_of_its_scripts() {
    let mut source = StdinSource::new(9u8, true);
    let mut made = vec![Some(4u8), None, Some(6)].into_iter();
    let mut sent = Vec::new();
    for byte in *b"a\0b\0c\0" {
        let mut event = Some(Input::Read(StdinRead::Byte(byte)));
        while let Some(came) = event.take() {
            match source.on_event(came) {
                Some(StdinAction::Load(9, _)) => event = Some(Input::Made(made.next().unwrap())),
                Some(StdinAction::Send(engine)) => {
                    sent.push(engine);
                    event = Some(Input::Sent(true));
                }
                _ => {}
            }
        }
    }
    assert_eq!(sent, vec![4, 6]);
}

#[test]
fn a_script_on_the_command_line_is_sent_if_it_is_good() {
    let script = "{|req| 1}".to_string();
    let source = CommandSource { base: 9u8, script: &script };
    assert!(matches!(source.first(), CommandAction::Load(9, text) if *text == script));
    assert!(matches!(source.on_made(Some(4)), Some(CommandAction::Send(4))));
    assert!(source.on_made(None).is_none());
}

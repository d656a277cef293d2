use http_nu_core::store::{
    decode_failure, enrich_engine, modules_loaded, placeholder_closure, Enrichment, FirstAction, Store,
    StoreCommands, StoreTask, TopicAction, TopicEvent, TopicFrame, TopicPhase, TopicWatcher,
    STORE_PATH_MARK, TOPIC_MARK,
};
use scru128::Scru128Id;

const TEMPLATE: &str = "{|req| \"no handler in __TOPIC__ of __STORE_PATH__\"}";

fn id(value: u128) -> Scru128Id {
    Scru128Id::from_u128(value)
}

fn frame(topic: &str, value: u128, hash: Option<&str>) -> TopicFrame<String> {
    TopicFrame { topic: topic.to_string(), id: id(value), hash: hash.map(|h| h.to_string()) }
}

type Event = TopicEvent<u8, String>;

/// The engines that are sent at the start of a topic, and the watch.
fn split(actions: Vec<FirstAction<u8>>) -> (Vec<u8>, Option<TopicWatcher<u8>>) {
    let mut sent = Vec::new();
    let mut watch = None;
    for action in actions {
        match action {
            FirstAction::Send(engine) => sent.push(engine),
            FirstAction::Watch(watcher) => watch = Some(watcher),
        }
    }
    (sent, watch)
}

/// A watch whose base engine is 9.
fn watcher() -> TopicWatcher<u8> {
    let store = Store::from_inner((), "store".to_string());
    let load = store.topic_source(TEMPLATE, "serve.nu", true, 9, None);
    split(load.on_made(None)).1.unwrap()
}

#[test]
fn the_placeholder_names_topic_and_store() {
    assert_eq!(
        placeholder_closure(TEMPLATE, "serve.nu", "/srv/store"),
        "{|req| \"no handler in serve.nu of /srv/store\"}"
    );
    assert_eq!(TOPIC_MARK, "__TOPIC__");
    assert_eq!(STORE_PATH_MARK, "__STORE_PATH__");
}

#[test]
fn every_mark_is_replaced() {
    assert_eq!(
        placeholder_closure("__STORE_PATH__ __TOPIC__ __STORE_PATH____TOPIC__", "t", "p"),
        "p t pt"
    );
}

#[test]
fn marks_do_not_overlap() {
    assert_eq!(placeholder_closure("__TOPIC__TOPIC__", "x", "p"), "xTOPIC__");
    assert_eq!(placeholder_closure("___TOPIC___", "x", "p"), "_x_");
}

#[test]
fn a_template_without_marks_is_kept() {
    assert_eq!(placeholder_closure("plain \u{e9}", "t", "p"), "plain \u{e9}");
    assert_eq!(placeholder_closure("", "t", "p"), "");
    assert_eq!(placeholder_closure("__TOPIC_", "t", "p"), "__TOPIC_");
}

#[test]
fn a_topic_that_is_a_store_mark_is_replaced_in_turn() {
    assert_eq!(placeholder_closure("__TOPIC__", "__STORE_PATH__", "p"), "p");
    assert_eq!(placeholder_closure("__STORE_PATH__", "t", "__TOPIC__"), "__TOPIC__");
}

#[test]
fn a_store_is_started_with_its_tasks() {
    let opened: Result<u8, ()> = Ok(7);
    let expose = Some(":4000".to_string());
    let (store, tasks) = Store::init(opened, "store".to_string(), true, expose).unwrap();
    assert_eq!(store.inner, 7);
    assert_eq!(store.path, "store");
    assert!(matches!(
        tasks.as_slice(),
        [
            StoreTask::Api(Some(address)),
            StoreTask::Actors,
            StoreTask::Services,
            StoreTask::Actions,
        ] if address == ":4000"
    ));
}

#[test]
fn services_are_run_only_when_asked_for() {
    let opened: Result<u8, ()> = Ok(7);
    let (_, tasks) = Store::init(opened, "store".to_string(), false, None).unwrap();
    assert!(matches!(tasks.as_slice(), [StoreTask::Api(None)]));
}

#[test]
fn a_store_that_cannot_be_opened_is_an_error() {
    let opened: Result<u8, String> = Err("locked".to_string());
    let error = Store::init(opened, "store".to_string(), true, None).err();
    assert_eq!(error, Some("locked".to_string()));
}

#[test]
fn tasks_report_how_they_fail() {
    assert_eq!(StoreTask::Api(None).failure("x"), "Store API server error: x");
    assert_eq!(StoreTask::Actors.failure("x"), "Actor processor error: x");
    assert_eq!(StoreTask::Services.failure("x"), "Service processor error: x");
    assert_eq!(StoreTask::Actions.failure("x"), "Action processor error: x");
}

#[test]
fn a_store_adds_two_sets_of_commands() {
    let store = Store::from_inner(7u8, "store".to_string());
    let mut sets = store.configure_engine();
    assert!(matches!(sets.after::<()>(Ok(())), Ok(Some(StoreCommands::Frames(7)))));
    assert!(matches!(sets.after::<()>(Ok(())), Ok(Some(StoreCommands::Templates(7)))));
    assert!(matches!(sets.after::<()>(Ok(())), Ok(None)));
}

#[test]
fn the_second_set_needs_the_first() {
    let store = Store::from_inner(7u8, "store".to_string());
    let mut sets = store.configure_engine();
    assert!(matches!(sets.after::<u8>(Ok(())), Ok(Some(StoreCommands::Frames(7)))));
    assert!(matches!(sets.after::<u8>(Err(3)), Err(3)));
    assert!(matches!(sets.after::<u8>(Ok(())), Ok(None)));
}

#[test]
fn the_latest_frame_is_asked_for() {
    let query = Store::<()>::latest_query("serve.nu");
    assert!(!query.follow);
    assert_eq!(query.topic, "serve.nu");
    assert_eq!(query.last, Some(1));
    assert_eq!(query.after, None);
}

#[test]
fn content_is_read_where_the_latest_frame_has_some() {
    let wanted = Store::<()>::latest_content(Some(frame("t", 5, Some("h"))));
    assert_eq!(wanted, Some(("h".to_string(), id(5))));
    assert_eq!(Store::<()>::latest_content(Some(frame("t", 5, None))), None);
    assert_eq!(Store::<()>::latest_content::<String>(None), None);
}

#[test]
fn content_must_be_text() {
    let text = "h\u{e9}llo";
    assert_eq!(
        Store::<()>::read_topic_content(Some(text.as_bytes().to_vec()), id(5)),
        Some((text.to_string(), id(5)))
    );
    assert_eq!(Store::<()>::read_topic_content(Some(vec![0xff]), id(5)), None);
    assert_eq!(Store::<()>::read_topic_content(None, id(5)), None);
}

#[test]
fn a_stored_handler_is_loaded() {
    let store = Store::from_inner((), "store".to_string());
    let content = Some(("{|req| 1}".to_string(), id(5)));
    let load = store.topic_source(TEMPLATE, "serve.nu", true, 9u8, content);
    assert_eq!(load.script, "{|req| 1}");
    assert_eq!(load.as_of, Some(id(5)));
    assert!(matches!(load.enrichment(), Enrichment::ModulesAt(9, at) if at == id(5)));
    let (sent, watcher) = split(load.on_made(Some(4)));
    assert_eq!(sent, vec![4]);
    let watcher = watcher.unwrap();
    assert_eq!(watcher.base, 9);
    let query = watcher.query();
    assert!(query.follow);
    assert_eq!(query.topic, "serve.nu");
    assert_eq!(query.last, None);
    assert_eq!(query.after, Some(id(5)));
}

#[test]
fn a_topic_without_handler_gets_the_placeholder() {
    let store = Store::from_inner((), "/srv/store".to_string());
    let load = store.topic_source(TEMPLATE, "serve.nu", false, 9u8, None);
    assert_eq!(load.script, "{|req| \"no handler in serve.nu of /srv/store\"}");
    assert_eq!(load.as_of, None);
    assert!(matches!(load.enrichment(), Enrichment::BaseOnly(9)));
    let actions = load.on_made(Some(4));
    assert!(matches!(actions.as_slice(), [FirstAction::Send(4)]));
}

#[test]
fn modules_are_taken_as_of_a_frame() {
    assert!(matches!(enrich_engine(9u8, None), Enrichment::BaseOnly(9)));
    assert!(matches!(
        enrich_engine(9u8, Some(id(9))),
        Enrichment::ModulesAt(9, at) if at == id(9)
    ));
}

#[test]
fn an_engine_is_used_even_without_its_modules() {
    assert_eq!(modules_loaded(9u8, Ok(())), (9, None));
    assert_eq!(
        modules_loaded(9u8, Err("x".to_string())),
        (9, Some("Error loading stream modules: x".to_string()))
    );
}

#[test]
fn the_watch_passes_over_what_is_not_its_own() {
    let mut watcher = watcher();
    let actions = watcher.on_event(Event::Frame(frame("other", 1, Some("h"))));
    assert!(matches!(actions.as_slice(), [TopicAction::NextFrame]));
    let actions = watcher.on_event(Event::Frame(frame("serve.nu", 2, None)));
    assert!(matches!(actions.as_slice(), [TopicAction::NextFrame]));
    assert!(matches!(watcher.phase, TopicPhase::Following));
}

#[test]
fn the_watch_loads_content_as_of_its_frame() {
    let mut watcher = watcher();
    let actions = watcher.on_event(Event::Frame(frame("serve.nu", 3, Some("h"))));
    assert!(matches!(actions.as_slice(), [TopicAction::ReadContent(hash)] if hash == "h"));
    let event = Event::Content(Ok(b"{|req| 2}".to_vec()));
    assert!(watcher.expects(&event));
    let actions = watcher.on_event(event);
    assert!(matches!(
        actions.as_slice(),
        [TopicAction::Load(Enrichment::ModulesAt(9, at), script)]
            if script == "{|req| 2}" && *at == id(3)
    ));
    let actions = watcher.on_event(Event::Made(Some(4)));
    assert!(matches!(actions.as_slice(), [TopicAction::Send(4)]));
    let actions = watcher.on_event(Event::Sent(true));
    assert!(matches!(actions.as_slice(), [TopicAction::NextFrame]));
}

#[test]
fn the_watch_passes_over_a_script_that_is_no_good() {
    let mut watcher = watcher();
    watcher.on_event(Event::Frame(frame("serve.nu", 3, Some("h"))));
    watcher.on_event(Event::Content(Ok(b"{".to_vec())));
    let actions = watcher.on_event(Event::Made(None));
    assert!(matches!(actions.as_slice(), [TopicAction::NextFrame]));
}

#[test]
fn the_watch_reports_content_that_is_no_text() {
    let mut watcher = watcher();
    watcher.on_event(Event::Frame(frame("serve.nu", 3, Some("h"))));
    let actions = watcher.on_event(Event::Content(Ok(vec![0xff])));
    assert!(matches!(
        actions.as_slice(),
        [TopicAction::Report(line), TopicAction::NextFrame]
            if line == "Error decoding topic content: invalid utf-8 sequence of 1 bytes from index 0"
    ));
    assert!(matches!(watcher.phase, TopicPhase::Following));
    assert_eq!(decode_failure("x"), "Error decoding topic content: x");
}

#[test]
fn the_watch_reports_content_that_cannot_be_read() {
    let mut watcher = watcher();
    watcher.on_event(Event::Frame(frame("serve.nu", 3, Some("h"))));
    let actions = watcher.on_event(Event::Content(Err("gone".to_string())));
    assert!(matches!(
        actions.as_slice(),
        [TopicAction::Report(line), TopicAction::NextFrame]
            if line == "Error reading topic content: gone"
    ));
}

#[test]
fn the_watch_ends_with_its_frames_or_its_server() {
    let mut ended = watcher();
    assert!(ended.on_event(Event::Ended).is_empty());
    assert!(matches!(ended.phase, TopicPhase::Finished));
    let mut closed = watcher();
    closed.on_event(Event::Frame(frame("serve.nu", 3, Some("h"))));
    closed.on_event(Event::Content(Ok(Vec::new())));
    closed.on_event(Event::Made(Some(4)));
    assert!(closed.on_event(Event::Sent(false)).is_empty());
    assert!(matches!(closed.phase, TopicPhase::Finished));
}

fn handler_after(frames: &[(u128, &[u8])]) -> Option<(String, Scru128Id)> {
    let (value, bytes) = frames.last()?;
    Store::<()>::read_topic_content(Some(bytes.to_vec()), id(*value))
}

fn loaded_over(frames: &[(u128, &[u8])]) -> Vec<(u8, String, Scru128Id)> {
    let mut watcher = watcher();
    let mut loaded = Vec::new();
    for (value, bytes) in frames {
        watcher.on_event(Event::Frame(frame("serve.nu", *value, Some("h"))));
        let actions = watcher.on_event(Event::Content(Ok(bytes.to_vec())));
        if let [TopicAction::Load(Enrichment::ModulesAt(base, at), script)] = actions.as_slice() {
            loaded.push((**base, script.clone(), *at));
            watcher.on_event(Event::Made(Some(4)));
            watcher.on_event(Event::Sent(true));
        }
    }
    loaded
}

fn last_loaded(frames: &[(u128, &[u8])]) -> Option<(String, Scru128Id)> {
    loaded_over(frames).pop().map(|(_, script, at)| (script, at))
}

#[test]
fn handlers_are_loaded_in_order_from_the_base_engine() {
    let frames: [(u128, &[u8]); 3] = [(1, b"a"), (2, b"\xff"), (3, b"b")];
    assert_eq!(
        loaded_over(&frames),
        vec![(9, "a".to_string(), id(1)), (9, "b".to_string(), id(3))]
    );
}

#[test]
fn a_restart_finds_what_the_watch_runs() {
    let good: [(u128, &[u8]); 2] = [(1, b"{|req| 1}"), (2, b"{|req| 2}")];
    assert_eq!(last_loaded(&good), Some(("{|req| 2}".to_string(), id(2))));
    assert_eq!(handler_after(&good), last_loaded(&good));
    let mended: [(u128, &[u8]); 2] = [(1, b"\xff"), (2, b"{|req| 2}")];
    assert_eq!(handler_after(&mended), last_loaded(&mended));
}

#[test]
fn a_restart_on_content_that_is_no_text_finds_nothing() {
    let broken: [(u128, &[u8]); 2] = [(1, b"{|req| 1}"), (2, b"\xff")];
    assert_eq!(last_loaded(&broken), Some(("{|req| 1}".to_string(), id(1))));
    assert_eq!(handler_after(&broken), None);
}

#[test]
fn a_first_script_that_is_no_good_is_not_replaced() {
    let store = Store::from_inner((), "store".to_string());
    let content = Some(("{".to_string(), id(5)));
    let load = store.topic_source(TEMPLATE, "serve.nu", false, 9u8, content);
    assert_eq!(load.script, "{");
    assert!(load.on_made(None).is_empty());
}

#[test]
fn the_engine_is_sent_before_the_watch_starts() {
    let store = Store::from_inner((), "store".to_string());
    let load = store.topic_source(TEMPLATE, "serve.nu", true, 9u8, None);
    let actions = load.on_made(Some(4));
    assert!(matches!(actions.as_slice(), [FirstAction::Send(4), FirstAction::Watch(_)]));
}

#[test]
fn a_topic_is_loaded_frame_by_frame() {
    let log: [(u128, &[u8]); 3] = [(1, b"a"), (2, b"b"), (3, b"c")];
    let store = Store::from_inner((), "store".to_string());
    // The second frame is the latest when the topic is read.
    let content = Store::<()>::read_topic_content(Some(log[1].1.to_vec()), id(2));
    let load = store.topic_source(TEMPLATE, "serve.nu", true, 9u8, content);
    let mut loaded = vec![load.script.clone()];
    let (mut sent, watcher) = split(load.on_made(Some(12)));
    let mut watcher = watcher.unwrap();
    let after = watcher.query().after.unwrap();
    for (value, bytes) in log.iter().filter(|(value, _)| id(*value) > after) {
        watcher.on_event(Event::Frame(frame("serve.nu", *value, Some("h"))));
        for action in watcher.on_event(Event::Content(Ok(bytes.to_vec()))) {
            if let TopicAction::Load(_, script) = action {
                loaded.push(script);
            }
        }
        for action in watcher.on_event(Event::Made(Some(10 + *value as u8))) {
            if let TopicAction::Send(engine) = action {
                sent.push(engine);
            }
        }
        watcher.on_event(Event::Sent(true));
    }
    assert_eq!(loaded, vec!["b", "c"]);
    assert_eq!(sent, vec![12, 13]);
}

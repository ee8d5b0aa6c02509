use watchbind::config::{Config, TomlConfig};
use watchbind::keybindings::{parse_raw, Key};
use watchbind::tui::{
    refresh_sleep, Dispatcher, Event, PendingExecution, RefreshActor, RequestedAction,
};

fn bindings_config(binds: Vec<(&str, Vec<&str>)>) -> Config {
    let raw = binds
        .into_iter()
        .map(|(k, ops)| (k.to_string(), ops.into_iter().map(|o| o.to_string()).collect()))
        .collect();
    let cli = TomlConfig {
        watched_command: Some("ls".to_string()),
        interval_ms: None,
        header_lines: None,
        initial_env_variables: None,
        keybindings: Some(raw),
    };
    Config::parse(cli, None).unwrap()
}

fn output(lines: Vec<&str>) -> Event {
    Event::CommandOutput(Ok(lines.into_iter().map(|l| l.to_string()).collect()))
}

#[test]
fn exit_key_terminates_and_later_events_are_ignored() {
    // the binding line "q:exit" parses to a single exit operation
    let (key, ops) = watchbind::keybindings::parse_str("q:exit").unwrap();
    assert_eq!(key, "q");
    let table = parse_raw(vec![(key, ops)]).unwrap();
    assert_eq!(table, vec![(Key::Char('q'), vec![watchbind::keybindings::Operation::Exit])]);

    let config = bindings_config(vec![]);
    let mut d = Dispatcher::new();
    assert!(!d.exited());

    let actions = d.handle_event(&config.keybindings, output(vec!["a", "b"]));
    assert!(actions.is_empty());
    assert_eq!(d.state().lines().len(), 2);

    // "q" is bound to exit by default; dispatching it stops the loop
    let actions = d.handle_event(&config.keybindings, Event::KeyPressed(Key::Char('q')));
    assert_eq!(actions, vec![RequestedAction::Exit]);
    assert!(d.exited());

    // once exited, nothing is processed any more
    let actions = d.handle_event(&config.keybindings, output(vec!["x"]));
    assert!(actions.is_empty());
    assert_eq!(d.state().lines().len(), 2);
}

#[test]
fn exit_stops_a_binding_mid_sequence() {
    let config = bindings_config(vec![("x", vec!["down", "exit", "down"])]);
    let mut d = Dispatcher::new();
    d.handle_event(&config.keybindings, output(vec!["a", "b", "c"]));

    let actions = d.handle_event(&config.keybindings, Event::KeyPressed(Key::Char('x')));
    assert_eq!(
        actions,
        vec![RequestedAction::Continue, RequestedAction::Exit]
    );
    assert!(d.exited());
    // the first `down` ran, the one after `exit` did not
    assert_eq!(d.state().cursor(), Some(1));
}

#[test]
fn unbound_keys_do_nothing() {
    let config = bindings_config(vec![]);
    let mut d = Dispatcher::new();
    d.handle_event(&config.keybindings, output(vec!["a"]));
    let actions = d.handle_event(&config.keybindings, Event::KeyPressed(Key::F(9)));
    assert!(actions.is_empty());
    assert!(!d.exited());
}

#[test]
fn reload_key_requests_a_wake() {
    let config = bindings_config(vec![]);
    let mut d = Dispatcher::new();
    let actions = d.handle_event(&config.keybindings, Event::KeyPressed(Key::Char('r')));
    assert_eq!(actions, vec![RequestedAction::Reload]);
}

#[test]
fn foreground_execution_suppresses_keys_but_not_output() {
    let config = bindings_config(vec![("e", vec!["echo FILE"])]);
    let mut d = Dispatcher::new();
    d.handle_event(&config.keybindings, output(vec!["alpha", "beta"]));

    let actions = d.handle_event(&config.keybindings, Event::KeyPressed(Key::Char('e')));
    assert_eq!(
        actions,
        vec![RequestedAction::Block(PendingExecution {
            command: "echo FILE".to_string(),
            line: Some("alpha".to_string()),
        })]
    );
    assert!(d.keys_suppressed());

    // fresh output still lands while the execution is in flight
    let actions = d.handle_event(&config.keybindings, output(vec!["gamma", "delta"]));
    assert!(actions.is_empty());
    assert_eq!(d.state().lines()[0], "gamma");

    // key presses are ignored while the execution is in flight
    let actions = d.handle_event(&config.keybindings, Event::KeyPressed(Key::Char('j')));
    assert!(actions.is_empty());
    assert_eq!(d.state().cursor(), Some(0));

    // once it resolves, keys work again
    d.resolve(Ok(()));
    assert!(!d.keys_suppressed());
    let actions = d.handle_event(&config.keybindings, Event::KeyPressed(Key::Char('j')));
    assert_eq!(actions, vec![RequestedAction::Continue]);
    assert_eq!(d.state().cursor(), Some(1));
}

#[test]
fn detached_execution_never_suppresses_keys() {
    let config = bindings_config(vec![("b", vec!["touch marker &"])]);
    let mut d = Dispatcher::new();
    d.handle_event(&config.keybindings, output(vec!["one"]));

    let actions = d.handle_event(&config.keybindings, Event::KeyPressed(Key::Char('b')));
    assert_eq!(
        actions,
        vec![RequestedAction::Detach(PendingExecution {
            command: "touch marker &".to_string(),
            line: Some("one".to_string()),
        })]
    );
    assert!(!d.keys_suppressed());
}

#[test]
fn one_key_may_spawn_several_foreground_executions() {
    let config = bindings_config(vec![("x", vec!["cmd one", "cmd two"])]);
    let mut d = Dispatcher::new();
    d.handle_event(&config.keybindings, output(vec!["row"]));

    let actions = d.handle_event(&config.keybindings, Event::KeyPressed(Key::Char('x')));
    assert_eq!(actions.len(), 2);
    assert!(d.keys_suppressed());
    d.resolve(Ok(()));
    assert!(d.keys_suppressed());
    d.resolve(Ok(()));
    assert!(!d.keys_suppressed());
}

#[test]
fn failed_execution_is_surfaced_not_fatal() {
    let config = bindings_config(vec![("e", vec!["false"])]);
    let mut d = Dispatcher::new();
    d.handle_event(&config.keybindings, output(vec!["one"]));
    d.handle_event(&config.keybindings, Event::KeyPressed(Key::Char('e')));
    d.resolve(Err("command failed with exit status 1".to_string()));
    assert!(!d.exited());
    assert!(!d.keys_suppressed());
    assert_eq!(
        d.last_error(),
        &Some("command failed with exit status 1".to_string())
    );
}

#[test]
fn refresh_failure_keeps_the_previous_snapshot() {
    let config = bindings_config(vec![]);
    let mut d = Dispatcher::new();
    d.handle_event(&config.keybindings, output(vec!["kept"]));

    let actions = d.handle_event(
        &config.keybindings,
        Event::CommandOutput(Err("watched command failed".to_string())),
    );
    assert!(actions.is_empty());
    assert_eq!(d.state().lines()[0], "kept");
    assert_eq!(d.last_error(), &Some("watched command failed".to_string()));

    // the next successful refresh clears the error
    d.handle_event(&config.keybindings, output(vec!["fresh"]));
    assert_eq!(d.state().lines()[0], "fresh");
    assert_eq!(d.last_error(), &None);
}

#[test]
fn refresh_replaces_the_snapshot_and_keeps_cursor_in_bounds() {
    let config = bindings_config(vec![]);
    let mut d = Dispatcher::new();
    d.handle_event(&config.keybindings, output(vec!["a", "b", "c", "d", "e"]));
    d.handle_event(&config.keybindings, Event::KeyPressed(Key::Char('G')));
    assert_eq!(d.state().cursor(), Some(4));

    d.handle_event(&config.keybindings, output(vec!["a", "b"]));
    assert_eq!(d.state().cursor(), Some(1));
}

#[test]
fn wakes_during_a_run_coalesce_into_one_extra_refresh() {
    // zero interval: the actor only refreshes on explicit wakes
    let mut actor = RefreshActor::new();
    assert_eq!(actor.refreshes, 1);

    // two reloads arrive while the first run is still underway
    actor.wake();
    actor.wake();
    actor.finish_run();

    // the buffered wake starts exactly one extra run
    assert!(actor.poll(false));
    assert_eq!(actor.refreshes, 2);
    actor.finish_run();

    // no wake is left: the actor stays asleep
    assert!(!actor.poll(false));
    assert_eq!(actor.refreshes, 2);
}

#[test]
fn a_wake_during_the_sleep_starts_a_run_at_once() {
    let mut actor = RefreshActor::new();
    actor.finish_run();
    assert!(!actor.poll(false));
    actor.wake();
    assert!(actor.poll(false));
    assert_eq!(actor.refreshes, 2);
}

#[test]
fn timeouts_drive_the_periodic_refresh() {
    let mut actor = RefreshActor::new();
    actor.finish_run();
    assert!(actor.poll(true));
    assert_eq!(actor.refreshes, 2);
    // a poll while running changes nothing
    assert!(!actor.poll(true));
    assert_eq!(actor.refreshes, 2);
}

#[test]
fn refresh_sleep_respects_the_interval() {
    assert_eq!(refresh_sleep(0, 500), None);
    assert_eq!(refresh_sleep(1000, 300), Some(700));
    assert_eq!(refresh_sleep(1000, 1000), Some(0));
    assert_eq!(refresh_sleep(1000, 2500), Some(0));
}

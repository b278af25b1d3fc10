use enki::event::{AgentState, CliAdapter, Event};

#[test]
fn terminal_line_becomes_cli_input_event() {
    let _state = AgentState::new();
    match CliAdapter::event_for_line("hello agent".to_string()) {
        Event::CliInput(line) => assert_eq!(line, "hello agent"),
        _ => panic!("expected a terminal input event"),
    }
}

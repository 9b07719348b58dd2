use cvars::{Console, Cvars, HistoryLine, Value};

fn fixture() -> Cvars {
    let mut cvars = Cvars::new();
    cvars.register("g_bool", Value::Bool(true), false).unwrap();
    cvars.register("g_int", Value::I32(42), false).unwrap();
    cvars
}

fn texts(console: &Console) -> Vec<(String, bool)> {
    console.history.iter().map(|l| (l.text.clone(), l.is_input)).collect()
}

fn run(console: &mut Console, cvars: &mut Cvars, cmd: &str) {
    console.prompt = cmd.to_owned();
    console.enter(cvars);
}

#[test]
fn test_new_console() {
    let console = Console::new();
    assert_eq!(console.prompt, "");
    assert!(console.history.is_empty());
    assert_eq!(console.history_view_end, 0);
}

#[test]
fn test_history_line() {
    let line = HistoryLine::new("abc".to_owned(), true);
    assert_eq!(line.text, "abc");
    assert!(line.is_input);
}

#[test]
fn test_query_and_set() {
    let mut console = Console::new();
    let mut cvars = fixture();
    run(&mut console, &mut cvars, "g_int");
    run(&mut console, &mut cvars, "  g_int   43 ");
    run(&mut console, &mut cvars, "g_int");
    assert_eq!(console.prompt, "");
    assert_eq!(
        texts(&console),
        vec![
            ("g_int".to_owned(), true),
            ("42".to_owned(), false),
            ("  g_int   43 ".to_owned(), true),
            ("g_int".to_owned(), true),
            ("43".to_owned(), false),
        ]
    );
    assert_eq!(console.history_view_end, 5);
    assert_eq!(cvars.get::<i32>("g_int"), Ok(43));
}

#[test]
fn test_errors_are_printed() {
    let mut console = Console::new();
    let mut cvars = fixture();
    run(&mut console, &mut cvars, "bla");
    run(&mut console, &mut cvars, "g_int x");
    run(&mut console, &mut cvars, "g_int 1 2");
    assert_eq!(
        texts(&console),
        vec![
            ("bla".to_owned(), true),
            ("Cvar named bla not found".to_owned(), false),
            ("g_int x".to_owned(), true),
            ("failed to parse x as type i32: invalid digit found in string".to_owned(), false),
            ("g_int 1 2".to_owned(), true),
            ("expected only cvar name and value, found 2".to_owned(), false),
        ]
    );
    assert_eq!(cvars.get::<i32>("g_int"), Ok(42));
}

#[test]
fn test_help_and_empty() {
    let mut console = Console::new();
    let mut cvars = fixture();
    run(&mut console, &mut cvars, "   ");
    assert_eq!(texts(&console), vec![("   ".to_owned(), true)]);
    run(&mut console, &mut cvars, "help");
    run(&mut console, &mut cvars, "? g_int 5");
    assert_eq!(console.history.len(), 11);
    assert_eq!(console.history[2].text, "Available actions:");
    assert_eq!(console.history[3].text, "    help                 Print this message");
    assert_eq!(console.history[6].text, "? g_int 5");
    assert_eq!(console.history[10].text, "    <cvar name> <value>  Set the cvar's value");
    assert_eq!(cvars.get::<i32>("g_int"), Ok(42));
}

#[test]
fn test_history_walk() {
    let mut console = Console::new();
    let mut cvars = fixture();
    run(&mut console, &mut cvars, "g_int");
    run(&mut console, &mut cvars, "g_bool");
    console.prompt = "typing".to_owned();

    console.history_back();
    assert_eq!(console.prompt, "g_bool");
    console.history_back();
    assert_eq!(console.prompt, "g_int");
    console.history_back();
    assert_eq!(console.prompt, "g_int");

    console.history_forward();
    assert_eq!(console.prompt, "g_bool");
    console.history_forward();
    assert_eq!(console.prompt, "typing");
    console.history_forward();
    assert_eq!(console.prompt, "typing");
}

#[test]
fn test_history_back_empty() {
    let mut console = Console::new();
    console.prompt = "abc".to_owned();
    console.history_back();
    assert_eq!(console.prompt, "abc");
    console.print("output only");
    console.history_back();
    assert_eq!(console.prompt, "abc");
}

#[test]
fn test_scrolling() {
    let mut console = Console::new();
    console.history_scroll_up(3);
    assert_eq!(console.history_view_end, 0);
    for i in 0..5 {
        console.print(&format!("line {i}"));
    }
    assert_eq!(console.history_view_end, 5);
    console.history_scroll_up(2);
    assert_eq!(console.history_view_end, 3);
    console.history_scroll_up(10);
    assert_eq!(console.history_view_end, 1);
    console.history_scroll_down(2);
    assert_eq!(console.history_view_end, 3);
    console.history_scroll_down(usize::MAX);
    assert_eq!(console.history_view_end, 5);
}

#[test]
fn test_enter_through_dyn() {
    let mut console = Console::new();
    let mut cvars = fixture();
    let dynamic: &mut dyn cvars::SetGet = &mut cvars;
    console.prompt = "g_bool f".to_owned();
    console.enter(dynamic);
    console.prompt = "g_bool".to_owned();
    console.enter(dynamic);
    assert_eq!(console.history.last().unwrap().text, "false");
    assert_eq!(cvars.get::<bool>("g_bool"), Ok(false));
}

#[test]
fn test_walk_after_enter_restores_typed_prompt() {
    let mut console = Console::new();
    let mut cvars = fixture();
    run(&mut console, &mut cvars, "g_int");
    console.set_prompt("a".to_owned());
    console.history_back();
    assert_eq!(console.prompt, "g_int");
    console.enter(&mut cvars);
    console.set_prompt("c".to_owned());
    console.history_back();
    assert_eq!(console.prompt, "g_int");
    console.history_forward();
    assert_eq!(console.prompt, "c");
    console.history_forward();
    assert_eq!(console.prompt, "c");
}

#[test]
fn test_set_prompt() {
    let mut console = Console::new();
    console.set_prompt("g_bool".to_owned());
    assert_eq!(console.prompt, "g_bool");
    assert!(console.history.is_empty());
}

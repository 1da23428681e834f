use task_lists::model::{List, Task};
use task_lists::{load_lists, parse_lists, render_lists, App};

fn list(name: &str, tasks: Vec<Task>) -> List {
    List { name: name.to_string(), tasks }
}

fn task(name: &str, completed: bool) -> Task {
    Task { name: name.to_string(), completed }
}

#[test]
fn render_empty_collection() {
    assert_eq!(render_lists(&Vec::new()), "[]");
}

#[test]
fn render_exact_text() {
    let lists = vec![
        list("A", vec![task("Milk", false), task("Eggs", true)]),
        list("B", vec![]),
    ];
    let expected = "[\n  { \"name\": \"A\", \"tasks\": [\n    { \"name\": \"Milk\", \"completed\": false },\n    { \"name\": \"Eggs\", \"completed\": true }\n  ] },\n  { \"name\": \"B\", \"tasks\": [] }\n]";
    assert_eq!(render_lists(&lists), expected);
}

#[test]
fn render_escapes_quotes_and_backslashes() {
    let lists = vec![list("a\"b\\c", vec![])];
    let expected = "[\n  { \"name\": \"a\\\"b\\\\c\", \"tasks\": [] }\n]";
    assert_eq!(render_lists(&lists), expected);
}

fn assert_round_trip(lists: Vec<List>) {
    let text = render_lists(&lists);
    let back = parse_lists(&text).expect("rendered text must parse");
    assert_eq!(back.len(), lists.len());
    for (orig, parsed) in lists.iter().zip(back.iter()) {
        assert_eq!(orig.name, parsed.name);
        assert_eq!(orig.tasks.len(), parsed.tasks.len());
        for (a, b) in orig.tasks.iter().zip(parsed.tasks.iter()) {
            assert_eq!(a.name, b.name);
            assert_eq!(a.completed, b.completed);
        }
    }
}

#[test]
fn round_trip_empty() {
    assert_round_trip(Vec::new());
}

#[test]
fn round_trip_rich_collection() {
    assert_round_trip(vec![
        list("Groceries", vec![task("Milk", true), task("Eggs", false)]),
        list("Work", vec![]),
        list("odd \"name\" \\ with, stuff\n", vec![task("{ \"x\": [] }", true)]),
    ]);
}

#[test]
fn round_trip_through_app_save() {
    let mut app = App::new(Vec::new());
    app.create_list("a".to_string()).unwrap();
    app.add_task_to_selected_list("x".to_string()).unwrap();
    app.toggle_selected_task_status();
    let text = app.save_lists();
    let back = load_lists(&text);
    assert_eq!(back.len(), 1);
    assert_eq!(back[0].name, "a");
    assert_eq!(back[0].tasks.len(), 1);
    assert_eq!(back[0].tasks[0].name, "x");
    assert!(back[0].tasks[0].completed);
}

#[test]
fn corrupt_text_is_refused() {
    assert!(parse_lists("").is_none());
    assert!(parse_lists("{").is_none());
    assert!(parse_lists("[").is_none());
    assert!(parse_lists("[\n]").is_none());
    assert!(parse_lists("[]x").is_none());
    assert!(parse_lists("[\n  { \"name\": \"a\", \"tasks\": [] }").is_none());
    assert!(parse_lists("nonsense").is_none());
}

#[test]
fn load_falls_back_to_empty_on_corrupt_text() {
    assert_eq!(load_lists("not json").len(), 0);
    assert_eq!(load_lists("[]").len(), 0);
    let loaded = load_lists("[\n  { \"name\": \"a\", \"tasks\": [] }\n]");
    assert_eq!(loaded.len(), 1);
    assert_eq!(loaded[0].name, "a");
}

use plzplz::utils::{
    press_tick, render_pick, render_ticks, selected_positions, set_tick, Key, MultiSelectItem,
    PickItem, Picker, Step, Ticking,
};

fn items(ticks: &[bool]) -> Vec<MultiSelectItem> {
    ticks
        .iter()
        .enumerate()
        .map(|(i, t)| MultiSelectItem { label: format!("item {i}"), hint: format!("hint {i}"), selected: *t })
        .collect()
}

fn ticks(items: &[MultiSelectItem]) -> Vec<bool> {
    items.iter().map(|i| i.selected).collect()
}

#[test]
fn picker_moves_and_chooses() {
    let matches = vec![4, 7, 9];
    let mut p = Picker::new();
    assert_eq!(p.press(Key::Up, &matches), Step::Going);
    assert_eq!(p.cursor, 0);
    assert_eq!(p.press(Key::Down, &matches), Step::Going);
    assert_eq!(p.press(Key::Down, &matches), Step::Going);
    assert_eq!(p.press(Key::Down, &matches), Step::Going);
    assert_eq!(p.cursor, 2);
    assert_eq!(p.press(Key::Enter, &matches), Step::Chosen(9));
    assert_eq!(p.press(Key::Up, &matches), Step::Going);
    assert_eq!(p.press(Key::Enter, &matches), Step::Chosen(7));
    assert_eq!(p.press(Key::Other, &matches), Step::Going);
    assert_eq!(p.cursor, 1);
    assert_eq!(p.press(Key::Cancel, &matches), Step::Cancelled);
    assert_eq!(p.press(Key::Enter, &vec![]), Step::Going);
    assert_eq!(p.press(Key::Down, &vec![]), Step::Going);
    assert_eq!(p.cursor, 1);
}

#[test]
fn picker_types_and_holds_the_mark() {
    let matches = vec![0, 1, 2];
    let mut p = Picker::new();
    p.press(Key::Down, &matches);
    assert_eq!(p.press(Key::Char('b'), &matches), Step::Going);
    assert_eq!(p.press(Key::Char('ü'), &matches), Step::Going);
    assert_eq!(p.query, "bü");
    assert_eq!(p.cursor, 0);
    p.press(Key::Down, &matches);
    assert_eq!(p.press(Key::Backspace, &matches), Step::Going);
    assert_eq!(p.query, "b");
    assert_eq!(p.cursor, 0);
    p.press(Key::Backspace, &matches);
    p.press(Key::Backspace, &matches);
    assert_eq!(p.query, "");
    p.cursor = 5;
    p.hold(3);
    assert_eq!(p.cursor, 2);
    p.hold(0);
    assert_eq!(p.cursor, 0);
    p.cursor = 1;
    p.hold(2);
    assert_eq!(p.cursor, 1);
}

#[test]
fn ticks_are_flipped_and_submitted() {
    let mut list = items(&[false, true, false]);
    let mut cursor = 0;
    assert!(matches!(press_tick(&mut list, &mut cursor, Key::Char(' '), false), Ticking::Going));
    assert_eq!(ticks(&list), vec![true, true, false]);
    assert!(matches!(press_tick(&mut list, &mut cursor, Key::Char(' '), false), Ticking::Going));
    assert_eq!(ticks(&list), vec![false, true, false]);
    assert!(matches!(press_tick(&mut list, &mut cursor, Key::Char('x'), false), Ticking::Going));
    assert!(matches!(press_tick(&mut list, &mut cursor, Key::Down, false), Ticking::Going));
    assert!(matches!(press_tick(&mut list, &mut cursor, Key::Down, false), Ticking::Going));
    assert!(matches!(press_tick(&mut list, &mut cursor, Key::Down, false), Ticking::Going));
    assert_eq!(cursor, 2);
    match press_tick(&mut list, &mut cursor, Key::Enter, true) {
        Ticking::Submitted(chosen) => assert_eq!(chosen, vec![1, 2]),
        other => panic!("{other:?}"),
    }
    assert_eq!(list[2].label, "item 2");
    assert_eq!(list[2].hint, "hint 2");
    assert!(matches!(press_tick(&mut list, &mut cursor, Key::Up, false), Ticking::Going));
    assert_eq!(cursor, 1);
    assert!(matches!(press_tick(&mut list, &mut cursor, Key::Cancel, false), Ticking::Cancelled));
    assert_eq!(selected_positions(&list), vec![1, 2]);
}

#[test]
fn an_empty_list_submits_nothing_where_something_is_required() {
    let mut list = items(&[]);
    let mut cursor = 0;
    assert!(matches!(press_tick(&mut list, &mut cursor, Key::Enter, true), Ticking::Going));
    assert!(matches!(press_tick(&mut list, &mut cursor, Key::Char(' '), true), Ticking::Going));
    match press_tick(&mut list, &mut cursor, Key::Enter, false) {
        Ticking::Submitted(chosen) => assert!(chosen.is_empty()),
        other => panic!("{other:?}"),
    }
}

#[test]
fn set_tick_keeps_the_rest() {
    let mut list = items(&[false, false, true]);
    set_tick(&mut list, 1, true);
    set_tick(&mut list, 2, false);
    assert_eq!(ticks(&list), vec![false, true, false]);
    let labels: Vec<&str> = list.iter().map(|i| i.label.as_str()).collect();
    assert_eq!(labels, vec!["item 0", "item 1", "item 2"]);
}

#[test]
fn tick_list_is_drawn() {
    let mut list = items(&[true, false]);
    list[1].hint = String::new();
    assert_eq!(
        render_ticks("Which templates?", &list, 1),
        vec![
            "\x1b[36m◆\x1b[0m  Which templates?",
            "\x1b[36m│\x1b[0m  \x1b[32m◼\x1b[0m item 0 \x1b[2mhint 0\x1b[0m",
            "\x1b[36m│\x1b[0m  ◻ \x1b[1mitem 1\x1b[0m",
            "\x1b[36m│\x1b[0m",
            "\x1b[36m└\x1b[0m  \x1b[2mspace=toggle / enter=confirm / esc=cancel\x1b[0m",
        ]
    );
    assert_eq!(render_ticks("?", &vec![], 0).len(), 3);
}

#[test]
fn pick_list_is_drawn() {
    let all = vec![
        PickItem { label: "build".to_string(), description: "Compile".to_string(), preview: None },
        PickItem {
            label: "test".to_string(),
            description: String::new(),
            preview: Some("[tasks.test]\nrun = \"cargo test\"".to_string()),
        },
    ];
    assert_eq!(
        render_pick(&all, &vec![0, 1], 1, "t", "Enter to run · Esc to cancel"),
        vec![
            "\x1b[36m◆\x1b[0m  Type the name of a task: \x1b[4mt\x1b[0m",
            "\x1b[36m│\x1b[0m  ○ build \x1b[2mCompile\x1b[0m",
            "\x1b[36m│\x1b[0m  \x1b[36m●\x1b[0m \x1b[1mtest\x1b[0m",
            "\x1b[36m│\x1b[0m",
            "\x1b[36m│\x1b[0m  \x1b[33m[tasks.test]\x1b[0m",
            "\x1b[36m│\x1b[0m  \x1b[33mrun = \"cargo test\"\x1b[0m",
            "\x1b[36m│\x1b[0m",
            "\x1b[36m└\x1b[0m  \x1b[2mEnter to run · Esc to cancel\x1b[0m",
        ]
    );
    assert_eq!(
        render_pick(&all, &vec![], 0, "zzz", "f"),
        vec![
            "\x1b[36m◆\x1b[0m  Type the name of a task: \x1b[4mzzz\x1b[0m",
            "\x1b[36m│\x1b[0m  \x1b[2mNo matches\x1b[0m",
            "\x1b[36m│\x1b[0m",
            "\x1b[36m└\x1b[0m  \x1b[2mf\x1b[0m",
        ]
    );
    assert_eq!(render_pick(&all, &vec![0], 0, "", "f").len(), 4);
}

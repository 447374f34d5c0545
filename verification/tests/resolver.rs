use chatter_macros::branch::BranchTable;
use chatter_macros::error::ChatterError;
use chatter_macros::resolver::{
    next_position, next_successor, resolve, resolve_choice, resolve_choices, resolve_entry,
    resolve_line,
};
use chatter_macros::script::{copy_tags, Chat, Choice, ResolvedChat, ResolvedChoice};

fn line(text: &str, goto: Option<&str>) -> Chat {
    Chat::Line { text: text.to_string(), tags: Vec::new(), goto: goto.map(|g| g.to_string()) }
}

fn choice(text: &str, goto: Option<&str>) -> Choice {
    Choice { text: text.to_string(), tags: Vec::new(), goto: goto.map(|g| g.to_string()) }
}

fn resolved_line(text: &str, next: Option<usize>) -> ResolvedChat {
    ResolvedChat::Line { text: text.to_string(), tags: Vec::new(), next }
}

fn resolved_choice(text: &str, next: Option<usize>) -> ResolvedChoice {
    ResolvedChoice { text: text.to_string(), tags: Vec::new(), next }
}

fn table(bindings: &[(&str, usize)]) -> BranchTable {
    let mut branches = BranchTable::new();
    for (label, position) in bindings {
        branches.insert(label.to_string(), *position);
    }
    branches
}

fn unresolved(label: &str) -> ChatterError {
    ChatterError::UnresolvedLabel { label: label.to_string() }
}

#[test]
fn line_falls_through_and_goto_loops_back() {
    let content = vec![line("Hi", None), line("Bye", Some("start"))];
    let branches = table(&[("start", 0)]);
    let resolved = resolve(&content, &branches).unwrap();
    assert_eq!(resolved, vec![resolved_line("Hi", Some(1)), resolved_line("Bye", Some(0))]);
}

#[test]
fn lone_choice_group_is_terminal() {
    let content = vec![Chat::Choices(vec![choice("Yes", None), choice("No", None)])];
    let branches = BranchTable::new();
    let resolved = resolve(&content, &branches).unwrap();
    assert_eq!(
        resolved,
        vec![ResolvedChat::Choices(vec![resolved_choice("Yes", None), resolved_choice("No", None)])]
    );
}

#[test]
fn script_without_gotos_runs_in_order() {
    let content = vec![
        line("one", None),
        Chat::Choices(vec![choice("a", None), choice("b", None), choice("c", None)]),
        line("three", None),
        line("four", None),
    ];
    let resolved = resolve(&content, &BranchTable::new()).unwrap();
    assert_eq!(
        resolved,
        vec![
            resolved_line("one", Some(1)),
            ResolvedChat::Choices(vec![
                resolved_choice("a", Some(2)),
                resolved_choice("b", Some(2)),
                resolved_choice("c", Some(2)),
            ]),
            resolved_line("three", Some(3)),
            resolved_line("four", None),
        ]
    );
}

#[test]
fn empty_script_resolves_to_nothing() {
    assert_eq!(resolve(&Vec::new(), &BranchTable::new()), Ok(Vec::new()));
    assert_eq!(resolve(&Vec::new(), &table(&[("unused", 0)])), Ok(Vec::new()));
}

#[test]
fn goto_reaches_forward_and_backward() {
    let content = vec![
        line("zero", Some("far")),
        line("one", None),
        line("two", Some("near")),
        line("three", Some("far")),
    ];
    let branches = table(&[("near", 1), ("far", 3)]);
    let resolved = resolve(&content, &branches).unwrap();
    assert_eq!(
        resolved,
        vec![
            resolved_line("zero", Some(3)),
            resolved_line("one", Some(2)),
            resolved_line("two", Some(1)),
            resolved_line("three", Some(3)),
        ]
    );
}

#[test]
fn goto_to_label_at_the_end_is_terminal() {
    let content = vec![line("zero", Some("end")), line("one", None)];
    let branches = table(&[("end", 2)]);
    let resolved = resolve(&content, &branches).unwrap();
    assert_eq!(resolved, vec![resolved_line("zero", None), resolved_line("one", None)]);
}

#[test]
fn each_choice_resolves_on_its_own() {
    let content = vec![
        Chat::Choices(vec![choice("stay", Some("here")), choice("go", Some("there")), choice("on", None)]),
        line("middle", None),
        line("last", None),
    ];
    let branches = table(&[("here", 0), ("there", 2)]);
    let resolved = resolve(&content, &branches).unwrap();
    assert_eq!(
        resolved[0],
        ResolvedChat::Choices(vec![
            resolved_choice("stay", Some(0)),
            resolved_choice("go", Some(2)),
            resolved_choice("on", Some(1)),
        ])
    );
}

#[test]
fn undeclared_label_is_named() {
    let content = vec![line("Hi", Some("nowhere"))];
    assert_eq!(resolve(&content, &BranchTable::new()), Err(unresolved("nowhere")));
    assert_eq!(resolve(&content, &table(&[("somewhere", 0)])), Err(unresolved("nowhere")));
}

#[test]
fn first_undeclared_label_in_text_order_is_named() {
    let content = vec![
        line("fine", Some("known")),
        Chat::Choices(vec![
            choice("a", None),
            choice("b", Some("second")),
            choice("c", Some("third")),
        ]),
        line("late", Some("fourth")),
    ];
    let branches = table(&[("known", 0)]);
    assert_eq!(resolve(&content, &branches), Err(unresolved("second")));
}

#[test]
fn next_position_follows_goto_or_steps_on() {
    let branches = table(&[("start", 0), ("end", 9)]);
    assert_eq!(next_position(4, &None, &branches), Ok(5));
    assert_eq!(next_position(0, &None, &branches), Ok(1));
    assert_eq!(next_position(4, &Some("start".to_string()), &branches), Ok(0));
    assert_eq!(next_position(4, &Some("end".to_string()), &branches), Ok(9));
    assert_eq!(next_position(usize::MAX, &Some("end".to_string()), &branches), Ok(9));
    assert_eq!(next_position(4, &Some("nowhere".to_string()), &branches), Err(unresolved("nowhere")));
}

#[test]
fn next_successor_ends_past_the_last_entry() {
    let branches = table(&[("start", 0), ("last", 2), ("end", 3)]);
    assert_eq!(next_successor(0, 3, &None, &branches), Ok(Some(1)));
    assert_eq!(next_successor(1, 3, &None, &branches), Ok(Some(2)));
    assert_eq!(next_successor(2, 3, &None, &branches), Ok(None));
    assert_eq!(next_successor(7, 3, &None, &branches), Ok(None));
    assert_eq!(next_successor(usize::MAX, 3, &None, &branches), Ok(None));
    assert_eq!(next_successor(usize::MAX, usize::MAX, &None, &branches), Ok(None));
    assert_eq!(next_successor(0, 0, &None, &branches), Ok(None));
    assert_eq!(next_successor(2, 3, &Some("start".to_string()), &branches), Ok(Some(0)));
    assert_eq!(next_successor(0, 3, &Some("last".to_string()), &branches), Ok(Some(2)));
    assert_eq!(next_successor(0, 3, &Some("end".to_string()), &branches), Ok(None));
    assert_eq!(
        next_successor(0, 3, &Some("nowhere".to_string()), &branches),
        Err(unresolved("nowhere"))
    );
}

#[test]
fn resolve_line_keeps_text_and_tags() {
    let branches = table(&[("start", 0)]);
    let tags = vec!["happy".to_string(), "loud".to_string(), "happy".to_string()];
    let resolved =
        resolve_line(1, 2, &branches, &"Bye".to_string(), &tags, &Some("start".to_string()));
    assert_eq!(
        resolved,
        Ok(ResolvedChat::Line { text: "Bye".to_string(), tags: tags.clone(), next: Some(0) })
    );
    let failed = resolve_line(1, 2, &branches, &"Bye".to_string(), &tags, &Some("x".to_string()));
    assert_eq!(failed, Err(unresolved("x")));
}

#[test]
fn resolve_choice_starts_from_the_group() {
    let branches = table(&[("start", 0)]);
    let plain = Choice { text: "Yes".to_string(), tags: vec!["t".to_string()], goto: None };
    assert_eq!(
        resolve_choice(3, 6, &branches, &plain),
        Ok(ResolvedChoice { text: "Yes".to_string(), tags: vec!["t".to_string()], next: Some(4) })
    );
    assert_eq!(
        resolve_choice(5, 6, &branches, &plain),
        Ok(ResolvedChoice { text: "Yes".to_string(), tags: vec!["t".to_string()], next: None })
    );
    assert_eq!(resolve_choice(5, 6, &branches, &choice("No", Some("gone"))), Err(unresolved("gone")));
}

#[test]
fn resolve_choices_fails_at_first_undeclared_label() {
    let branches = table(&[("start", 0)]);
    let group = vec![choice("a", Some("start")), choice("b", Some("x")), choice("c", Some("y"))];
    assert_eq!(resolve_choices(0, 1, &branches, &group), Err(unresolved("x")));
    let fine = vec![choice("a", Some("start")), choice("b", None)];
    assert_eq!(
        resolve_choices(0, 1, &branches, &fine),
        Ok(ResolvedChat::Choices(vec![resolved_choice("a", Some(0)), resolved_choice("b", None)]))
    );
    assert_eq!(resolve_choices(0, 1, &branches, &Vec::new()), Ok(ResolvedChat::Choices(Vec::new())));
}

#[test]
fn resolve_entry_handles_both_kinds() {
    let branches = table(&[("start", 0)]);
    assert_eq!(resolve_entry(0, 2, &branches, &line("Hi", None)), Ok(resolved_line("Hi", Some(1))));
    assert_eq!(
        resolve_entry(1, 2, &branches, &Chat::Choices(vec![choice("a", Some("start"))])),
        Ok(ResolvedChat::Choices(vec![resolved_choice("a", Some(0))]))
    );
    assert_eq!(resolve_entry(1, 2, &branches, &line("Hi", Some("z"))), Err(unresolved("z")));
}

#[test]
fn resolving_twice_gives_the_same_sequence() {
    let content = vec![line("Hi", None), line("Bye", Some("start"))];
    let branches = table(&[("start", 0)]);
    assert_eq!(resolve(&content, &branches), resolve(&content, &branches));
    assert_eq!(content, vec![line("Hi", None), line("Bye", Some("start"))]);
    assert_eq!(branches.get("start"), Some(0));
}

#[test]
fn copy_tags_keeps_order_and_duplicates() {
    let tags = vec!["b".to_string(), "a".to_string(), "b".to_string()];
    assert_eq!(copy_tags(&tags), tags);
    assert_eq!(copy_tags(&Vec::new()), Vec::<String>::new());
}

#[test]
fn branch_table_binds_and_rebinds() {
    let mut branches = BranchTable::new();
    assert_eq!(branches.len(), 0);
    assert_eq!(branches.get("a"), None);
    assert!(!branches.contains("a"));
    branches.insert("a".to_string(), 1);
    branches.insert("b".to_string(), 2);
    assert_eq!(branches.get("a"), Some(1));
    assert_eq!(branches.get("b"), Some(2));
    assert!(branches.contains("a"));
    assert_eq!(branches.len(), 2);
    branches.insert("a".to_string(), 5);
    assert_eq!(branches.get("a"), Some(5));
    assert_eq!(branches.len(), 2);
    assert_eq!(branches.get(""), None);
}

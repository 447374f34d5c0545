use chatter_macros::error::{ChatterError, SyntaxError, UNEXPECTED_ERROR, UNRESOLVED_LABEL};
use chatter_macros::node::{Node, NodeKind};
use chatter_macros::script::{ResolvedChat, ResolvedChoice};
use chatter_macros::{chatter, get_contents};

fn text_node(kind: NodeKind, text: &str) -> Node {
    Node::new(kind, text.to_string(), Vec::new())
}

fn wrapping(kind: NodeKind, label: &str) -> Node {
    Node::new(kind, label.to_string(), vec![text_node(NodeKind::Label, label)])
}

fn entry_parts(text: &str, goto: Option<&str>) -> Vec<Node> {
    let mut children = vec![text_node(NodeKind::Text, text)];
    if let Some(label) = goto {
        children.push(wrapping(NodeKind::Goto, label));
    }
    children
}

fn line_of(text: &str, goto: Option<&str>) -> Node {
    Node::new(NodeKind::Line, text.to_string(), entry_parts(text, goto))
}

fn group_of(choices: &[(&str, Option<&str>)]) -> Node {
    let children = choices
        .iter()
        .map(|(text, goto)| Node::new(NodeKind::Choice, text.to_string(), entry_parts(text, *goto)))
        .collect();
    Node::new(NodeKind::Choices, String::new(), children)
}

fn plain_line(text: &str, next: Option<usize>) -> ResolvedChat {
    ResolvedChat::Line { text: text.to_string(), tags: Vec::new(), next }
}

fn plain_choice(text: &str, next: Option<usize>) -> ResolvedChoice {
    ResolvedChoice { text: text.to_string(), tags: Vec::new(), next }
}

#[test]
fn compiles_lines_with_a_loop() {
    let nodes = vec![
        wrapping(NodeKind::Branch, "start"),
        line_of("Hi", None),
        line_of("Bye", Some("start")),
        text_node(NodeKind::EndOfInput, ""),
    ];
    assert_eq!(chatter(Ok(nodes)), Ok(vec![plain_line("Hi", Some(1)), plain_line("Bye", Some(0))]));
}

#[test]
fn compiles_a_lone_choice_group() {
    let nodes = vec![group_of(&[("Yes", None), ("No", None)]), text_node(NodeKind::EndOfInput, "")];
    assert_eq!(
        chatter(Ok(nodes)),
        Ok(vec![ResolvedChat::Choices(vec![plain_choice("Yes", None), plain_choice("No", None)])])
    );
}

#[test]
fn trailing_goto_serves_choices_without_their_own() {
    let nodes = vec![
        line_of("zero", None),
        group_of(&[("first", Some("m")), ("second", None)]),
        wrapping(NodeKind::Goto, "l"),
        wrapping(NodeKind::Branch, "m"),
        line_of("two", None),
        wrapping(NodeKind::Branch, "l"),
        line_of("three", None),
        text_node(NodeKind::EndOfInput, ""),
    ];
    assert_eq!(
        chatter(Ok(nodes)),
        Ok(vec![
            plain_line("zero", Some(1)),
            ResolvedChat::Choices(vec![plain_choice("first", Some(2)), plain_choice("second", Some(3))]),
            plain_line("two", Some(3)),
            plain_line("three", None),
        ])
    );
}

#[test]
fn forward_and_backward_gotos_compile() {
    let nodes = vec![
        line_of("zero", Some("ahead")),
        wrapping(NodeKind::Branch, "back"),
        line_of("one", None),
        wrapping(NodeKind::Branch, "ahead"),
        line_of("two", Some("back")),
        line_of("three", Some("end")),
        wrapping(NodeKind::Branch, "end"),
    ];
    assert_eq!(
        chatter(Ok(nodes)),
        Ok(vec![
            plain_line("zero", Some(2)),
            plain_line("one", Some(2)),
            plain_line("two", Some(1)),
            plain_line("three", None),
        ])
    );
}

#[test]
fn document_without_gotos_falls_through() {
    let nodes = vec![
        line_of("zero", None),
        wrapping(NodeKind::Branch, "unused"),
        group_of(&[("a", None), ("b", None)]),
        line_of("two", None),
    ];
    assert_eq!(
        chatter(Ok(nodes)),
        Ok(vec![
            plain_line("zero", Some(1)),
            ResolvedChat::Choices(vec![plain_choice("a", Some(2)), plain_choice("b", Some(2))]),
            plain_line("two", None),
        ])
    );
}

#[test]
fn undeclared_label_stops_the_compilation() {
    let nodes = vec![line_of("Hi", None), line_of("Bye", Some("nowhere"))];
    assert_eq!(
        chatter(Ok(nodes)),
        Err(ChatterError::UnresolvedLabel { label: "nowhere".to_string() })
    );
    let nodes = vec![
        line_of("Hi", None),
        wrapping(NodeKind::Goto, "late"),
        text_node(NodeKind::EndOfInput, ""),
        wrapping(NodeKind::Branch, "late"),
    ];
    assert_eq!(
        chatter(Ok(nodes)),
        Err(ChatterError::UnresolvedLabel { label: "late".to_string() })
    );
}

#[test]
fn leading_goto_marker_is_rejected() {
    let nodes = vec![
        wrapping(NodeKind::Goto, "start"),
        wrapping(NodeKind::Branch, "start"),
        line_of("Hi", None),
        text_node(NodeKind::EndOfInput, ""),
    ];
    assert_eq!(chatter(Ok(nodes)), Err(ChatterError::InternalContract));
}

#[test]
fn contract_violation_comes_before_unresolved_label() {
    let nodes = vec![line_of("Hi", Some("nowhere")), text_node(NodeKind::Text, "stray")];
    assert_eq!(chatter(Ok(nodes)), Err(ChatterError::InternalContract));
}

#[test]
fn matcher_failure_is_passed_on() {
    let fault = SyntaxError { message: "expected line".to_string(), line: 3, column: 7 };
    let same = SyntaxError { message: "expected line".to_string(), line: 3, column: 7 };
    assert_eq!(chatter(Err(fault)), Err(ChatterError::Syntax(same)));
}

#[test]
fn empty_document_compiles_to_nothing() {
    assert_eq!(chatter(Ok(Vec::new())), Ok(Vec::new()));
}

#[test]
fn messages_tell_the_errors_apart() {
    let fault = SyntaxError { message: " --> 3:7 expected line".to_string(), line: 3, column: 7 };
    assert_eq!(ChatterError::Syntax(fault).message(), " --> 3:7 expected line");
    assert_eq!(
        ChatterError::UnresolvedLabel { label: "nowhere".to_string() }.message(),
        "Goto names a branch that is never declared: nowhere"
    );
    assert_eq!(
        ChatterError::UnresolvedLabel { label: String::new() }.message(),
        UNRESOLVED_LABEL
    );
    assert_eq!(ChatterError::InternalContract.message(), UNEXPECTED_ERROR);
    assert!(UNEXPECTED_ERROR.starts_with("Unexpected error encountered."));
}

#[test]
fn get_contents_strips_the_raw_string_marks() {
    assert_eq!(get_contents("r#\"Hi\"#"), Some("Hi".to_string()));
    assert_eq!(get_contents("r#\"\"#"), Some(String::new()));
    assert_eq!(get_contents("r#\"\n  Hi \"there\"\n\"#"), Some("\n  Hi \"there\"\n".to_string()));
    assert_eq!(get_contents("r#\"héllo → wörld\"#"), Some("héllo → wörld".to_string()));
    assert_eq!(get_contents("r#\"r#\"x\"#\"#"), Some("r#\"x\"#".to_string()));
}

#[test]
fn get_contents_refuses_other_input() {
    assert_eq!(get_contents(""), None);
    assert_eq!(get_contents("Hi"), None);
    assert_eq!(get_contents("\"Hi\""), None);
    assert_eq!(get_contents("r\"Hi\""), None);
    assert_eq!(get_contents("r##\"Hi\"##"), None);
    assert_eq!(get_contents("r#\"#"), None);
    assert_eq!(get_contents("r#\"Hi\""), None);
    assert_eq!(get_contents("r#\"Hi\"# "), None);
    assert_eq!(get_contents(" r#\"Hi\"#"), None);
    assert_eq!(get_contents("R#\"Hi\"#"), None);
}

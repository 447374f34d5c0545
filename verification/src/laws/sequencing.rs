//! Laws of the sequencer: what becomes of the nodes of a document.

use crate::compiled;
use crate::error::ChatterErrorView;
use crate::laws::resolving::{
    all_declared, goto_at, has_goto, law_fallthrough, law_successor_in_range,
    law_successor_of_each_goto, law_undeclared_label, without_gotos,
};
use crate::node::Node;
use crate::parser::{
    choice_with_goto, choices_of, entry_with_goto, line_of, read_part, read_parts, requested,
    sequence_from, sequence_step, sequenced, wrapped_label, Fields, Script,
};
use crate::resolver::{resolved, successor};
use crate::script::{gotos_of, successors_of, tags_of, texts_of, ChatView, ResolvedChatView};
use vstd::prelude::*;

verus! {

/// Whether every line and every choice of the entry has a goto.
pub open spec fn saturated(entry: ChatView) -> bool {
    forall|k: int| 0 <= k < gotos_of(entry).len() ==> (#[trigger] gotos_of(entry)[k]) is Some
}

/// The entry that a line or choice-group node stands for.
pub open spec fn entry_of(node: Node) -> Option<ChatView> {
    if node.kind is Line {
        line_of(node)
    } else if node.kind is Choices {
        choices_of(node)
    } else {
        None
    }
}

/// Whether none of the nodes with index below `upto` ends the input.
pub open spec fn before_end(nodes: Seq<Node>, upto: int) -> bool {
    forall|i: int| 0 <= i < upto && i < nodes.len() ==> !((#[trigger] nodes[i]).kind is EndOfInput)
}

/// A goto marker gives its label to exactly the lines and choices that
/// have no goto yet: a goto that is there already stays.
pub proof fn law_first_goto_wins(entry: ChatView, branch: Seq<char>, k: int)
    requires
        0 <= k < gotos_of(entry).len(),
    ensures
        gotos_of(entry_with_goto(entry, branch)).len() == gotos_of(entry).len(),
        gotos_of(entry)[k] is Some ==> gotos_of(entry_with_goto(entry, branch))[k] == gotos_of(
            entry,
        )[k],
        gotos_of(entry)[k] is None ==> gotos_of(entry_with_goto(entry, branch))[k] == Some(branch),
{
}

/// A goto marker changes no text and no tag, and keeps a line a line and
/// a choice group a choice group with as many choices.
pub proof fn law_marker_keeps_texts(entry: ChatView, branch: Seq<char>)
    ensures
        entry is Line <==> entry_with_goto(entry, branch) is Line,
        texts_of(entry_with_goto(entry, branch)) == texts_of(entry),
        tags_of(entry_with_goto(entry, branch)) == tags_of(entry),
{
    let after = entry_with_goto(entry, branch);
    assert(texts_of(after) =~= texts_of(entry));
    assert(tags_of(after) =~= tags_of(entry));
}

/// After a goto marker every line and every choice of the entry has a
/// goto.
pub proof fn law_marker_saturates(entry: ChatView, branch: Seq<char>)
    ensures
        saturated(entry_with_goto(entry, branch)),
{
}

/// A second goto marker after the same entry changes nothing.
pub proof fn law_second_marker_ignored(entry: ChatView, first: Seq<char>, second: Seq<char>)
    ensures
        entry_with_goto(entry_with_goto(entry, first), second) == entry_with_goto(entry, first),
{
    law_marker_saturates(entry, first);
    law_saturated_entry_is_settled(entry_with_goto(entry, first), second);
}

/// A goto marker changes nothing of an entry in which every line and
/// choice has a goto already.
pub proof fn law_saturated_entry_is_settled(entry: ChatView, branch: Seq<char>)
    requires
        saturated(entry),
    ensures
        entry_with_goto(entry, branch) == entry,
{
    match entry {
        ChatView::Line { text, tags, goto } => {
            assert(gotos_of(entry)[0] is Some);
        },
        ChatView::Choices(choices) => {
            let after = Seq::new(choices.len(), |i: int| choice_with_goto(choices[i], branch));
            assert forall|i: int| 0 <= i < choices.len() implies after[i] == choices[i] by {
                assert(gotos_of(entry)[i] is Some);
            }
            assert(after =~= choices);
        },
    }
}

/// The nodes up to index `mid` can be sequenced first and the others
/// after them, as long as the input does not end before `mid`.
proof fn lemma_split(script: Script, nodes: Seq<Node>, from: int, mid: int)
    requires
        0 <= from <= mid <= nodes.len(),
        before_end(nodes, mid),
    ensures
        sequence_from(script, nodes, from) == match sequence_from(script, nodes.take(mid), from) {
            Some(middle) => sequence_from(middle, nodes, mid),
            None => None,
        },
    decreases mid - from,
{
    if from < mid {
        match sequence_step(script, nodes[from]) {
            Some(next) => {
                lemma_split(next, nodes, from + 1, mid);
            },
            None => {},
        }
    }
}

/// Sequencing further nodes removes no entry, and changes no entry but
/// the last one, and not even that one once it is saturated.
proof fn lemma_settled(script: Script, nodes: Seq<Node>, from: int, position: int)
    requires
        0 <= from,
        sequence_from(script, nodes, from) is Some,
        0 <= position < script.entries.len(),
        position < script.entries.len() - 1 || saturated(script.entries[position]),
    ensures
        sequence_from(script, nodes, from).unwrap().entries.len() >= script.entries.len(),
        sequence_from(script, nodes, from).unwrap().entries[position] == script.entries[position],
    decreases nodes.len() - from,
{
    if from < nodes.len() && !(nodes[from].kind is EndOfInput) {
        let next = sequence_step(script, nodes[from]).unwrap();
        if nodes[from].kind is Goto {
            let branch = wrapped_label(nodes[from]).unwrap();
            if position == script.entries.len() - 1 {
                law_saturated_entry_is_settled(script.entries[position], branch);
            }
        }
        lemma_settled(next, nodes, from + 1, position);
    }
}

/// An entry that a goto marker follows directly.
///
/// Let the node at index `at` be a line or a choice group and the next
/// node a goto marker, in a document that admits a script. Then the entry
/// stands at the position that the number of entries before it gives, and
/// each of its gotos is the inline one where the node has one, and the
/// marker's label where it has none. The successor is resolved from that
/// goto.
pub proof fn law_trailing_goto(nodes: Seq<Node>, at: int, k: int)
    requires
        sequenced(nodes) is Some,
        0 <= at,
        at + 1 < nodes.len(),
        before_end(nodes, at + 2),
        entry_of(nodes[at]) is Some,
        nodes[at + 1].kind is Goto,
        0 <= k < gotos_of(entry_of(nodes[at]).unwrap()).len(),
    ensures
        sequenced(nodes.take(at)) is Some,
        wrapped_label(nodes[at + 1]) is Some,
        ({
            let script = sequenced(nodes).unwrap();
            let position = sequenced(nodes.take(at)).unwrap().entries.len() as int;
            let inline = gotos_of(entry_of(nodes[at]).unwrap())[k];
            let marker = wrapped_label(nodes[at + 1]).unwrap();
            &&& has_goto(script.entries, position, k)
            &&& inline is Some ==> goto_at(script.entries, position, k) == inline
            &&& inline is None ==> goto_at(script.entries, position, k) == Some(marker)
            &&& successors_of(resolved(script.entries, script.branches)[position])[k] == successor(
                position,
                script.entries.len() as int,
                requested(inline, marker),
                script.branches,
            )
        }),
{
    let start = Script { entries: Seq::empty(), branches: Map::empty() };
    lemma_split(start, nodes, 0, at);
    let before = sequenced(nodes.take(at)).unwrap();
    let position = before.entries.len() as int;
    let entry = entry_of(nodes[at]).unwrap();
    let first = sequence_step(before, nodes[at]).unwrap();
    let marker = wrapped_label(nodes[at + 1]).unwrap();
    let second = sequence_step(first, nodes[at + 1]).unwrap();
    assert(sequence_from(first, nodes, at + 1) == sequence_from(second, nodes, at + 2));
    law_first_goto_wins(entry, marker, k);
    law_marker_saturates(entry, marker);
    lemma_settled(second, nodes, at + 2, position);
    let script = sequenced(nodes).unwrap();
    law_successor_of_each_goto(script.entries, script.branches, position, k);
}

/// A goto marker that no entry precedes is refused: a document in which
/// the nodes before a goto marker yield no entry admits no script, and
/// compiling it reports a node of unexpected shape.
pub proof fn law_marker_without_entry(nodes: Seq<Node>, at: int)
    requires
        0 <= at < nodes.len(),
        before_end(nodes, at + 1),
        nodes[at].kind is Goto,
        sequenced(nodes.take(at)) matches Some(before) ==> before.entries.len() == 0,
    ensures
        sequenced(nodes) is None,
        compiled(nodes) == Err::<Seq<ResolvedChatView>, ChatterErrorView>(
            ChatterErrorView::InternalContract,
        ),
{
    lemma_split(Script { entries: Seq::empty(), branches: Map::empty() }, nodes, 0, at);
}

/// Whether every label is bound to the position of an entry or to the
/// position after the last one.
pub open spec fn labels_in_range(script: Script) -> bool {
    forall|name: Seq<char>|
        script.branches.contains_key(name) ==> 0 <= #[trigger] script.branches[name]
            <= script.entries.len()
}

proof fn lemma_labels_in_range(script: Script, nodes: Seq<Node>, from: int)
    requires
        0 <= from,
        labels_in_range(script),
        sequence_from(script, nodes, from) is Some,
    ensures
        labels_in_range(sequence_from(script, nodes, from).unwrap()),
    decreases nodes.len() - from,
{
    if from < nodes.len() && !(nodes[from].kind is EndOfInput) {
        let next = sequence_step(script, nodes[from]).unwrap();
        lemma_labels_in_range(next, nodes, from + 1);
    }
}

/// Every label of a script is bound to the position of an entry, or to
/// the position after the last entry. So every successor that resolution
/// gives is the position of an entry.
pub proof fn law_labels_in_range(nodes: Seq<Node>)
    requires
        sequenced(nodes) is Some,
    ensures
        labels_in_range(sequenced(nodes).unwrap()),
{
    lemma_labels_in_range(Script { entries: Seq::empty(), branches: Map::empty() }, nodes, 0);
}

/// Whether no branch node with an index from `from` on declares `name`.
pub open spec fn not_declared_from(nodes: Seq<Node>, from: int, name: Seq<char>) -> bool {
    forall|i: int|
        from <= i < nodes.len() && (#[trigger] nodes[i]).kind is Branch ==> wrapped_label(nodes[i])
            != Some(name)
}

proof fn lemma_binding_stays(script: Script, nodes: Seq<Node>, from: int, name: Seq<char>)
    requires
        0 <= from,
        script.branches.contains_key(name),
        not_declared_from(nodes, from, name),
        sequence_from(script, nodes, from) is Some,
    ensures
        sequence_from(script, nodes, from).unwrap().branches.contains_key(name),
        sequence_from(script, nodes, from).unwrap().branches[name] == script.branches[name],
    decreases nodes.len() - from,
{
    if from < nodes.len() && !(nodes[from].kind is EndOfInput) {
        let next = sequence_step(script, nodes[from]).unwrap();
        lemma_binding_stays(next, nodes, from + 1, name);
    }
}

/// A label stands for the position of the entry that follows its
/// declaration: the number of entries before it. Where a label is
/// declared more than once, the last declaration counts.
pub proof fn law_branch_position(nodes: Seq<Node>, at: int)
    requires
        sequenced(nodes) is Some,
        0 <= at < nodes.len(),
        before_end(nodes, at + 1),
        nodes[at].kind is Branch,
        wrapped_label(nodes[at]) matches Some(name) ==> not_declared_from(nodes, at + 1, name),
    ensures
        sequenced(nodes.take(at)) is Some,
        wrapped_label(nodes[at]) is Some,
        sequenced(nodes).unwrap().branches.contains_key(wrapped_label(nodes[at]).unwrap()),
        sequenced(nodes).unwrap().branches[wrapped_label(nodes[at]).unwrap()] == sequenced(
            nodes.take(at),
        ).unwrap().entries.len(),
{
    let start = Script { entries: Seq::empty(), branches: Map::empty() };
    lemma_split(start, nodes, 0, at);
    let before = sequenced(nodes.take(at)).unwrap();
    let next = sequence_step(before, nodes[at]).unwrap();
    let name = wrapped_label(nodes[at]).unwrap();
    lemma_binding_stays(next, nodes, at + 1, name);
}

/// Whether no child of the node is a goto.
pub open spec fn without_goto_part(node: Node) -> bool {
    forall|i: int| 0 <= i < node.children@.len() ==> !((#[trigger] node.children@[i]).kind is Goto)
}

/// Whether the document uses no goto: no goto marker, and no goto inside
/// a line or a choice.
pub open spec fn goto_free(nodes: Seq<Node>) -> bool {
    forall|i: int|
        0 <= i < nodes.len() ==> {
            &&& !((#[trigger] nodes[i]).kind is Goto)
            &&& nodes[i].kind is Line ==> without_goto_part(nodes[i])
            &&& nodes[i].kind is Choices ==> forall|j: int|
                0 <= j < nodes[i].children@.len() ==> without_goto_part(
                    #[trigger] nodes[i].children@[j],
                )
        }
}

proof fn lemma_parts_without_goto(fields: Fields, parts: Seq<Node>, from: int)
    requires
        0 <= from,
        fields.goto is None,
        forall|i: int| 0 <= i < parts.len() ==> !((#[trigger] parts[i]).kind is Goto),
        read_parts(fields, parts, from) is Some,
    ensures
        read_parts(fields, parts, from).unwrap().goto is None,
    decreases parts.len() - from,
{
    if from < parts.len() {
        let next = read_part(fields, parts[from]).unwrap();
        lemma_parts_without_goto(next, parts, from + 1);
    }
}

proof fn lemma_entry_without_goto(node: Node)
    requires
        entry_of(node) is Some,
        node.kind is Line ==> without_goto_part(node),
        node.kind is Choices ==> forall|j: int|
            0 <= j < node.children@.len() ==> without_goto_part(#[trigger] node.children@[j]),
    ensures
        forall|k: int|
            0 <= k < gotos_of(entry_of(node).unwrap()).len() ==> (#[trigger] gotos_of(
                entry_of(node).unwrap(),
            )[k]) is None,
{
    let empty = Fields { text: None, tags: Seq::empty(), goto: None };
    if node.kind is Line {
        lemma_parts_without_goto(empty, node.children@, 0);
    } else {
        let entry = entry_of(node).unwrap();
        assert forall|k: int| 0 <= k < gotos_of(entry).len() implies (#[trigger] gotos_of(
            entry,
        )[k]) is None by {
            let child = node.children@[k];
            lemma_parts_without_goto(empty, child.children@, 0);
        }
    }
}

proof fn lemma_without_gotos(script: Script, nodes: Seq<Node>, from: int)
    requires
        0 <= from,
        goto_free(nodes),
        without_gotos(script.entries),
        sequence_from(script, nodes, from) is Some,
    ensures
        without_gotos(sequence_from(script, nodes, from).unwrap().entries),
    decreases nodes.len() - from,
{
    if from < nodes.len() && !(nodes[from].kind is EndOfInput) {
        let node = nodes[from];
        let next = sequence_step(script, node).unwrap();
        assert(without_gotos(next.entries)) by {
            if node.kind is Line || node.kind is Choices {
                lemma_entry_without_goto(node);
                assert forall|position: int, k: int|
                    has_goto(next.entries, position, k) implies (#[trigger] goto_at(
                    next.entries,
                    position,
                    k,
                )) is None by {
                    if position < script.entries.len() {
                        assert(goto_at(script.entries, position, k) is None);
                    }
                }
            }
        }
        lemma_without_gotos(next, nodes, from + 1);
    }
}

/// A document that uses no goto, if it admits a script, compiles, and to
/// a sequence in which every entry leads to the one after it and the last
/// entry leads nowhere.
pub proof fn law_document_without_gotos(nodes: Seq<Node>, position: int, k: int)
    requires
        goto_free(nodes),
        sequenced(nodes) is Some,
        has_goto(sequenced(nodes).unwrap().entries, position, k),
    ensures
        without_gotos(sequenced(nodes).unwrap().entries),
        compiled(nodes) matches Ok(sequence) && sequence.len() == sequenced(
            nodes,
        ).unwrap().entries.len() && (position + 1 < sequence.len() ==> successors_of(
            sequence[position],
        )[k] == Some(position + 1)) && (position + 1 == sequence.len() ==> successors_of(
            sequence[position],
        )[k] is None),
{
    let start = Script { entries: Seq::empty(), branches: Map::empty() };
    lemma_without_gotos(start, nodes, 0);
    let script = sequenced(nodes).unwrap();
    law_fallthrough(script.entries, script.branches, position, k);
}

/// Whether `after` is `entry` itself, or `entry` with a goto marker
/// applied to it.
pub open spec fn entry_or_marked(entry: ChatView, after: ChatView) -> bool {
    after == entry || exists|branch: Seq<char>| after == #[trigger] entry_with_goto(entry, branch)
}

proof fn lemma_last_entry(script: Script, nodes: Seq<Node>, from: int)
    requires
        0 <= from,
        script.entries.len() > 0,
        sequence_from(script, nodes, from) is Some,
    ensures
        sequence_from(script, nodes, from).unwrap().entries.len() >= script.entries.len(),
        entry_or_marked(
            script.entries.last(),
            sequence_from(script, nodes, from).unwrap().entries[script.entries.len() - 1],
        ),
    decreases nodes.len() - from,
{
    let position = script.entries.len() - 1;
    if from < nodes.len() && !(nodes[from].kind is EndOfInput) {
        let next = sequence_step(script, nodes[from]).unwrap();
        if nodes[from].kind is Goto {
            let branch = wrapped_label(nodes[from]).unwrap();
            law_marker_saturates(script.entries.last(), branch);
            lemma_settled(next, nodes, from + 1, position);
        } else if nodes[from].kind is Branch {
            lemma_last_entry(next, nodes, from + 1);
        } else {
            lemma_settled(next, nodes, from + 1, position);
        }
    }
}

/// Positions are dense and follow the order of the text: a line or a
/// choice group takes the next position, and no other node takes one.
pub proof fn law_entry_positions(nodes: Seq<Node>, at: int)
    requires
        sequenced(nodes) is Some,
        0 <= at < nodes.len(),
        before_end(nodes, at + 1),
    ensures
        sequenced(nodes.take(at)) is Some,
        sequenced(nodes.take(at + 1)) is Some,
        sequenced(nodes.take(at + 1)).unwrap().entries.len() == sequenced(
            nodes.take(at),
        ).unwrap().entries.len() + (if entry_of(nodes[at]) is Some {
            1int
        } else {
            0int
        }),
        sequenced(nodes.take(at + 1)).unwrap().entries.len() <= sequenced(
            nodes,
        ).unwrap().entries.len(),
{
    let start = Script { entries: Seq::empty(), branches: Map::empty() };
    let longer = nodes.take(at + 1);
    lemma_split(start, nodes, 0, at + 1);
    lemma_split(start, longer, 0, at);
    assert(longer.take(at) =~= nodes.take(at));
    let before = sequenced(nodes.take(at)).unwrap();
    let next = sequence_step(before, nodes[at]).unwrap();
    assert(sequence_from(before, longer, at) == sequence_from(next, longer, at + 1));
    let after = sequenced(longer).unwrap();
    if after.entries.len() > 0 {
        lemma_last_entry(after, nodes, at + 1);
    }
}

/// What becomes of a line or a choice group.
///
/// Let the node at index `at` be a line or a choice group in a document
/// that admits a script. Then its entry stands at the position that the
/// number of entries before it gives, and it is what the node holds, or
/// that with one goto marker applied: texts, tags and inline gotos are as
/// in the node.
pub proof fn law_entry_of_node(nodes: Seq<Node>, at: int)
    requires
        sequenced(nodes) is Some,
        0 <= at < nodes.len(),
        before_end(nodes, at + 1),
        nodes[at].kind is Line || nodes[at].kind is Choices,
    ensures
        sequenced(nodes.take(at)) is Some,
        entry_of(nodes[at]) is Some,
        sequenced(nodes.take(at)).unwrap().entries.len() < sequenced(nodes).unwrap().entries.len(),
        ({
            let position = sequenced(nodes.take(at)).unwrap().entries.len() as int;
            entry_or_marked(
                entry_of(nodes[at]).unwrap(),
                sequenced(nodes).unwrap().entries[position],
            )
        }),
{
    let start = Script { entries: Seq::empty(), branches: Map::empty() };
    lemma_split(start, nodes, 0, at);
    let before = sequenced(nodes.take(at)).unwrap();
    let next = sequence_step(before, nodes[at]).unwrap();
    lemma_last_entry(next, nodes, at + 1);
}

/// A document with a goto to a label that it never declares does not
/// compile: the error names such a label, and there is no sequence.
pub proof fn law_undeclared_label_fails(nodes: Seq<Node>)
    requires
        sequenced(nodes) is Some,
        !all_declared(sequenced(nodes).unwrap().entries, sequenced(nodes).unwrap().branches),
    ensures
        compiled(nodes) matches Err(ChatterErrorView::UnresolvedLabel { label })
            && !sequenced(nodes).unwrap().branches.contains_key(label),
{
    let script = sequenced(nodes).unwrap();
    law_undeclared_label(script.entries, script.branches);
}

/// In the sequence that a document compiles to, there is an entry for
/// each entry of the script, and every successor is the position of an
/// entry of the sequence.
pub proof fn law_compiled_successors_in_range(nodes: Seq<Node>, position: int, k: int)
    requires
        compiled(nodes) is Ok,
        has_goto(sequenced(nodes).unwrap().entries, position, k),
    ensures
        compiled(nodes) matches Ok(sequence) && sequence.len() == sequenced(
            nodes,
        ).unwrap().entries.len() && (successors_of(sequence[position])[k] matches Some(next) ==> 0
            <= next < sequence.len()),
{
    let script = sequenced(nodes).unwrap();
    law_labels_in_range(nodes);
    law_undeclared_label(script.entries, script.branches);
    law_successor_in_range(script.entries, script.branches, position, k);
}

/// Nothing after the first end-of-input node counts: the script is that
/// of the nodes before it.
pub proof fn law_end_of_input(nodes: Seq<Node>, at: int)
    requires
        0 <= at < nodes.len(),
        before_end(nodes, at),
        nodes[at].kind is EndOfInput,
    ensures
        sequenced(nodes) == sequenced(nodes.take(at)),
{
    lemma_split(Script { entries: Seq::empty(), branches: Map::empty() }, nodes, 0, at);
}

/// Whether a branch node with an index from `from` on declares `name`.
pub open spec fn declared_from(nodes: Seq<Node>, from: int, name: Seq<char>) -> bool {
    exists|i: int|
        from <= i < nodes.len() && (#[trigger] nodes[i]).kind is Branch && wrapped_label(nodes[i])
            == Some(name)
}

proof fn lemma_only_declared_labels(script: Script, nodes: Seq<Node>, from: int, name: Seq<char>)
    requires
        0 <= from,
        sequence_from(script, nodes, from) is Some,
        sequence_from(script, nodes, from).unwrap().branches.contains_key(name),
    ensures
        script.branches.contains_key(name) || declared_from(nodes, from, name),
    decreases nodes.len() - from,
{
    if from < nodes.len() && !(nodes[from].kind is EndOfInput) {
        let next = sequence_step(script, nodes[from]).unwrap();
        lemma_only_declared_labels(next, nodes, from + 1, name);
        if declared_from(nodes, from + 1, name) {
            let i = choose|i: int|
                from + 1 <= i < nodes.len() && (#[trigger] nodes[i]).kind is Branch
                    && wrapped_label(nodes[i]) == Some(name);
            assert(from <= i < nodes.len() && nodes[i].kind is Branch);
        } else if !script.branches.contains_key(name) {
            assert(nodes[from].kind is Branch && wrapped_label(nodes[from]) == Some(name));
        }
    }
}

/// The table holds no label but those that a branch node declares.
pub proof fn law_only_declared_labels(nodes: Seq<Node>, name: Seq<char>)
    requires
        sequenced(nodes) is Some,
        sequenced(nodes).unwrap().branches.contains_key(name),
    ensures
        declared_from(nodes, 0, name),
{
    lemma_only_declared_labels(
        Script { entries: Seq::empty(), branches: Map::empty() },
        nodes,
        0,
        name,
    );
}

/// Whether a line or a choice group stands among the nodes with an index
/// from `from` up to, but not including, `upto`.
pub open spec fn entry_between(nodes: Seq<Node>, from: int, upto: int) -> bool {
    exists|j: int|
        from <= j < upto && j < nodes.len() && ((#[trigger] nodes[j]).kind is Line
            || nodes[j].kind is Choices)
}

/// Whether the sequencer accepts the node at index `at`, where
/// `entry_before` says whether an entry precedes the node at index `from`:
/// a line or a choice group that can be read, a branch that wraps a label,
/// or a goto marker that wraps a label and follows some entry.
pub open spec fn admitted(nodes: Seq<Node>, from: int, at: int, entry_before: bool) -> bool {
    let node = nodes[at];
    if node.kind is Line {
        line_of(node) is Some
    } else if node.kind is Choices {
        choices_of(node) is Some
    } else if node.kind is Branch {
        wrapped_label(node) is Some
    } else if node.kind is Goto {
        wrapped_label(node) is Some && (entry_before || entry_between(nodes, from, at))
    } else {
        false
    }
}

/// Whether the sequencer accepts every node with an index from `from` up
/// to, but not including, `end`.
pub open spec fn all_admitted(nodes: Seq<Node>, from: int, end: int, entry_before: bool) -> bool {
    forall|at: int| from <= at < end ==> #[trigger] admitted(nodes, from, at, entry_before)
}

/// Whether `end` is where the sequencer stops: the index of the first
/// end-of-input node, or the number of nodes where there is none.
pub open spec fn ends_at(nodes: Seq<Node>, end: int) -> bool {
    0 <= end <= nodes.len() && before_end(nodes, end) && (end == nodes.len()
        || nodes[end].kind is EndOfInput)
}

proof fn lemma_admitted_shift(nodes: Seq<Node>, from: int, at: int, entry_before: bool)
    requires
        0 <= from < at < nodes.len(),
    ensures
        admitted(nodes, from, at, entry_before) == admitted(
            nodes,
            from + 1,
            at,
            entry_before || nodes[from].kind is Line || nodes[from].kind is Choices,
        ),
{
    if entry_between(nodes, from, at) {
        let j = choose|j: int|
            from <= j < at && j < nodes.len() && ((#[trigger] nodes[j]).kind is Line
                || nodes[j].kind is Choices);
        if j != from {
            assert(from + 1 <= j < at && (nodes[j].kind is Line || nodes[j].kind is Choices));
        }
    }
    if entry_between(nodes, from + 1, at) {
        let j = choose|j: int|
            from + 1 <= j < at && j < nodes.len() && ((#[trigger] nodes[j]).kind is Line
                || nodes[j].kind is Choices);
        assert(from <= j < at && (nodes[j].kind is Line || nodes[j].kind is Choices));
    }
    if nodes[from].kind is Line || nodes[from].kind is Choices {
        assert(entry_between(nodes, from, at));
    }
}

proof fn lemma_admits(script: Script, nodes: Seq<Node>, from: int, end: int)
    requires
        0 <= from <= end,
        ends_at(nodes, end),
    ensures
        sequence_from(script, nodes, from) is Some <==> all_admitted(
            nodes,
            from,
            end,
            script.entries.len() > 0,
        ),
    decreases end - from,
{
    let entry_before = script.entries.len() > 0;
    if from < end {
        assert(!(nodes[from].kind is EndOfInput));
        assert(!entry_between(nodes, from, from));
        assert(admitted(nodes, from, from, entry_before) <==> sequence_step(script, nodes[from])
            is Some);
        match sequence_step(script, nodes[from]) {
            Some(next) => {
                lemma_admits(next, nodes, from + 1, end);
                let entry_next = next.entries.len() > 0;
                assert(entry_next == (entry_before || nodes[from].kind is Line
                    || nodes[from].kind is Choices));
                assert forall|at: int| from + 1 <= at < end implies admitted(
                    nodes,
                    from,
                    at,
                    entry_before,
                ) == admitted(nodes, from + 1, at, entry_next) by {
                    lemma_admitted_shift(nodes, from, at, entry_before);
                }
                if all_admitted(nodes, from + 1, end, entry_next) {
                    assert forall|at: int| from <= at < end implies #[trigger] admitted(
                        nodes,
                        from,
                        at,
                        entry_before,
                    ) by {
                        if at > from {
                            assert(admitted(nodes, from + 1, at, entry_next));
                        }
                    }
                }
                if all_admitted(nodes, from, end, entry_before) {
                    assert forall|at: int| from + 1 <= at < end implies #[trigger] admitted(
                        nodes,
                        from + 1,
                        at,
                        entry_next,
                    ) by {
                        assert(admitted(nodes, from, at, entry_before));
                    }
                }
            },
            None => {},
        }
    }
}

/// When a document admits a script.
///
/// The nodes up to the end of the input admit a script exactly when each
/// of them is a line or a choice group that can be read, a branch that
/// wraps a label, or a goto marker that wraps a label and has a line or a
/// choice group somewhere before it.
pub proof fn law_admits(nodes: Seq<Node>, end: int)
    requires
        ends_at(nodes, end),
    ensures
        sequenced(nodes) is Some <==> all_admitted(nodes, 0, end, false),
{
    lemma_admits(Script { entries: Seq::empty(), branches: Map::empty() }, nodes, 0, end);
}

} // verus!

//! Laws of reading a line or a choice: what its fields are, said of the
//! parts directly.

use crate::node::{Node, NodeKind};
use crate::parser::{fields_of, read_part, read_parts, tag_texts, wrapped_label, Fields};
use vstd::prelude::*;

verus! {

/// Whether no part with an index from `from` on has the given kind.
pub open spec fn kind_absent_from(parts: Seq<Node>, from: int, kind: NodeKind) -> bool {
    forall|j: int| from <= j < parts.len() ==> (#[trigger] parts[j]).kind != kind
}

/// Whether the part at index `i` is the last one of the given kind.
pub open spec fn last_of_kind(parts: Seq<Node>, i: int, kind: NodeKind) -> bool {
    0 <= i < parts.len() && parts[i].kind == kind && kind_absent_from(parts, i + 1, kind)
}

/// Whether the part at index `i` is the only one of the given kind.
pub open spec fn only_of_kind(parts: Seq<Node>, i: int, kind: NodeKind) -> bool {
    0 <= i < parts.len() && parts[i].kind == kind && forall|j: int|
        0 <= j < parts.len() && j != i ==> (#[trigger] parts[j]).kind != kind
}

/// Whether a part can be read: it is a text, a tag list, or a goto that
/// wraps a label.
pub open spec fn readable_part(part: Node) -> bool {
    part.kind is Text || part.kind is Tags || (part.kind is Goto && part.children@.len() > 0)
}

/// Whether every part from index `from` on can be read.
pub open spec fn readable_from(parts: Seq<Node>, from: int) -> bool {
    forall|j: int| from <= j < parts.len() ==> readable_part(#[trigger] parts[j])
}

proof fn lemma_readable(fields: Fields, parts: Seq<Node>, from: int)
    requires
        0 <= from,
    ensures
        read_parts(fields, parts, from) is Some <==> readable_from(parts, from),
    decreases parts.len() - from,
{
    if from < parts.len() {
        match read_part(fields, parts[from]) {
            Some(next) => {
                lemma_readable(next, parts, from + 1);
            },
            None => {},
        }
    }
}

proof fn lemma_text_kept(fields: Fields, parts: Seq<Node>, from: int)
    requires
        0 <= from,
        read_parts(fields, parts, from) is Some,
        kind_absent_from(parts, from, NodeKind::Text),
    ensures
        read_parts(fields, parts, from).unwrap().text == fields.text,
    decreases parts.len() - from,
{
    if from < parts.len() {
        lemma_text_kept(read_part(fields, parts[from]).unwrap(), parts, from + 1);
    }
}

proof fn lemma_last_text(fields: Fields, parts: Seq<Node>, from: int, i: int)
    requires
        0 <= from <= i,
        read_parts(fields, parts, from) is Some,
        last_of_kind(parts, i, NodeKind::Text),
    ensures
        read_parts(fields, parts, from).unwrap().text == Some(parts[i].text@),
    decreases parts.len() - from,
{
    let next = read_part(fields, parts[from]).unwrap();
    if from == i {
        lemma_text_kept(next, parts, from + 1);
    } else {
        lemma_last_text(next, parts, from + 1, i);
    }
}

proof fn lemma_goto_kept(fields: Fields, parts: Seq<Node>, from: int)
    requires
        0 <= from,
        read_parts(fields, parts, from) is Some,
        kind_absent_from(parts, from, NodeKind::Goto),
    ensures
        read_parts(fields, parts, from).unwrap().goto == fields.goto,
    decreases parts.len() - from,
{
    if from < parts.len() {
        lemma_goto_kept(read_part(fields, parts[from]).unwrap(), parts, from + 1);
    }
}

proof fn lemma_last_goto(fields: Fields, parts: Seq<Node>, from: int, i: int)
    requires
        0 <= from <= i,
        read_parts(fields, parts, from) is Some,
        last_of_kind(parts, i, NodeKind::Goto),
    ensures
        read_parts(fields, parts, from).unwrap().goto == wrapped_label(parts[i]),
        wrapped_label(parts[i]) is Some,
    decreases parts.len() - from,
{
    let next = read_part(fields, parts[from]).unwrap();
    if from == i {
        lemma_goto_kept(next, parts, from + 1);
    } else {
        lemma_last_goto(next, parts, from + 1, i);
    }
}

proof fn lemma_tags_kept(fields: Fields, parts: Seq<Node>, from: int)
    requires
        0 <= from,
        read_parts(fields, parts, from) is Some,
        kind_absent_from(parts, from, NodeKind::Tags),
    ensures
        read_parts(fields, parts, from).unwrap().tags == fields.tags,
    decreases parts.len() - from,
{
    if from < parts.len() {
        lemma_tags_kept(read_part(fields, parts[from]).unwrap(), parts, from + 1);
    }
}

proof fn lemma_only_tags(fields: Fields, parts: Seq<Node>, from: int, i: int)
    requires
        0 <= from <= i,
        read_parts(fields, parts, from) is Some,
        only_of_kind(parts, i, NodeKind::Tags),
    ensures
        read_parts(fields, parts, from).unwrap().tags == fields.tags + tag_texts(parts[i]),
    decreases parts.len() - from,
{
    let next = read_part(fields, parts[from]).unwrap();
    if from == i {
        lemma_tags_kept(next, parts, from + 1);
    } else {
        lemma_only_tags(next, parts, from + 1, i);
    }
}

/// A line or choice node can be read exactly when each of its parts is a
/// text, a tag list, or a goto that wraps a label, and one of them is a
/// text.
pub proof fn law_readable(node: Node)
    ensures
        fields_of(node) is Some <==> readable_from(node.children@, 0) && !kind_absent_from(
            node.children@,
            0,
            NodeKind::Text,
        ),
{
    let start = Fields { text: None, tags: Seq::empty(), goto: None };
    let parts = node.children@;
    lemma_readable(start, parts, 0);
    if read_parts(start, parts, 0) is Some {
        if kind_absent_from(parts, 0, NodeKind::Text) {
            lemma_text_kept(start, parts, 0);
        } else {
            lemma_some_text(start, parts, 0);
        }
    }
}

proof fn lemma_some_text(fields: Fields, parts: Seq<Node>, from: int)
    requires
        0 <= from,
        read_parts(fields, parts, from) is Some,
        !kind_absent_from(parts, from, NodeKind::Text),
    ensures
        read_parts(fields, parts, from).unwrap().text is Some,
    decreases parts.len() - from,
{
    if from < parts.len() {
        let next = read_part(fields, parts[from]).unwrap();
        if kind_absent_from(parts, from + 1, NodeKind::Text) {
            lemma_text_kept(next, parts, from + 1);
        } else {
            lemma_some_text(next, parts, from + 1);
        }
    }
}

/// The text of a line or a choice is that of its last text part.
pub proof fn law_text_of_last_text_part(node: Node, i: int)
    requires
        fields_of(node) is Some,
        last_of_kind(node.children@, i, NodeKind::Text),
    ensures
        fields_of(node).unwrap().text == Some(node.children@[i].text@),
{
    lemma_last_text(Fields { text: None, tags: Seq::empty(), goto: None }, node.children@, 0, i);
}

/// The goto of a line or a choice is the label that its last goto part
/// wraps. Without a goto part it has no goto.
pub proof fn law_goto_of_last_goto_part(node: Node, i: int)
    requires
        fields_of(node) is Some,
    ensures
        last_of_kind(node.children@, i, NodeKind::Goto) ==> fields_of(node).unwrap().goto
            == wrapped_label(node.children@[i]) && wrapped_label(node.children@[i]) is Some,
        kind_absent_from(node.children@, 0, NodeKind::Goto) ==> fields_of(
            node,
        ).unwrap().goto is None,
{
    let start = Fields { text: None, tags: Seq::empty(), goto: None };
    if last_of_kind(node.children@, i, NodeKind::Goto) {
        lemma_last_goto(start, node.children@, 0, i);
    }
    if kind_absent_from(node.children@, 0, NodeKind::Goto) {
        lemma_goto_kept(start, node.children@, 0);
    }
}

/// The tags of a line or a choice with one tag list are the tags under
/// it, in the order of the text and with nothing left out. Without a tag
/// list it has no tags.
pub proof fn law_tags_of_tag_list(node: Node, i: int)
    requires
        fields_of(node) is Some,
    ensures
        only_of_kind(node.children@, i, NodeKind::Tags) ==> fields_of(node).unwrap().tags
            == tag_texts(node.children@[i]),
        kind_absent_from(node.children@, 0, NodeKind::Tags) ==> fields_of(node).unwrap().tags
            == Seq::<Seq<char>>::empty(),
{
    let start = Fields { text: None, tags: Seq::empty(), goto: None };
    if only_of_kind(node.children@, i, NodeKind::Tags) {
        lemma_only_tags(start, node.children@, 0, i);
    }
    if kind_absent_from(node.children@, 0, NodeKind::Tags) {
        lemma_tags_kept(start, node.children@, 0);
    }
}

} // verus!

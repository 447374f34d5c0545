//! The sequencer: one forward pass over the nodes of a script that builds
//! its entries and its table of branch labels.

use crate::branch::BranchTable;
use crate::error::{ChatterError, ChatterErrorView};
use crate::node::{Node, NodeKind};
use crate::script::{
    chats_view, choices_view, label_view, texts, Chat, ChatView, Choice, ChoiceView,
};
use vstd::prelude::*;

verus! {

/// What has been read of a line or a choice.
pub struct Fields {
    pub text: Option<Seq<char>>,
    pub tags: Seq<Seq<char>>,
    pub goto: Option<Seq<char>>,
}

/// The label that a branch or goto node wraps: the text of its first
/// child. A node without children wraps none.
pub open spec fn wrapped_label(node: Node) -> Option<Seq<char>> {
    if node.children@.len() > 0 {
        Some(node.children@[0].text@)
    } else {
        None
    }
}

/// The tags under a tag list, in the order of the text.
pub open spec fn tag_texts(node: Node) -> Seq<Seq<char>> {
    Seq::new(node.children@.len(), |i: int| node.children@[i].text@)
}

/// The fields after one more part of a line or a choice: a goto sets the
/// label, a tag list adds its tags, a text sets the text. A goto without a
/// label and a part of any other kind cannot be read.
pub open spec fn read_part(fields: Fields, part: Node) -> Option<Fields> {
    match part.kind {
        NodeKind::Goto => match wrapped_label(part) {
            Some(name) => Some(Fields { goto: Some(name), ..fields }),
            None => None,
        },
        NodeKind::Tags => Some(Fields { tags: fields.tags + tag_texts(part), ..fields }),
        NodeKind::Text => Some(Fields { text: Some(part.text@), ..fields }),
        _ => None,
    }
}

/// The fields after the parts from index `from` on have been read in order.
pub open spec fn read_parts(fields: Fields, parts: Seq<Node>, from: int) -> Option<Fields>
    decreases parts.len() - from,
{
    if from < 0 || from >= parts.len() {
        Some(fields)
    } else {
        match read_part(fields, parts[from]) {
            Some(next) => read_parts(next, parts, from + 1),
            None => None,
        }
    }
}

/// The fields of a line or choice node, read from its children. The text
/// is required.
pub open spec fn fields_of(node: Node) -> Option<Fields> {
    match read_parts(
        Fields { text: None, tags: Seq::empty(), goto: None },
        node.children@,
        0,
    ) {
        Some(fields) => if fields.text is Some {
            Some(fields)
        } else {
            None
        },
        None => None,
    }
}

/// The line that a line node stands for.
pub open spec fn line_of(node: Node) -> Option<ChatView> {
    match fields_of(node) {
        Some(fields) => Some(
            ChatView::Line { text: fields.text.unwrap(), tags: fields.tags, goto: fields.goto },
        ),
        None => None,
    }
}

/// The choice that a choice node stands for.
pub open spec fn choice_of(node: Node) -> Option<ChoiceView> {
    match fields_of(node) {
        Some(fields) => Some(
            ChoiceView { text: fields.text.unwrap(), tags: fields.tags, goto: fields.goto },
        ),
        None => None,
    }
}

/// The choice group that a choice-group node stands for: the choices of
/// its children in order, provided that each of them can be read.
pub open spec fn choices_of(node: Node) -> Option<ChatView> {
    if forall|i: int|
        0 <= i < node.children@.len() ==> choice_of(#[trigger] node.children@[i]) is Some {
        Some(
            ChatView::Choices(
                Seq::new(node.children@.len(), |i: int| choice_of(node.children@[i]).unwrap()),
            ),
        )
    } else {
        None
    }
}

/// The label that `node` wraps, if it has one.
pub fn label_of(node: &Node) -> (name: Option<String>)
    ensures
        label_view(name) == wrapped_label(*node),
{
    if node.children.len() > 0 {
        Some(node.children[0].text.clone())
    } else {
        None
    }
}

/// Appends the tags under the tag list `node` to `tags`, in the order of
/// the text, without looking at what a tag holds.
pub fn collect_tags(tags: &mut Vec<String>, node: &Node)
    ensures
        texts(final(tags)@) == texts(old(tags)@) + tag_texts(*node),
{
    let mut i: usize = 0;
    while i < node.children.len()
        invariant
            i <= node.children.len(),
            tags.len() == old(tags).len() + i,
            forall|k: int| 0 <= k < old(tags).len() ==> tags[k]@ == old(tags)[k]@,
            forall|k: int| 0 <= k < i ==> tags[old(tags).len() + k]@ == node.children[k].text@,
        decreases node.children.len() - i,
    {
        tags.push(node.children[i].text.clone());
        i += 1;
    }
}

/// Reads the text, the tags and the goto label of a line or choice node.
fn parse_fields(node: &Node) -> (r: Result<(String, Vec<String>, Option<String>), ChatterError>)
    ensures
        match fields_of(*node) {
            Some(fields) => r matches Ok((text, tags, goto)) && Some(text@) == fields.text
                && texts(tags@) == fields.tags && label_view(goto) == fields.goto,
            None => r matches Err(e) && e@ == ChatterErrorView::InternalContract,
        },
{
    let mut text: Option<String> = None;
    let mut tags: Vec<String> = Vec::new();
    let mut goto: Option<String> = None;
    let ghost start = Fields { text: None, tags: Seq::empty(), goto: None };
    assert(texts(tags@) =~= Seq::empty());
    let mut i: usize = 0;
    while i < node.children.len()
        invariant
            i <= node.children.len(),
            read_parts(
                Fields { text: label_view(text), tags: texts(tags@), goto: label_view(goto) },
                node.children@,
                i as int,
            ) == read_parts(start, node.children@, 0),
            start == (Fields { text: None, tags: Seq::empty(), goto: None }),
        decreases node.children.len() - i,
    {
        let part = &node.children[i];
        match part.kind {
            NodeKind::Goto => {
                match label_of(part) {
                    Some(name) => {
                        goto = Some(name);
                    },
                    None => {
                        return Err(ChatterError::InternalContract);
                    },
                }
            },
            NodeKind::Tags => {
                collect_tags(&mut tags, part);
            },
            NodeKind::Text => {
                text = Some(part.text.clone());
            },
            _ => {
                return Err(ChatterError::InternalContract);
            },
        }
        i += 1;
    }
    match text {
        Some(text) => Ok((text, tags, goto)),
        None => Err(ChatterError::InternalContract),
    }
}

/// Reads a line node: its text, its tags in order, and its inline goto
/// label if it has one. A node without a text, with a goto that wraps no
/// label, or with a child of another kind is refused.
pub fn parse_line(line: &Node) -> (r: Result<Chat, ChatterError>)
    ensures
        match line_of(*line) {
            Some(entry) => r matches Ok(chat) && chat@ == entry,
            None => r matches Err(e) && e@ == ChatterErrorView::InternalContract,
        },
{
    match parse_fields(line) {
        Ok((text, tags, goto)) => Ok(Chat::Line { text, tags, goto }),
        Err(e) => Err(e),
    }
}

/// Reads a choice node, as a line node is read.
pub fn parse_choice(choice: &Node) -> (r: Result<Choice, ChatterError>)
    ensures
        match choice_of(*choice) {
            Some(entry) => r matches Ok(c) && c@ == entry,
            None => r matches Err(e) && e@ == ChatterErrorView::InternalContract,
        },
{
    match parse_fields(choice) {
        Ok((text, tags, goto)) => Ok(Choice { text, tags, goto }),
        Err(e) => Err(e),
    }
}

/// Reads a choice-group node: the choices of its children, in order.
pub fn parse_choices(input: &Node) -> (r: Result<Chat, ChatterError>)
    ensures
        match choices_of(*input) {
            Some(entry) => r matches Ok(chat) && chat@ == entry,
            None => r matches Err(e) && e@ == ChatterErrorView::InternalContract,
        },
{
    let mut choices: Vec<Choice> = Vec::new();
    let mut i: usize = 0;
    while i < input.children.len()
        invariant
            i <= input.children.len(),
            choices.len() == i,
            forall|k: int|
                0 <= k < i ==> choice_of(#[trigger] input.children@[k]) == Some(choices[k]@),
        decreases input.children.len() - i,
    {
        match parse_choice(&input.children[i]) {
            Ok(choice) => {
                choices.push(choice);
            },
            Err(e) => {
                return Err(e);
            },
        }
        i += 1;
    }
    let chat = Chat::Choices(choices);
    assert(chat@ == choices_of(*input).unwrap()) by {
        assert(choices_view(choices@) =~= Seq::new(
            input.children@.len(),
            |i: int| choice_of(input.children@[i]).unwrap(),
        ));
    }
    Ok(chat)
}

/// The label of a line or a choice after a goto marker that names `branch`
/// has been applied to it: a label that is already there stays.
pub open spec fn requested(goto: Option<Seq<char>>, branch: Seq<char>) -> Option<Seq<char>> {
    if goto is Some {
        goto
    } else {
        Some(branch)
    }
}

/// A choice after a goto marker that names `branch` has been applied.
pub open spec fn choice_with_goto(choice: ChoiceView, branch: Seq<char>) -> ChoiceView {
    ChoiceView { goto: requested(choice.goto, branch), ..choice }
}

/// An entry after a goto marker that names `branch` has been applied: to
/// the line, or to every choice of the group.
pub open spec fn entry_with_goto(entry: ChatView, branch: Seq<char>) -> ChatView {
    match entry {
        ChatView::Line { text, tags, goto } => ChatView::Line {
            text,
            tags,
            goto: requested(goto, branch),
        },
        ChatView::Choices(choices) => ChatView::Choices(
            Seq::new(choices.len(), |i: int| choice_with_goto(choices[i], branch)),
        ),
    }
}

/// Applies a goto marker that names `branch` to `entry`: a line, and each
/// choice of a group, takes the label unless it already has one.
pub fn apply_goto(entry: &mut Chat, branch: &String)
    ensures
        final(entry)@ == entry_with_goto(old(entry)@, branch@),
{
    match entry {
        Chat::Line { text: _, tags: _, goto } => {
            if goto.is_none() {
                *goto = Some(branch.clone());
            }
        },
        Chat::Choices(choices) => {
            let ghost before = choices@;
            let mut i: usize = 0;
            while i < choices.len()
                invariant
                    i <= choices.len(),
                    choices.len() == before.len(),
                    forall|k: int|
                        0 <= k < i ==> choices[k]@ == choice_with_goto(before[k]@, branch@),
                    forall|k: int| i <= k < choices.len() ==> choices[k] == before[k],
                decreases choices.len() - i,
            {
                if choices[i].goto.is_none() {
                    choices[i].goto = Some(branch.clone());
                }
                i += 1;
            }
            assert(choices_view(choices@) =~= Seq::new(
                before.len(),
                |i: int| choice_with_goto(choices_view(before)[i], branch@),
            ));
        },
    }
}

/// What the sequencer has built: the entries in the order of the text, and
/// the position that each declared label stands for.
pub struct Script {
    pub entries: Seq<ChatView>,
    pub branches: Map<Seq<char>, int>,
}

/// The script after one more node.
///
/// A line or a choice group becomes the next entry. A branch binds its
/// label to the position of the entry that will come next, replacing an
/// earlier binding of the same label. A goto marker is applied to the
/// entry before it. A node that cannot be read, a branch or goto without a
/// label, a goto marker before the first entry, and a node of any other
/// kind admit no script.
pub open spec fn sequence_step(script: Script, node: Node) -> Option<Script> {
    match node.kind {
        NodeKind::Line => match line_of(node) {
            Some(entry) => Some(Script { entries: script.entries.push(entry), ..script }),
            None => None,
        },
        NodeKind::Choices => match choices_of(node) {
            Some(entry) => Some(Script { entries: script.entries.push(entry), ..script }),
            None => None,
        },
        NodeKind::Branch => match wrapped_label(node) {
            Some(name) => Some(
                Script {
                    branches: script.branches.insert(name, script.entries.len() as int),
                    ..script
                },
            ),
            None => None,
        },
        NodeKind::Goto => match wrapped_label(node) {
            Some(name) => if script.entries.len() > 0 {
                Some(
                    Script {
                        entries: script.entries.update(
                            script.entries.len() - 1,
                            entry_with_goto(script.entries.last(), name),
                        ),
                        ..script
                    },
                )
            } else {
                None
            },
            None => None,
        },
        _ => None,
    }
}

/// The script after the nodes from index `from` on, taken in order up to
/// the end of the nodes or the first end-of-input node.
pub open spec fn sequence_from(script: Script, nodes: Seq<Node>, from: int) -> Option<Script>
    decreases nodes.len() - from,
{
    if from < 0 || from >= nodes.len() || nodes[from].kind is EndOfInput {
        Some(script)
    } else {
        match sequence_step(script, nodes[from]) {
            Some(next) => sequence_from(next, nodes, from + 1),
            None => None,
        }
    }
}

/// The script that the nodes of a document stand for, if they admit one.
pub open spec fn sequenced(nodes: Seq<Node>) -> Option<Script> {
    sequence_from(Script { entries: Seq::empty(), branches: Map::empty() }, nodes, 0)
}

/// Builds the entries and the branch table of a script from its nodes, in
/// one pass that stops at the first end-of-input node.
///
/// Succeeds exactly when the nodes admit a script, and then returns its
/// entries and its table. Otherwise the nodes break the grammar's
/// promises, and no part of a script is returned.
pub fn parse(nodes: &Vec<Node>) -> (r: Result<(Vec<Chat>, BranchTable), ChatterError>)
    ensures
        match sequenced(nodes@) {
            Some(script) => r matches Ok((chat, branches)) && chats_view(chat@) == script.entries
                && branches@ == script.branches,
            None => r matches Err(e) && e@ == ChatterErrorView::InternalContract,
        },
{
    let mut chat: Vec<Chat> = Vec::new();
    let mut branches = BranchTable::new();
    assert(chats_view(chat@) =~= Seq::empty());
    let mut i: usize = 0;
    while i < nodes.len()
        invariant
            i <= nodes.len(),
            sequence_from(
                Script { entries: chats_view(chat@), branches: branches@ },
                nodes@,
                i as int,
            ) == sequenced(nodes@),
        ensures
            sequenced(nodes@) == Some(Script { entries: chats_view(chat@), branches: branches@ }),
        decreases nodes.len() - i,
    {
        let node = &nodes[i];
        let ghost before = chats_view(chat@);
        match node.kind {
            NodeKind::Line => {
                match parse_line(node) {
                    Ok(entry) => {
                        chat.push(entry);
                        assert(chats_view(chat@) =~= before.push(entry@));
                    },
                    Err(e) => {
                        return Err(e);
                    },
                }
            },
            NodeKind::Choices => {
                match parse_choices(node) {
                    Ok(entry) => {
                        chat.push(entry);
                        assert(chats_view(chat@) =~= before.push(entry@));
                    },
                    Err(e) => {
                        return Err(e);
                    },
                }
            },
            NodeKind::Branch => {
                match label_of(node) {
                    Some(branch) => {
                        branches.insert(branch, chat.len());
                    },
                    None => {
                        return Err(ChatterError::InternalContract);
                    },
                }
            },
            NodeKind::Goto => {
                match label_of(node) {
                    Some(branch) => {
                        let count = chat.len();
                        if count == 0 {
                            return Err(ChatterError::InternalContract);
                        }
                        apply_goto(&mut chat[count - 1], &branch);
                        assert(chats_view(chat@) =~= before.update(
                            count - 1,
                            entry_with_goto(before.last(), branch@),
                        ));
                    },
                    None => {
                        return Err(ChatterError::InternalContract);
                    },
                }
            },
            NodeKind::EndOfInput => {
                break ;
            },
            _ => {
                return Err(ChatterError::InternalContract);
            },
        }
        i += 1;
    }
    Ok((chat, branches))
}

} // verus!

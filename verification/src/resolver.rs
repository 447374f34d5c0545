//! The goto resolver: gives every line and every choice its successor.

use crate::branch::BranchTable;
use crate::error::{ChatterError, ChatterErrorView};
use crate::script::{
    chats_view, choices_view, copy_tags, label_view, resolved_chats_view, resolved_choices_view,
    next_view, texts, Chat, ChatView, Choice, ChoiceView, ResolvedChat, ResolvedChatView,
    ResolvedChoice, ResolvedChoiceView,
};
use vstd::prelude::*;

verus! {

/// Whether a goto can be followed: it names no label, or a declared one.
pub open spec fn resolvable(goto: Option<Seq<char>>, branches: Map<Seq<char>, int>) -> bool {
    goto matches Some(name) ==> branches.contains_key(name)
}

/// Where a line or choice at `position` leads: to the position bound to
/// its goto label, or, without a goto, to the position after its own.
pub open spec fn next_target(
    position: int,
    goto: Option<Seq<char>>,
    branches: Map<Seq<char>, int>,
) -> int {
    match goto {
        Some(name) => branches[name],
        None => position + 1,
    }
}

/// The successor of a line or choice at `position` in a script of `count`
/// entries: its target where that is the position of an entry, and none
/// where the target lies past the last entry.
pub open spec fn successor(
    position: int,
    count: int,
    goto: Option<Seq<char>>,
    branches: Map<Seq<char>, int>,
) -> Option<int> {
    let next = next_target(position, goto, branches);
    if next < count {
        Some(next)
    } else {
        None
    }
}

/// A choice of the group at `position`, with its successor.
pub open spec fn resolved_choice(
    choice: ChoiceView,
    position: int,
    count: int,
    branches: Map<Seq<char>, int>,
) -> ResolvedChoiceView {
    ResolvedChoiceView {
        text: choice.text,
        tags: choice.tags,
        next: successor(position, count, choice.goto, branches),
    }
}

/// The entry at `position`, with the successor of the line, or of each
/// choice of the group. Every choice starts from the group's position.
pub open spec fn resolved_entry(
    entry: ChatView,
    position: int,
    count: int,
    branches: Map<Seq<char>, int>,
) -> ResolvedChatView {
    match entry {
        ChatView::Line { text, tags, goto } => ResolvedChatView::Line {
            text,
            tags,
            next: successor(position, count, goto, branches),
        },
        ChatView::Choices(choices) => ResolvedChatView::Choices(
            Seq::new(
                choices.len(),
                |i: int| resolved_choice(choices[i], position, count, branches),
            ),
        ),
    }
}

/// The entries of a script, each with its successors.
pub open spec fn resolved(entries: Seq<ChatView>, branches: Map<Seq<char>, int>) -> Seq<
    ResolvedChatView,
> {
    Seq::new(
        entries.len(),
        |position: int| resolved_entry(entries[position], position, entries.len() as int, branches),
    )
}

/// The first undeclared label among the gotos of the choices from index
/// `from` on.
pub open spec fn choices_missing(
    choices: Seq<ChoiceView>,
    from: int,
    branches: Map<Seq<char>, int>,
) -> Option<Seq<char>>
    decreases choices.len() - from,
{
    if from < 0 || from >= choices.len() {
        None
    } else if !resolvable(choices[from].goto, branches) {
        choices[from].goto
    } else {
        choices_missing(choices, from + 1, branches)
    }
}

/// The first undeclared label among the gotos of an entry.
pub open spec fn entry_missing(entry: ChatView, branches: Map<Seq<char>, int>) -> Option<
    Seq<char>,
> {
    match entry {
        ChatView::Line { text, tags, goto } => if resolvable(goto, branches) {
            None
        } else {
            goto
        },
        ChatView::Choices(choices) => choices_missing(choices, 0, branches),
    }
}

/// The first undeclared label among the gotos of the entries from index
/// `from` on.
pub open spec fn missing_from(
    entries: Seq<ChatView>,
    from: int,
    branches: Map<Seq<char>, int>,
) -> Option<Seq<char>>
    decreases entries.len() - from,
{
    if from < 0 || from >= entries.len() {
        None
    } else {
        match entry_missing(entries[from], branches) {
            Some(name) => Some(name),
            None => missing_from(entries, from + 1, branches),
        }
    }
}

/// The first label, in the order of the text, that a goto of the script
/// names and the table lacks.
pub open spec fn missing_label(entries: Seq<ChatView>, branches: Map<Seq<char>, int>) -> Option<
    Seq<char>,
> {
    missing_from(entries, 0, branches)
}

/// What is reported of a goto to the undeclared label `name`.
pub open spec fn unresolved(name: Seq<char>) -> ChatterErrorView {
    ChatterErrorView::UnresolvedLabel { label: name }
}

/// The position that a line or choice at `current_position` leads to,
/// whether or not an entry stands there.
///
/// With a goto, the position bound to its label; the goto of an undeclared
/// label is refused, and the error names the label. Without a goto, the
/// position after `current_position`, which has to be representable.
pub fn next_position(
    current_position: usize,
    goto: &Option<String>,
    branches: &BranchTable,
) -> (r: Result<usize, ChatterError>)
    requires
        goto is None ==> current_position < usize::MAX,
    ensures
        match r {
            Ok(next) => resolvable(label_view(*goto), branches@) && next as int == next_target(
                current_position as int,
                label_view(*goto),
                branches@,
            ),
            Err(e) => !resolvable(label_view(*goto), branches@) && e@ == unresolved(
                label_view(*goto).unwrap(),
            ),
        },
{
    match goto {
        Some(branch) => match branches.get(branch.as_str()) {
            Some(position) => Ok(position),
            None => Err(ChatterError::UnresolvedLabel { label: branch.clone() }),
        },
        None => Ok(current_position + 1),
    }
}

/// The successor of a line or choice at `current_position` in a script of
/// `content_length` entries: the position it leads to where an entry
/// stands there, and none where it leads past the last entry.
pub fn next_successor(
    current_position: usize,
    content_length: usize,
    goto: &Option<String>,
    branches: &BranchTable,
) -> (r: Result<Option<usize>, ChatterError>)
    ensures
        match r {
            Ok(next) => resolvable(label_view(*goto), branches@) && next_view(next) == successor(
                current_position as int,
                content_length as int,
                label_view(*goto),
                branches@,
            ),
            Err(e) => !resolvable(label_view(*goto), branches@) && e@ == unresolved(
                label_view(*goto).unwrap(),
            ),
        },
{
    if goto.is_none() && current_position >= content_length {
        return Ok(None);
    }
    match next_position(current_position, goto, branches) {
        Ok(next) => if next < content_length {
            Ok(Some(next))
        } else {
            Ok(None)
        },
        Err(e) => Err(e),
    }
}

/// The line at `current_position` with its successor.
pub fn resolve_line(
    current_position: usize,
    content_length: usize,
    branches: &BranchTable,
    text: &String,
    tags: &Vec<String>,
    goto: &Option<String>,
) -> (r: Result<ResolvedChat, ChatterError>)
    ensures
        match r {
            Ok(line) => resolvable(label_view(*goto), branches@) && line@ == resolved_entry(
                ChatView::Line { text: text@, tags: texts(tags@), goto: label_view(*goto) },
                current_position as int,
                content_length as int,
                branches@,
            ),
            Err(e) => !resolvable(label_view(*goto), branches@) && e@ == unresolved(
                label_view(*goto).unwrap(),
            ),
        },
{
    match next_successor(current_position, content_length, goto, branches) {
        Ok(next) => Ok(ResolvedChat::Line { text: text.clone(), tags: copy_tags(tags), next }),
        Err(e) => Err(e),
    }
}

/// A choice of the group at `current_position` with its successor.
pub fn resolve_choice(
    current_position: usize,
    content_length: usize,
    branches: &BranchTable,
    choice: &Choice,
) -> (r: Result<ResolvedChoice, ChatterError>)
    ensures
        match r {
            Ok(resolved) => resolvable(choice@.goto, branches@) && resolved@ == resolved_choice(
                choice@,
                current_position as int,
                content_length as int,
                branches@,
            ),
            Err(e) => !resolvable(choice@.goto, branches@) && e@ == unresolved(
                choice@.goto.unwrap(),
            ),
        },
{
    match next_successor(current_position, content_length, &choice.goto, branches) {
        Ok(next) => Ok(
            ResolvedChoice { text: choice.text.clone(), tags: copy_tags(&choice.tags), next },
        ),
        Err(e) => Err(e),
    }
}

/// The choices of the group at `current_position`, each with its own
/// successor. Fails at the first choice whose goto names an undeclared
/// label.
pub fn resolve_choices(
    current_position: usize,
    content_length: usize,
    branches: &BranchTable,
    choices: &Vec<Choice>,
) -> (r: Result<ResolvedChat, ChatterError>)
    ensures
        match choices_missing(choices_view(choices@), 0, branches@) {
            None => r matches Ok(group) && group@ == resolved_entry(
                ChatView::Choices(choices_view(choices@)),
                current_position as int,
                content_length as int,
                branches@,
            ),
            Some(name) => r matches Err(e) && e@ == unresolved(name),
        },
{
    let mut group: Vec<ResolvedChoice> = Vec::new();
    let mut i: usize = 0;
    while i < choices.len()
        invariant
            i <= choices.len(),
            group.len() == i,
            choices_missing(choices_view(choices@), i as int, branches@) == choices_missing(
                choices_view(choices@),
                0,
                branches@,
            ),
            forall|k: int|
                0 <= k < i ==> group[k]@ == resolved_choice(
                    #[trigger] choices[k]@,
                    current_position as int,
                    content_length as int,
                    branches@,
                ),
        decreases choices.len() - i,
    {
        match resolve_choice(current_position, content_length, branches, &choices[i]) {
            Ok(choice) => {
                group.push(choice);
            },
            Err(e) => {
                return Err(e);
            },
        }
        i += 1;
    }
    let resolved = ResolvedChat::Choices(group);
    assert(resolved@ == resolved_entry(
        ChatView::Choices(choices_view(choices@)),
        current_position as int,
        content_length as int,
        branches@,
    )) by {
        assert(resolved_choices_view(group@) =~= Seq::new(
            choices.len() as nat,
            |i: int|
                resolved_choice(
                    choices_view(choices@)[i],
                    current_position as int,
                    content_length as int,
                    branches@,
                ),
        ));
    }
    Ok(resolved)
}

/// The entry at `current_position` with its successors.
pub fn resolve_entry(
    current_position: usize,
    content_length: usize,
    branches: &BranchTable,
    entry: &Chat,
) -> (r: Result<ResolvedChat, ChatterError>)
    ensures
        match entry_missing(entry@, branches@) {
            None => r matches Ok(resolved) && resolved@ == resolved_entry(
                entry@,
                current_position as int,
                content_length as int,
                branches@,
            ),
            Some(name) => r matches Err(e) && e@ == unresolved(name),
        },
{
    match entry {
        Chat::Line { text, tags, goto } => resolve_line(
            current_position,
            content_length,
            branches,
            text,
            tags,
            goto,
        ),
        Chat::Choices(choices) => resolve_choices(
            current_position,
            content_length,
            branches,
            choices,
        ),
    }
}

/// Gives every line and every choice of a script its successor.
///
/// Succeeds exactly when every goto names a declared label, and then
/// returns the entries in their order with their successors. Otherwise
/// the error names the first undeclared label in the order of the text,
/// and no entry is returned.
pub fn resolve(content: &Vec<Chat>, branches: &BranchTable) -> (r: Result<
    Vec<ResolvedChat>,
    ChatterError,
>)
    ensures
        match missing_label(chats_view(content@), branches@) {
            None => r matches Ok(sequence) && resolved_chats_view(sequence@) == resolved(
                chats_view(content@),
                branches@,
            ),
            Some(name) => r matches Err(e) && e@ == unresolved(name),
        },
{
    let mut sequence: Vec<ResolvedChat> = Vec::new();
    let mut position: usize = 0;
    while position < content.len()
        invariant
            position <= content.len(),
            sequence.len() == position,
            missing_from(chats_view(content@), position as int, branches@) == missing_label(
                chats_view(content@),
                branches@,
            ),
            forall|k: int|
                0 <= k < position ==> sequence[k]@ == resolved_entry(
                    #[trigger] content[k]@,
                    k,
                    content.len() as int,
                    branches@,
                ),
        decreases content.len() - position,
    {
        match resolve_entry(position, content.len(), branches, &content[position]) {
            Ok(entry) => {
                sequence.push(entry);
            },
            Err(e) => {
                return Err(e);
            },
        }
        position += 1;
    }
    Ok(sequence)
}

} // verus!

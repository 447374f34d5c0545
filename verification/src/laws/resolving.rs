//! Laws of the resolver: where the lines and choices of a script lead.

use crate::resolver::{
    choices_missing, entry_missing, missing_from, missing_label, resolvable, resolved, successor,
};
use crate::script::{
    gotos_of, resolved_tags_of, resolved_texts_of, successors_of, tags_of, texts_of, ChatView,
    ChoiceView,
};
use vstd::prelude::*;

verus! {

/// The goto with index `k` of the entry at `position`.
pub open spec fn goto_at(entries: Seq<ChatView>, position: int, k: int) -> Option<Seq<char>> {
    gotos_of(entries[position])[k]
}

/// Whether `k` is the index of a goto of the entry at `position`.
pub open spec fn has_goto(entries: Seq<ChatView>, position: int, k: int) -> bool {
    0 <= position < entries.len() && 0 <= k < gotos_of(entries[position]).len()
}

/// Whether every goto of the script names a declared label.
pub open spec fn all_declared(entries: Seq<ChatView>, branches: Map<Seq<char>, int>) -> bool {
    forall|position: int, k: int|
        has_goto(entries, position, k) ==> resolvable(
            #[trigger] goto_at(entries, position, k),
            branches,
        )
}

/// Whether no line and no choice of the script has a goto.
pub open spec fn without_gotos(entries: Seq<ChatView>) -> bool {
    forall|position: int, k: int|
        has_goto(entries, position, k) ==> (#[trigger] goto_at(entries, position, k)) is None
}

/// The resolved sequence has one successor for each goto of the script,
/// absent ones included, and each is computed from the position of its
/// entry: a choice starts from the position of its group.
pub proof fn law_successor_of_each_goto(
    entries: Seq<ChatView>,
    branches: Map<Seq<char>, int>,
    position: int,
    k: int,
)
    requires
        has_goto(entries, position, k),
    ensures
        resolved(entries, branches).len() == entries.len(),
        successors_of(resolved(entries, branches)[position]).len() == gotos_of(
            entries[position],
        ).len(),
        successors_of(resolved(entries, branches)[position])[k] == successor(
            position,
            entries.len() as int,
            goto_at(entries, position, k),
            branches,
        ),
{
}

/// Resolution changes no text and no tag, and keeps a line a line and a
/// choice group a choice group with as many choices.
pub proof fn law_resolution_keeps_texts(
    entries: Seq<ChatView>,
    branches: Map<Seq<char>, int>,
    position: int,
)
    requires
        0 <= position < entries.len(),
    ensures
        entries[position] is Line <==> resolved(entries, branches)[position] is Line,
        resolved_texts_of(resolved(entries, branches)[position]) == texts_of(entries[position]),
        resolved_tags_of(resolved(entries, branches)[position]) == tags_of(entries[position]),
{
    let after = resolved(entries, branches)[position];
    assert(resolved_texts_of(after) =~= texts_of(entries[position]));
    assert(resolved_tags_of(after) =~= tags_of(entries[position]));
}

/// In a script without gotos every entry leads to the entry after it, and
/// the last entry leads nowhere. Such a script always resolves.
pub proof fn law_fallthrough(
    entries: Seq<ChatView>,
    branches: Map<Seq<char>, int>,
    position: int,
    k: int,
)
    requires
        without_gotos(entries),
        has_goto(entries, position, k),
    ensures
        missing_label(entries, branches) is None,
        position + 1 < entries.len() ==> successors_of(resolved(entries, branches)[position])[k]
            == Some(position + 1),
        position + 1 == entries.len() ==> successors_of(resolved(entries, branches)[position])[k]
            is None,
{
    assert(goto_at(entries, position, k) is None);
    law_undeclared_label(entries, branches);
}

/// A goto whose label is bound to the position of an entry leads exactly
/// there, whether that entry stands after or before the goto.
pub proof fn law_goto_target(
    entries: Seq<ChatView>,
    branches: Map<Seq<char>, int>,
    position: int,
    k: int,
    name: Seq<char>,
)
    requires
        has_goto(entries, position, k),
        goto_at(entries, position, k) == Some(name),
        branches.contains_key(name),
        branches[name] < entries.len(),
    ensures
        successors_of(resolved(entries, branches)[position])[k] == Some(branches[name]),
{
}

/// A goto whose label is bound past the last entry, as a label declared at
/// the end of the text is, leads nowhere.
pub proof fn law_goto_past_the_end(
    entries: Seq<ChatView>,
    branches: Map<Seq<char>, int>,
    position: int,
    k: int,
    name: Seq<char>,
)
    requires
        has_goto(entries, position, k),
        goto_at(entries, position, k) == Some(name),
        branches.contains_key(name),
        branches[name] >= entries.len(),
    ensures
        successors_of(resolved(entries, branches)[position])[k] is None,
{
}

/// Every successor is the position of an entry of the script or none,
/// provided that no label is bound to a negative position.
pub proof fn law_successor_in_range(
    entries: Seq<ChatView>,
    branches: Map<Seq<char>, int>,
    position: int,
    k: int,
)
    requires
        has_goto(entries, position, k),
        resolvable(goto_at(entries, position, k), branches),
        forall|name: Seq<char>| branches.contains_key(name) ==> 0 <= #[trigger] branches[name],
    ensures
        match successors_of(resolved(entries, branches)[position])[k] {
            Some(next) => 0 <= next < entries.len(),
            None => true,
        },
{
}

proof fn lemma_choices_missing(choices: Seq<ChoiceView>, from: int, branches: Map<Seq<char>, int>)
    requires
        0 <= from,
    ensures
        choices_missing(choices, from, branches) is None <==> (forall|k: int|
            from <= k < choices.len() ==> resolvable(#[trigger] choices[k].goto, branches)),
        choices_missing(choices, from, branches) matches Some(name) ==> !branches.contains_key(name)
            && exists|k: int| from <= k < choices.len() && #[trigger] choices[k].goto == Some(name),
    decreases choices.len() - from,
{
    if from < choices.len() {
        lemma_choices_missing(choices, from + 1, branches);
    }
}

proof fn lemma_entry_missing(entry: ChatView, branches: Map<Seq<char>, int>)
    ensures
        entry_missing(entry, branches) is None <==> (forall|k: int|
            0 <= k < gotos_of(entry).len() ==> resolvable(#[trigger] gotos_of(entry)[k], branches)),
        entry_missing(entry, branches) matches Some(name) ==> !branches.contains_key(name)
            && exists|k: int|
            0 <= k < gotos_of(entry).len() && #[trigger] gotos_of(entry)[k] == Some(name),
{
    match entry {
        ChatView::Line { text, tags, goto } => {
            if !resolvable(goto, branches) {
                assert(gotos_of(entry)[0] == Some(goto.unwrap()));
            }
        },
        ChatView::Choices(choices) => {
            lemma_choices_missing(choices, 0, branches);
            if choices_missing(choices, 0, branches) is Some {
                let name = choices_missing(choices, 0, branches).unwrap();
                let k = choose|k: int|
                    0 <= k < choices.len() && #[trigger] choices[k].goto == Some(name);
                assert(!resolvable(gotos_of(entry)[k], branches));
            }
        },
    }
}

proof fn lemma_missing_from(entries: Seq<ChatView>, from: int, branches: Map<Seq<char>, int>)
    requires
        0 <= from,
    ensures
        missing_from(entries, from, branches) is None <==> (forall|position: int, k: int|
            from <= position && has_goto(entries, position, k) ==> resolvable(
                #[trigger] goto_at(entries, position, k),
                branches,
            )),
        missing_from(entries, from, branches) matches Some(name) ==> !branches.contains_key(name)
            && exists|position: int, k: int|
            from <= position && has_goto(entries, position, k) && #[trigger] goto_at(
                entries,
                position,
                k,
            ) == Some(name),
    decreases entries.len() - from,
{
    if from < entries.len() {
        lemma_missing_from(entries, from + 1, branches);
        lemma_entry_missing(entries[from], branches);
        match entry_missing(entries[from], branches) {
            Some(name) => {
                let k = choose|k: int|
                    0 <= k < gotos_of(entries[from]).len() && #[trigger] gotos_of(entries[from])[k]
                        == Some(name);
                assert(!resolvable(goto_at(entries, from, k), branches));
            },
            None => {},
        }
    }
}

/// A script resolves exactly when every goto names a declared label.
/// Otherwise the label that the error names is the label of a goto of the
/// script, and the table lacks it.
pub proof fn law_undeclared_label(entries: Seq<ChatView>, branches: Map<Seq<char>, int>)
    ensures
        missing_label(entries, branches) is None <==> all_declared(entries, branches),
        missing_label(entries, branches) matches Some(name) ==> !branches.contains_key(name)
            && exists|position: int, k: int|
            has_goto(entries, position, k) && #[trigger] goto_at(entries, position, k) == Some(
                name,
            ),
{
    lemma_missing_from(entries, 0, branches);
}

} // verus!

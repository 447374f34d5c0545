//! The entries of a script, before and after their successors are resolved.

use vstd::prelude::*;

verus! {

/// One option of a choice group, with the label it jumps to, if any.
#[derive(Debug, PartialEq, Eq)]
pub struct Choice {
    pub text: String,
    pub tags: Vec<String>,
    pub goto: Option<String>,
}

/// One entry of a script: a line, or a group of choices shown together.
/// An entry's position is its index among the entries of its script.
#[derive(Debug, PartialEq, Eq)]
pub enum Chat {
    Line { text: String, tags: Vec<String>, goto: Option<String> },
    Choices(Vec<Choice>),
}

/// A choice whose successor is known: a position, or `None` where the
/// path ends.
#[derive(Debug, PartialEq, Eq)]
pub struct ResolvedChoice {
    pub text: String,
    pub tags: Vec<String>,
    pub next: Option<usize>,
}

/// An entry whose successors are known.
#[derive(Debug, PartialEq, Eq)]
pub enum ResolvedChat {
    Line { text: String, tags: Vec<String>, next: Option<usize> },
    Choices(Vec<ResolvedChoice>),
}

/// What a [`Choice`] holds, as mathematical values.
pub struct ChoiceView {
    pub text: Seq<char>,
    pub tags: Seq<Seq<char>>,
    pub goto: Option<Seq<char>>,
}

/// What a [`Chat`] holds, as mathematical values.
pub enum ChatView {
    Line { text: Seq<char>, tags: Seq<Seq<char>>, goto: Option<Seq<char>> },
    Choices(Seq<ChoiceView>),
}

/// What a [`ResolvedChoice`] holds, as mathematical values.
pub struct ResolvedChoiceView {
    pub text: Seq<char>,
    pub tags: Seq<Seq<char>>,
    pub next: Option<int>,
}

/// What a [`ResolvedChat`] holds, as mathematical values.
pub enum ResolvedChatView {
    Line { text: Seq<char>, tags: Seq<Seq<char>>, next: Option<int> },
    Choices(Seq<ResolvedChoiceView>),
}

/// The characters of each string of `strings`, in order.
pub open spec fn texts(strings: Seq<String>) -> Seq<Seq<char>> {
    Seq::new(strings.len(), |i: int| strings[i]@)
}

/// The characters of a label that may be absent.
pub open spec fn label_view(goto: Option<String>) -> Option<Seq<char>> {
    match goto {
        Some(name) => Some(name@),
        None => None,
    }
}

/// A successor as a mathematical position.
pub open spec fn next_view(next: Option<usize>) -> Option<int> {
    match next {
        Some(position) => Some(position as int),
        None => None,
    }
}

impl View for Choice {
    type V = ChoiceView;

    open spec fn view(&self) -> ChoiceView {
        ChoiceView { text: self.text@, tags: texts(self.tags@), goto: label_view(self.goto) }
    }
}

impl View for Chat {
    type V = ChatView;

    open spec fn view(&self) -> ChatView {
        match *self {
            Chat::Line { text, tags, goto } => ChatView::Line {
                text: text@,
                tags: texts(tags@),
                goto: label_view(goto),
            },
            Chat::Choices(choices) => ChatView::Choices(choices_view(choices@)),
        }
    }
}

impl View for ResolvedChoice {
    type V = ResolvedChoiceView;

    open spec fn view(&self) -> ResolvedChoiceView {
        ResolvedChoiceView { text: self.text@, tags: texts(self.tags@), next: next_view(self.next) }
    }
}

impl View for ResolvedChat {
    type V = ResolvedChatView;

    open spec fn view(&self) -> ResolvedChatView {
        match *self {
            ResolvedChat::Line { text, tags, next } => ResolvedChatView::Line {
                text: text@,
                tags: texts(tags@),
                next: next_view(next),
            },
            ResolvedChat::Choices(choices) => ResolvedChatView::Choices(
                resolved_choices_view(choices@),
            ),
        }
    }
}

/// The choices of a group, each by its view.
pub open spec fn choices_view(choices: Seq<Choice>) -> Seq<ChoiceView> {
    Seq::new(choices.len(), |i: int| choices[i]@)
}

/// The entries of a script, each by its view.
pub open spec fn chats_view(content: Seq<Chat>) -> Seq<ChatView> {
    Seq::new(content.len(), |i: int| content[i]@)
}

/// The resolved choices of a group, each by its view.
pub open spec fn resolved_choices_view(choices: Seq<ResolvedChoice>) -> Seq<ResolvedChoiceView> {
    Seq::new(choices.len(), |i: int| choices[i]@)
}

/// The entries of a resolved sequence, each by its view.
pub open spec fn resolved_chats_view(content: Seq<ResolvedChat>) -> Seq<ResolvedChatView> {
    Seq::new(content.len(), |i: int| content[i]@)
}

/// The gotos of an entry in the order of the text: that of the line, or
/// that of each choice of the group. An absent goto is `None`.
pub open spec fn gotos_of(entry: ChatView) -> Seq<Option<Seq<char>>> {
    match entry {
        ChatView::Line { text, tags, goto } => seq![goto],
        ChatView::Choices(choices) => Seq::new(choices.len(), |i: int| choices[i].goto),
    }
}

/// The successors of a resolved entry in the order of the text: that of
/// the line, or that of each choice of the group.
pub open spec fn successors_of(entry: ResolvedChatView) -> Seq<Option<int>> {
    match entry {
        ResolvedChatView::Line { text, tags, next } => seq![next],
        ResolvedChatView::Choices(choices) => Seq::new(choices.len(), |i: int| choices[i].next),
    }
}

/// The texts of an entry in the order of the text: that of the line, or
/// that of each choice of the group.
pub open spec fn texts_of(entry: ChatView) -> Seq<Seq<char>> {
    match entry {
        ChatView::Line { text, tags, goto } => seq![text],
        ChatView::Choices(choices) => Seq::new(choices.len(), |i: int| choices[i].text),
    }
}

/// The tag lists of an entry: that of the line, or that of each choice of
/// the group.
pub open spec fn tags_of(entry: ChatView) -> Seq<Seq<Seq<char>>> {
    match entry {
        ChatView::Line { text, tags, goto } => seq![tags],
        ChatView::Choices(choices) => Seq::new(choices.len(), |i: int| choices[i].tags),
    }
}

/// The texts of a resolved entry: that of the line, or that of each
/// choice of the group.
pub open spec fn resolved_texts_of(entry: ResolvedChatView) -> Seq<Seq<char>> {
    match entry {
        ResolvedChatView::Line { text, tags, next } => seq![text],
        ResolvedChatView::Choices(choices) => Seq::new(choices.len(), |i: int| choices[i].text),
    }
}

/// The tag lists of a resolved entry: that of the line, or that of each
/// choice of the group.
pub open spec fn resolved_tags_of(entry: ResolvedChatView) -> Seq<Seq<Seq<char>>> {
    match entry {
        ResolvedChatView::Line { text, tags, next } => seq![tags],
        ResolvedChatView::Choices(choices) => Seq::new(choices.len(), |i: int| choices[i].tags),
    }
}

/// A copy of `tags` with the same texts in the same order.
pub fn copy_tags(tags: &Vec<String>) -> (copy: Vec<String>)
    ensures
        texts(copy@) == texts(tags@),
{
    let mut copy: Vec<String> = Vec::new();
    let mut i: usize = 0;
    while i < tags.len()
        invariant
            i <= tags.len(),
            copy.len() == i,
            forall|k: int| 0 <= k < i ==> copy[k]@ == tags[k]@,
        decreases tags.len() - i,
    {
        copy.push(tags[i].clone());
        i += 1;
    }
    copy
}

} // verus!

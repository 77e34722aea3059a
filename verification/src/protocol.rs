//! The plain types that the language service exchanges with an editor.

use vstd::prelude::*;

verus! {

/// Represents a span of text used by the Language Server API
#[derive(Debug, PartialEq)]
pub struct Span {
    pub start: u32,
    pub end: u32,
}

/// The kind of a completion, in an enumeration of its own: the editors that consume it number
/// their kinds differently.
#[derive(Copy, Clone, Debug, PartialEq)]
pub enum CompletionItemKind {
    Function,
    Interface,
    Keyword,
    Module,
}

/// The completions offered at one position.
#[derive(Debug)]
pub struct CompletionList {
    pub items: Vec<CompletionItem>,
}

/// One completion.
#[derive(Debug)]
pub struct CompletionItem {
    pub label: String,
    pub kind: CompletionItemKind,
    pub sort_text: Option<String>,
    pub detail: Option<String>,
    pub additional_text_edits: Option<Vec<(Span, String)>>,
}

impl CompletionItem {
    /// A completion that carries its label and kind and nothing else.
    #[must_use]
    pub fn new(label: String, kind: CompletionItemKind) -> (item: Self)
        ensures
            item.label == label,
            item.label@ == label@,
            item.kind == kind,
            item.sort_text is None,
            item.detail is None,
            item.additional_text_edits is None,
    {
        CompletionItem {
            label,
            kind,
            sort_text: None,
            detail: None,
            additional_text_edits: None,
        }
    }
}

/// Where a symbol is defined.
#[derive(Debug, PartialEq)]
pub struct Definition {
    pub source: String,
    pub offset: u32,
}

/// The text shown when the pointer rests on a symbol.
#[derive(Debug, PartialEq)]
pub struct Hover {
    pub contents: String,
    pub span: Span,
}

} // verus!

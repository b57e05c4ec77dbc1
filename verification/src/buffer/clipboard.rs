//! Internal in-memory clipboard.

use vstd::prelude::*;
use crate::text::{join_lines, join_nl, view_lines};

verus! {

/// Type of content stored in the internal clipboard.
#[derive(Debug, Clone, PartialEq, Eq)]
pub enum ClipboardContentType {
    /// In-line character selection text.
    Character(String),
    /// Whole line or multi-line list.
    Line(Vec<String>),
}

/// The value of clipboard content, with its texts as character sequences.
pub enum ClipView {
    Character(Seq<char>),
    Line(Seq<Seq<char>>),
}

impl View for ClipboardContentType {
    type V = ClipView;

    open spec fn view(&self) -> ClipView {
        match *self {
            ClipboardContentType::Character(s) => ClipView::Character(s@),
            ClipboardContentType::Line(lines) => ClipView::Line(view_lines(lines@)),
        }
    }
}

/// The text of clipboard content: inline text as is, lines joined by `'\n'`.
pub open spec fn clip_text(c: ClipView) -> Seq<char> {
    match c {
        ClipView::Character(s) => s,
        ClipView::Line(lines) => join_nl(lines),
    }
}

/// The text of clipboard content.
pub open spec fn content_text(c: ClipboardContentType) -> Seq<char> {
    clip_text(c@)
}

impl ClipboardContentType {
    /// Returns text string representation of clipboard content.
    pub fn as_str_content(&self) -> (r: String)
        ensures
            r@ == content_text(*self),
    {
        match self {
            ClipboardContentType::Character(s) => s.clone(),
            ClipboardContentType::Line(lines) => join_lines(lines.as_slice()),
        }
    }
}

/// Internal in-memory clipboard for text buffer operations (copy, cut, paste, paste above/below).
#[derive(Debug, Clone, PartialEq, Eq)]
pub struct InternalClipboard {
    content: Option<ClipboardContentType>,
}

impl Default for InternalClipboard {
    fn default() -> (r: Self)
        ensures
            r.content() is None,
            r.content_view() is None,
    {
        InternalClipboard::new()
    }
}

impl InternalClipboard {
    /// The stored content.
    pub closed spec fn content(self) -> Option<ClipboardContentType> {
        self.content
    }

    /// The value of the stored content.
    pub closed spec fn content_view(self) -> Option<ClipView> {
        match self.content {
            Some(c) => Some(c@),
            None => None,
        }
    }

    /// Creates a new empty `InternalClipboard`.
    pub fn new() -> (r: Self)
        ensures
            r.content() is None,
            r.content_view() is None,
    {
        InternalClipboard { content: None }
    }

    /// Stores character/inline text in clipboard; empty text empties the clipboard.
    pub fn set_text(&mut self, text: &str)
        ensures
            text@.len() == 0 ==> final(self).content() is None && final(self).content_view() is None,
            text@.len() > 0 ==> (final(self).content() matches Some(ClipboardContentType::Character(s)) && s@ == text@),
            text@.len() > 0 ==> final(self).content_view() == Some(ClipView::Character(text@)),
    {
        let t = text.to_owned();
        if text.is_empty() {
            self.content = None;
        } else {
            self.content = Some(ClipboardContentType::Character(t));
        }
    }

    /// Stores full lines in clipboard; no lines empties the clipboard.
    pub fn set_lines(&mut self, lines: Vec<String>)
        ensures
            lines@.len() == 0 ==> final(self).content() is None && final(self).content_view() is None,
            lines@.len() > 0 ==> final(self).content() == Some(ClipboardContentType::Line(lines)),
            lines@.len() > 0 ==> final(self).content_view() == Some(ClipView::Line(view_lines(lines@))),
    {
        if lines.len() == 0 {
            self.content = None;
        } else {
            self.content = Some(ClipboardContentType::Line(lines));
        }
    }

    /// Returns current clipboard content if present.
    pub fn get_content(&self) -> (r: Option<&ClipboardContentType>)
        ensures
            match self.content() {
                Some(c) => r == Some(&c),
                None => r is None,
            },
            match self.content_view() {
                Some(c) => r matches Some(x) && x@ == c,
                None => r is None,
            },
    {
        match &self.content {
            Some(c) => Some(c),
            None => None,
        }
    }

    /// Clears internal clipboard.
    pub fn clear(&mut self)
        ensures
            final(self).content() is None,
            final(self).content_view() is None,
    {
        self.content = None;
    }

    /// Returns true if clipboard is empty.
    pub fn is_empty(&self) -> (r: bool)
        ensures
            r == self.content() is None,
            r == self.content_view() is None,
    {
        self.content.is_none()
    }
}

} // verus!

//! What the user sees of a message: its text with the mentions and images marked in it.
use crate::types::message::Message;
use crate::types::message::Role;
use vstd::prelude::*;

verus! {

#[derive(Debug, Clone, Copy, PartialEq, Eq, Structural)]
pub enum MentionKind {
    Subagent,
    File,
    Directory,
    Command,
}

/// A mention in a text, by its range of characters.
#[derive(Debug, PartialEq, Eq)]
pub struct DisplayMention {
    pub start_char: usize,
    pub end_char: usize,
    pub kind: MentionKind,
    pub label: String,
    pub target: String,
    pub description: String,
}

/// An image in a text, by the range of characters of its marker.
#[derive(Debug, PartialEq, Eq)]
pub struct DisplayImageAttachment {
    pub start_char: usize,
    pub end_char: usize,
    pub marker: String,
    pub source_path: String,
    pub file_name: String,
}

#[derive(Debug, PartialEq, Eq)]
pub struct DisplayMessage {
    pub role: Role,
    pub text: String,
    pub mentions: Vec<DisplayMention>,
    pub images: Vec<DisplayImageAttachment>,
}

/// One item of the visible history.
#[derive(Debug, PartialEq, Eq)]
pub enum HistoryItem {
    Message(Message),
    Display(DisplayMessage),
}

/// What the user has written and not yet sent.
#[derive(Debug, PartialEq, Eq)]
pub struct UserDraft {
    pub text: String,
    pub mentions: Vec<DisplayMention>,
    pub images: Vec<DisplayImageAttachment>,
}

/// `m` moved to the right by `by` characters.
pub open spec fn mention_moved(m: DisplayMention, by: int) -> DisplayMention {
    DisplayMention {
        start_char: (m.start_char + by) as usize,
        end_char: (m.end_char + by) as usize,
        ..m
    }
}

/// `m` moved to the right by `by` characters.
pub open spec fn image_moved(m: DisplayImageAttachment, by: int) -> DisplayImageAttachment {
    DisplayImageAttachment {
        start_char: (m.start_char + by) as usize,
        end_char: (m.end_char + by) as usize,
        ..m
    }
}

impl DisplayMention {
    /// A copy of the mention, `by` characters further right.
    pub fn moved(&self, by: usize) -> (r: Self)
        requires
            self.start_char + by <= usize::MAX,
            self.end_char + by <= usize::MAX,
        ensures
            r == mention_moved(*self, by as int),
    {
        DisplayMention {
            start_char: self.start_char + by,
            end_char: self.end_char + by,
            kind: self.kind,
            label: self.label.clone(),
            target: self.target.clone(),
            description: self.description.clone(),
        }
    }
}

impl DisplayImageAttachment {
    /// A copy of the attachment, `by` characters further right.
    pub fn moved(&self, by: usize) -> (r: Self)
        requires
            self.start_char + by <= usize::MAX,
            self.end_char + by <= usize::MAX,
        ensures
            r == image_moved(*self, by as int),
    {
        DisplayImageAttachment {
            start_char: self.start_char + by,
            end_char: self.end_char + by,
            marker: self.marker.clone(),
            source_path: self.source_path.clone(),
            file_name: self.file_name.clone(),
        }
    }
}

impl UserDraft {
    /// The history item that the draft becomes when it is sent: a plain message where nothing
    /// is marked in its text, else a display message with the marks.
    pub fn history_item(self) -> (r: HistoryItem)
        ensures
            if self.mentions@.len() == 0 && self.images@.len() == 0 {
                r matches HistoryItem::Message(m) && m@ == Message::user_text(self.text@)
            } else {
                r == HistoryItem::Display(
                    DisplayMessage {
                        role: Role::User,
                        text: self.text,
                        mentions: self.mentions,
                        images: self.images,
                    },
                )
            },
    {
        if self.mentions.len() == 0 && self.images.len() == 0 {
            HistoryItem::Message(Message::from_user_text(self.text))
        } else {
            HistoryItem::Display(
                DisplayMessage {
                    role: Role::User,
                    text: self.text,
                    mentions: self.mentions,
                    images: self.images,
                },
            )
        }
    }
}

} // verus!

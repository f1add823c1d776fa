//! Messages of a conversation and the blocks they are made of.
use crate::json;
use crate::json::Json;
use crate::json::JsonView;
use crate::text;
use vstd::prelude::*;

verus! {

#[derive(Debug, Clone, Copy, PartialEq, Eq, Structural)]
pub enum Role {
    User,
    Assistant,
}

#[derive(Debug, PartialEq, Eq)]
pub struct TextBlock {
    pub text: String,
}

#[derive(Debug, PartialEq, Eq)]
pub struct ThinkingBlock {
    pub thinking: String,
}

#[derive(Debug, PartialEq, Eq)]
pub struct ImageBlock {
    pub media_type: String,
    pub data: String,
}

/// A request of the model to run a tool.
#[derive(Debug, PartialEq, Eq)]
pub struct ToolUseBlock {
    pub id: String,
    pub name: String,
    pub input: Vec<(String, Json)>,
}

/// What running a tool came to.
#[derive(Debug, PartialEq, Eq)]
pub struct ToolResultBlock {
    pub tool_use_id: String,
    pub is_error: bool,
    pub content: String,
    pub metadata: Option<Vec<(String, Json)>>,
}

#[derive(Debug, PartialEq, Eq)]
pub enum ContentBlock {
    Text(TextBlock),
    Image(ImageBlock),
    Thinking(ThinkingBlock),
    ToolUse(ToolUseBlock),
    ToolResult(ToolResultBlock),
}

#[derive(Debug, PartialEq, Eq)]
pub struct Message {
    pub role: Role,
    pub content: Vec<ContentBlock>,
}

#[verifier::ext_equal]
pub struct ToolUseView {
    pub id: Seq<char>,
    pub name: Seq<char>,
    pub input: Seq<(Seq<char>, JsonView)>,
}

#[verifier::ext_equal]
pub struct ToolResultView {
    pub tool_use_id: Seq<char>,
    pub is_error: bool,
    pub content: Seq<char>,
    pub metadata: Option<Seq<(Seq<char>, JsonView)>>,
}

/// What a block says, with texts as character sequences.
#[verifier::ext_equal]
pub enum BlockView {
    Text(Seq<char>),
    Image(Seq<char>, Seq<char>),
    Thinking(Seq<char>),
    ToolUse(ToolUseView),
    ToolResult(ToolResultView),
}

#[verifier::ext_equal]
pub struct MessageView {
    pub role: Role,
    pub content: Seq<BlockView>,
}

impl View for ToolUseBlock {
    type V = ToolUseView;

    open spec fn view(&self) -> ToolUseView {
        ToolUseView { id: self.id@, name: self.name@, input: json::entries_view(self.input@) }
    }
}

impl View for ToolResultBlock {
    type V = ToolResultView;

    open spec fn view(&self) -> ToolResultView {
        ToolResultView {
            tool_use_id: self.tool_use_id@,
            is_error: self.is_error,
            content: self.content@,
            metadata: match self.metadata {
                Some(m) => Some(json::entries_view(m@)),
                None => None,
            },
        }
    }
}

impl View for ContentBlock {
    type V = BlockView;

    open spec fn view(&self) -> BlockView {
        match self {
            ContentBlock::Text(b) => BlockView::Text(b.text@),
            ContentBlock::Image(b) => BlockView::Image(b.media_type@, b.data@),
            ContentBlock::Thinking(b) => BlockView::Thinking(b.thinking@),
            ContentBlock::ToolUse(b) => BlockView::ToolUse(b@),
            ContentBlock::ToolResult(b) => BlockView::ToolResult(b@),
        }
    }
}

pub open spec fn blocks_view(blocks: Seq<ContentBlock>) -> Seq<BlockView> {
    Seq::new(blocks.len(), |i: int| blocks[i]@)
}

pub open spec fn messages_view(messages: Seq<Message>) -> Seq<MessageView> {
    Seq::new(messages.len(), |i: int| messages[i]@)
}

impl View for Message {
    type V = MessageView;

    open spec fn view(&self) -> MessageView {
        MessageView { role: self.role, content: blocks_view(self.content@) }
    }
}

impl Clone for ToolUseBlock {
    fn clone(&self) -> (r: Self)
        ensures
            r@ == self@,
    {
        ToolUseBlock {
            id: self.id.clone(),
            name: self.name.clone(),
            input: json::copy_entries(&self.input),
        }
    }
}

impl Clone for ToolResultBlock {
    fn clone(&self) -> (r: Self)
        ensures
            r@ == self@,
    {
        let metadata = match &self.metadata {
            Some(m) => Some(json::copy_entries(m)),
            None => None,
        };
        ToolResultBlock {
            tool_use_id: self.tool_use_id.clone(),
            is_error: self.is_error,
            content: self.content.clone(),
            metadata,
        }
    }
}

impl Clone for ContentBlock {
    fn clone(&self) -> (r: Self)
        ensures
            r@ == self@,
    {
        match self {
            ContentBlock::Text(b) => ContentBlock::Text(TextBlock { text: b.text.clone() }),
            ContentBlock::Image(b) => ContentBlock::Image(
                ImageBlock { media_type: b.media_type.clone(), data: b.data.clone() },
            ),
            ContentBlock::Thinking(b) => ContentBlock::Thinking(
                ThinkingBlock { thinking: b.thinking.clone() },
            ),
            ContentBlock::ToolUse(b) => ContentBlock::ToolUse(b.clone()),
            ContentBlock::ToolResult(b) => ContentBlock::ToolResult(b.clone()),
        }
    }
}

impl ContentBlock {
    pub fn from_text(text: String) -> (r: Self)
        ensures
            r@ == BlockView::Text(text@),
            r == ContentBlock::Text(TextBlock { text }),
    {
        ContentBlock::Text(TextBlock { text })
    }

    pub fn from_thinking(thinking: String) -> (r: Self)
        ensures
            r@ == BlockView::Thinking(thinking@),
            r == ContentBlock::Thinking(ThinkingBlock { thinking }),
    {
        ContentBlock::Thinking(ThinkingBlock { thinking })
    }
}

impl Clone for Message {
    fn clone(&self) -> (r: Self)
        ensures
            r@ == self@,
    {
        let mut content: Vec<ContentBlock> = Vec::new();
        let mut i: usize = 0;
        while i < self.content.len()
            invariant
                i <= self.content@.len(),
                content@.len() == i,
                forall|k: int| 0 <= k < i ==> (#[trigger] content@[k])@ == self.content@[k]@,
            decreases self.content@.len() - i,
        {
            content.push(self.content[i].clone());
            i = i + 1;
        }
        assert(blocks_view(content@) =~= blocks_view(self.content@));
        Message { role: self.role, content }
    }
}

impl Message {
    pub fn new(role: Role, content: Vec<ContentBlock>) -> (r: Self)
        ensures
            r == (Message { role, content }),
    {
        Message { role, content }
    }

    /// What a user message with the text `s` says.
    pub open spec fn user_text(s: Seq<char>) -> MessageView {
        MessageView { role: Role::User, content: seq![BlockView::Text(s)] }
    }

    pub fn from_user_text(text: String) -> (r: Self)
        ensures
            r@ == Message::user_text(text@),
    {
        let mut content: Vec<ContentBlock> = Vec::new();
        content.push(ContentBlock::from_text(text));
        assert(blocks_view(content@) =~= seq![BlockView::Text(text@)]);
        Message { role: Role::User, content }
    }
}

/// Copies of the given messages, in order.
pub fn copy_messages(messages: &Vec<Message>) -> (r: Vec<Message>)
    ensures
        messages_view(r@) == messages_view(messages@),
{
    let mut out: Vec<Message> = Vec::new();
    let mut i: usize = 0;
    while i < messages.len()
        invariant
            i <= messages@.len(),
            out@.len() == i,
            forall|k: int| 0 <= k < i ==> (#[trigger] out@[k])@ == messages@[k]@,
        decreases messages@.len() - i,
    {
        out.push(messages[i].clone());
        i = i + 1;
    }
    assert(messages_view(out@) =~= messages_view(messages@));
    out
}

} // verus!

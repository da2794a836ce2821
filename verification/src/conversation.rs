//! Conversations of content blocks, and the text they come to.

use vstd::prelude::*;

use crate::json::{as_text, Json};
use crate::text::{join_lines, joined, string_views};

verus! {

/// Who a message is from.
#[derive(Clone, Copy, Debug, PartialEq, Eq, Structural)]
pub enum Role {
    User,
    Assistant,
}

/// One block of content.
pub enum ContentBlock {
    Text { text: String },
    Refusal { text: String },
    Reasoning { text: String },
    /// A block of a kind that is not known, by its raw body.
    Unknown { raw: Json },
    /// A block of another kind, which carries no text.
    Other,
}

/// An instruction that stands before the messages.
pub struct Instruction {
    pub content: Vec<ContentBlock>,
}

/// One message of a conversation.
pub struct Message {
    pub role: Role,
    pub content: Vec<ContentBlock>,
}

/// A conversation that asks for a response.
pub struct ConversationRequest {
    /// The model the agent asked for.
    pub model: Option<String>,
    pub instructions: Vec<Instruction>,
    pub messages: Vec<Message>,
}

/// One output of a response.
pub struct ResponseOutput {
    pub role: Role,
    pub content: Vec<ContentBlock>,
    pub stop_reason: Option<String>,
}

/// The response to a conversation.
pub struct ConversationResponse {
    pub outputs: Vec<ResponseOutput>,
}

/// The text of a block: what a text, refusal or reasoning block says, and the raw body of an
/// unknown block where it is a string.
pub open spec fn block_text(block: ContentBlock) -> Option<Seq<char>> {
    match block {
        ContentBlock::Text { text } => Some(text@),
        ContentBlock::Refusal { text } => Some(text@),
        ContentBlock::Reasoning { text } => Some(text@),
        ContentBlock::Unknown { raw } => as_text(raw),
        ContentBlock::Other => None,
    }
}

/// The texts of several blocks, in order. Blocks without text are left out.
pub open spec fn block_texts(blocks: Seq<ContentBlock>) -> Seq<Seq<char>>
    decreases blocks.len(),
{
    if blocks.len() == 0 {
        Seq::empty()
    } else {
        let before = block_texts(blocks.drop_last());
        match block_text(blocks.last()) {
            Some(text) => before.push(text),
            None => before,
        }
    }
}

/// The texts of several instructions, in order.
pub open spec fn instruction_texts(instructions: Seq<Instruction>) -> Seq<Seq<char>>
    decreases instructions.len(),
{
    if instructions.len() == 0 {
        Seq::empty()
    } else {
        instruction_texts(instructions.drop_last()) + block_texts(instructions.last().content@)
    }
}

/// The texts of several messages, in order.
pub open spec fn message_texts(messages: Seq<Message>) -> Seq<Seq<char>>
    decreases messages.len(),
{
    if messages.len() == 0 {
        Seq::empty()
    } else {
        message_texts(messages.drop_last()) + block_texts(messages.last().content@)
    }
}

/// The texts of several outputs, in order.
pub open spec fn output_texts(outputs: Seq<ResponseOutput>) -> Seq<Seq<char>>
    decreases outputs.len(),
{
    if outputs.len() == 0 {
        Seq::empty()
    } else {
        output_texts(outputs.drop_last()) + block_texts(outputs.last().content@)
    }
}

/// The text of a conversation: its instructions, then its messages, one text per line.
pub open spec fn conversation_text(request: ConversationRequest) -> Seq<char> {
    joined(instruction_texts(request.instructions@) + message_texts(request.messages@))
}

/// The text of a response: the texts of its outputs, one per line.
pub open spec fn reply_text(response: ConversationResponse) -> Seq<char> {
    joined(output_texts(response.outputs@))
}

impl ContentBlock {
    /// The text of this block.
    pub fn text(&self) -> (r: Option<&str>)
        ensures
            match r {
                Some(text) => block_text(*self) == Some(text@),
                None => block_text(*self) is None,
            },
    {
        match self {
            ContentBlock::Text { text } => Some(text.as_str()),
            ContentBlock::Refusal { text } => Some(text.as_str()),
            ContentBlock::Reasoning { text } => Some(text.as_str()),
            ContentBlock::Unknown { raw } => raw.as_str(),
            ContentBlock::Other => None,
        }
    }
}

/// Append the texts of `blocks` to `lines`.
fn push_texts(lines: &mut Vec<String>, blocks: &Vec<ContentBlock>)
    ensures
        string_views(final(lines)@) == string_views(old(lines)@) + block_texts(blocks@),
{
    let ghost start = string_views(lines@);
    assert(start + block_texts(blocks@.take(0)) =~= start);
    for i in 0..blocks.len()
        invariant
            string_views(lines@) == start + block_texts(blocks@.take(i as int)),
    {
        let ghost before = lines@;
        let ghost longer = blocks@.take(i + 1);
        assert(longer.drop_last() =~= blocks@.take(i as int));
        assert(longer.last() == blocks@[i as int]);
        if let Some(text) = blocks[i].text() {
            lines.push(text.to_string());
            assert(string_views(lines@) =~= string_views(before).push(text@));
            assert(string_views(lines@) =~= start + block_texts(longer));
        }
    }
    assert(blocks@.take(blocks@.len() as int) =~= blocks@);
}

impl ConversationRequest {
    /// A conversation of one user message that asks `prompt` of `model`.
    pub fn text(model: &str, prompt: String) -> (r: Self)
        ensures
            r.model matches Some(name) && name@ == model@,
            r.instructions@.len() == 0,
            r.messages@.len() == 1,
            r.messages@[0].role == Role::User,
            r.messages@[0].content@ == seq![ContentBlock::Text { text: prompt }],
            conversation_text(r) == prompt@,
    {
        let mut content: Vec<ContentBlock> = Vec::new();
        content.push(ContentBlock::Text { text: prompt });
        let mut messages: Vec<Message> = Vec::new();
        messages.push(Message { role: Role::User, content });
        let r = ConversationRequest {
            model: Some(model.to_string()),
            instructions: Vec::new(),
            messages,
        };
        proof {
            assert(block_texts(content@.drop_last()) =~= Seq::<Seq<char>>::empty());
            assert(block_texts(content@) =~= seq![prompt@]);
            assert(message_texts(messages@.drop_last()) =~= Seq::<Seq<char>>::empty());
            assert(message_texts(messages@) =~= seq![prompt@]);
            assert(instruction_texts(r.instructions@) + message_texts(messages@) =~= seq![
                prompt@,
            ]);
        }
        r
    }

    /// The text of this conversation.
    pub fn prompt(&self) -> (r: String)
        ensures
            r@ == conversation_text(*self),
    {
        let mut lines: Vec<String> = Vec::new();
        assert(string_views(lines@) =~= instruction_texts(self.instructions@.take(0)));
        for i in 0..self.instructions.len()
            invariant
                string_views(lines@) == instruction_texts(self.instructions@.take(i as int)),
        {
            let ghost longer = self.instructions@.take(i + 1);
            assert(longer.drop_last() =~= self.instructions@.take(i as int));
            push_texts(&mut lines, &self.instructions[i].content);
        }
        assert(self.instructions@.take(self.instructions@.len() as int) =~= self.instructions@);
        let ghost head = instruction_texts(self.instructions@);
        assert(head + message_texts(self.messages@.take(0)) =~= head);
        for i in 0..self.messages.len()
            invariant
                string_views(lines@) == head + message_texts(self.messages@.take(i as int)),
        {
            let ghost so_far = message_texts(self.messages@.take(i as int));
            let ghost longer = self.messages@.take(i + 1);
            assert(longer.drop_last() =~= self.messages@.take(i as int));
            push_texts(&mut lines, &self.messages[i].content);
            assert(string_views(lines@) =~= head + message_texts(longer));
        }
        assert(self.messages@.take(self.messages@.len() as int) =~= self.messages@);
        join_lines(&lines)
    }
}

impl ConversationResponse {
    /// A response of one assistant output that says `completion`.
    pub fn text(completion: String) -> (r: Self)
        ensures
            r.outputs@.len() == 1,
            r.outputs@[0].role == Role::Assistant,
            r.outputs@[0].content@ == seq![ContentBlock::Text { text: completion }],
            r.outputs@[0].stop_reason is None,
            reply_text(r) == completion@,
    {
        let mut content: Vec<ContentBlock> = Vec::new();
        content.push(ContentBlock::Text { text: completion });
        let mut outputs: Vec<ResponseOutput> = Vec::new();
        outputs.push(ResponseOutput { role: Role::Assistant, content, stop_reason: None });
        proof {
            assert(block_texts(content@.drop_last()) =~= Seq::<Seq<char>>::empty());
            assert(block_texts(content@) =~= seq![completion@]);
            assert(output_texts(outputs@.drop_last()) =~= Seq::<Seq<char>>::empty());
            assert(output_texts(outputs@) =~= seq![completion@]);
        }
        ConversationResponse { outputs }
    }

    /// The text of this response.
    pub fn content(&self) -> (r: String)
        ensures
            r@ == reply_text(*self),
    {
        let mut lines: Vec<String> = Vec::new();
        assert(string_views(lines@) =~= output_texts(self.outputs@.take(0)));
        for i in 0..self.outputs.len()
            invariant
                string_views(lines@) == output_texts(self.outputs@.take(i as int)),
        {
            let ghost longer = self.outputs@.take(i + 1);
            assert(longer.drop_last() =~= self.outputs@.take(i as int));
            push_texts(&mut lines, &self.outputs[i].content);
        }
        assert(self.outputs@.take(self.outputs@.len() as int) =~= self.outputs@);
        join_lines(&lines)
    }
}

} // verus!

//! Laws of bodies and conversations: what is read out of them, whatever else they hold.

use vstd::prelude::*;

use crate::conversation::{
    block_text, block_texts, conversation_text, instruction_texts, message_texts, output_texts,
    reply_text, ContentBlock, ConversationRequest, ConversationResponse, Instruction, Message,
    ResponseOutput,
};
use crate::json::{
    as_text, completion_of, content_text, is_first_member, is_last_user, items, last_user_text,
    member, messages_text, part_texts, prompt_of, text_member, Json,
};
use crate::text::joined;

verus! {

/// A member is found by its key, the first where several have it. An object without the key has
/// none, and nor has any other value.
pub proof fn law_member(json: Json, members: Vec<(String, Json)>, key: Seq<char>, i: int)
    ensures
        json == Json::Object(members) && 0 <= i < members@.len() && members@[i].0@ == key && (
        forall|j: int| 0 <= j < i ==> (#[trigger] members@[j]).0@ != key) ==> member(json, key)
            == Some(members@[i].1),
        json == Json::Object(members) && (forall|j: int|
            0 <= j < members@.len() ==> (#[trigger] members@[j]).0@ != key) ==> member(json, key)
            is None,
        json !is Object ==> member(json, key) is None,
{
    if json == Json::Object(members) {
        if 0 <= i < members@.len() && members@[i].0@ == key && (forall|j: int|
            0 <= j < i ==> (#[trigger] members@[j]).0@ != key) {
            assert(is_first_member(members@, key, i));
            assert forall|k: int| is_first_member(members@, key, k) implies k == i by {
                if k < i {
                    assert(members@[k].0@ != key);
                }
                if i < k {
                    assert(members@[i].0@ != key);
                }
            }
        }
    }
}

/// A string is read as its text, and nothing else is.
pub proof fn law_text(json: Json, text: String, parts: Vec<Json>, key: Seq<char>)
    ensures
        as_text(Json::Text(text)) == Some(text@),
        json !is Text ==> as_text(json) is None,
        items(Json::Array(parts)) == Some(parts@),
        json !is Array ==> items(json) is None,
        member(json, key) == Some(Json::Text(text)) ==> text_member(json, key) == Some(text@),
        text_member(json, key) matches Some(t) ==> member(json, key) matches Some(Json::Text(found))
            && found@ == t,
{
}

/// The texts of content parts are exactly their `text` strings, whatever else the parts hold, at
/// increasing positions and none left out.
pub proof fn law_part_texts(parts: Seq<Json>) -> (positions: Seq<int>)
    ensures
        ({
            let texts = part_texts(parts);
            &&& positions.len() == texts.len()
            &&& forall|k: int|
                0 <= k < texts.len() ==> {
                    &&& 0 <= #[trigger] positions[k] < parts.len()
                    &&& member(parts[positions[k]], "text"@) matches Some(Json::Text(text))
                    &&& text@ == texts[k]
                }
            &&& forall|k: int, l: int|
                0 <= k < l < texts.len() ==> #[trigger] positions[k] < #[trigger] positions[l]
            &&& forall|i: int|
                0 <= i < parts.len() && (member(#[trigger] parts[i], "text"@) matches Some(
                    Json::Text(_),
                )) ==> positions.contains(i)
        }),
    decreases parts.len(),
{
    if parts.len() == 0 {
        Seq::empty()
    } else {
        let last = parts.len() - 1;
        let before = law_part_texts(parts.drop_last());
        let texts = part_texts(parts);
        let positions = if text_member(parts.last(), "text"@) is Some {
            before.push(last)
        } else {
            before
        };
        assert forall|k: int| 0 <= k < texts.len() implies {
            &&& 0 <= #[trigger] positions[k] < parts.len()
            &&& member(parts[positions[k]], "text"@) matches Some(Json::Text(text))
            &&& text@ == texts[k]
        } by {
            if k < before.len() {
                assert(parts.drop_last()[before[k]] == parts[before[k]]);
            }
        }
        assert forall|i: int|
            0 <= i < parts.len() && (member(#[trigger] parts[i], "text"@) matches Some(
                Json::Text(_),
            )) implies positions.contains(i) by {
            if i < last {
                assert(member(parts.drop_last()[i], "text"@) == member(parts[i], "text"@));
                let k = choose|k: int| 0 <= k < before.len() && before[k] == i;
                assert(positions[k] == i);
            } else {
                assert(positions[before.len() as int] == i);
            }
        }
        positions
    }
}

/// `content` says `text`: it is that string, or an array whose parts' texts join to that text,
/// which is not empty.
pub open spec fn says(content: Json, text: Seq<char>) -> bool {
    ||| content matches Json::Text(string) && string@ == text
    ||| content matches Json::Array(parts) && text.len() > 0 && text == joined(part_texts(parts@))
}

/// A content is read as what it says.
pub proof fn law_content(content: Json, text: Seq<char>)
    ensures
        content_text(content) == Some(text) <==> says(content, text),
{
}

/// The role of a message is the user's.
pub open spec fn from_user(message: Json) -> bool {
    member(message, "role"@) matches Some(Json::Text(role)) && role@ == "user"@
}

/// The message at `i` is the last one from the user, and its content says `text`.
pub open spec fn last_user_says(messages: Seq<Json>, i: int, text: Seq<char>) -> bool {
    &&& 0 <= i < messages.len()
    &&& from_user(messages[i])
    &&& forall|j: int| i < j < messages.len() ==> !from_user(#[trigger] messages[j])
    &&& member(messages[i], "content"@) matches Some(content)
    &&& says(content, text)
}

/// The user prompt of a body, whatever else the body holds: what the last user message says, or
/// what the `input` says where the messages say nothing.
pub proof fn law_prompt(body: Json, messages: Vec<Json>, i: int, text: Seq<char>)
    ensures
        member(body, "messages"@) == Some(Json::Array(messages)) && last_user_says(
            messages@,
            i,
            text,
        ) ==> prompt_of(body) == Some(text),
        !(member(body, "messages"@) matches Some(Json::Array(_))) ==> (prompt_of(body) == Some(text)
            <==> (member(body, "input"@) matches Some(input) && says(input, text))),
        member(body, "messages"@) == Some(Json::Array(messages)) && (forall|k: int, t: Seq<char>|
            !#[trigger] last_user_says(messages@, k, t)) ==> (prompt_of(body) == Some(text) <==> (
        member(body, "input"@) matches Some(input) && says(input, text))),
{
    if member(body, "messages"@) == Some(Json::Array(messages)) {
        if last_user_says(messages@, i, text) {
            lemma_last_user(messages@, i);
            assert(is_last_user(messages@, i));
            assert(messages_text(body) == Some(text));
        }
        if forall|k: int, t: Seq<char>| !#[trigger] last_user_says(messages@, k, t) {
            if exists|k: int| is_last_user(messages@, k) {
                let k = choose|k: int| is_last_user(messages@, k);
                assert(is_last_user(messages@, k));
                assert(from_user(messages@[k]));
                assert forall|j: int| k < j < messages@.len() implies !from_user(
                    #[trigger] messages@[j],
                ) by {
                    assert(text_member(messages@[j], "role"@) != Some("user"@));
                }
                if let Some(t) = last_user_text(messages@) {
                    assert(last_user_says(messages@, k, t));
                }
            }
            assert(messages_text(body) is None);
        }
    }
}

proof fn lemma_last_user(messages: Seq<Json>, i: int)
    requires
        0 <= i < messages.len(),
        from_user(messages[i]),
        forall|j: int| i < j < messages.len() ==> !from_user(#[trigger] messages[j]),
    ensures
        forall|k: int| is_last_user(messages, k) <==> k == i,
{
    assert forall|j: int| i < j < messages.len() implies text_member(
        #[trigger] messages[j],
        "role"@,
    ) != Some("user"@) by {
        assert(!from_user(messages[j]));
    }
    assert(is_last_user(messages, i));
    assert forall|k: int| is_last_user(messages, k) implies k == i by {
        if k < i {
            assert(text_member(messages[i], "role"@) != Some("user"@));
        }
        if i < k {
            assert(text_member(messages[k], "role"@) != Some("user"@));
        }
    }
}

/// The completion of a body, whatever other members it, its choices or its message hold, is the
/// string `content` of the `message` of the first of its `choices`. Where that is missing or no
/// string, there is none.
pub proof fn law_completion(body: Json, text: Seq<char>)
    ensures
        completion_of(body) == Some(text) <==> ({
            &&& member(body, "choices"@) matches Some(Json::Array(choices))
            &&& choices@.len() > 0
            &&& member(choices@[0], "message"@) matches Some(message)
            &&& member(message, "content"@) matches Some(Json::Text(content))
            &&& content@ == text
        }),
{
}

// ---------------------------------------------------------------------------------------------
// Conversations
// ---------------------------------------------------------------------------------------------

/// A block of text, refusal or reasoning says its text, and an unknown block its raw body where
/// that is a string. No other block says anything.
pub proof fn law_block_text(text: String, raw: Json)
    ensures
        block_text(ContentBlock::Text { text }) == Some(text@),
        block_text(ContentBlock::Refusal { text }) == Some(text@),
        block_text(ContentBlock::Reasoning { text }) == Some(text@),
        block_text(ContentBlock::Unknown { raw: Json::Text(text) }) == Some(text@),
        raw !is Text ==> block_text(ContentBlock::Unknown { raw }) is None,
        block_text(ContentBlock::Other) is None,
{
}

/// The texts of blocks are exactly what the blocks that say something say, at increasing
/// positions and none left out.
pub proof fn law_block_texts(blocks: Seq<ContentBlock>) -> (positions: Seq<int>)
    ensures
        ({
            let texts = block_texts(blocks);
            &&& positions.len() == texts.len()
            &&& forall|k: int|
                0 <= k < texts.len() ==> 0 <= #[trigger] positions[k] < blocks.len() && block_text(
                    blocks[positions[k]],
                ) == Some(texts[k])
            &&& forall|k: int, l: int|
                0 <= k < l < texts.len() ==> #[trigger] positions[k] < #[trigger] positions[l]
            &&& forall|i: int|
                0 <= i < blocks.len() && block_text(#[trigger] blocks[i]) is Some
                    ==> positions.contains(i)
        }),
    decreases blocks.len(),
{
    if blocks.len() == 0 {
        Seq::empty()
    } else {
        let last = blocks.len() - 1;
        let before = law_block_texts(blocks.drop_last());
        let texts = block_texts(blocks);
        let positions = if block_text(blocks.last()) is Some {
            before.push(last)
        } else {
            before
        };
        assert forall|k: int| 0 <= k < texts.len() implies 0 <= #[trigger] positions[k]
            < blocks.len() && block_text(blocks[positions[k]]) == Some(texts[k]) by {
            if k < before.len() {
                assert(blocks.drop_last()[before[k]] == blocks[before[k]]);
            }
        }
        assert forall|i: int|
            0 <= i < blocks.len() && block_text(#[trigger] blocks[i]) is Some
                implies positions.contains(i) by {
            if i < last {
                assert(block_text(blocks.drop_last()[i]) is Some);
                let k = choose|k: int| 0 <= k < before.len() && before[k] == i;
                assert(positions[k] == i);
            } else {
                assert(positions[before.len() as int] == i);
            }
        }
        positions
    }
}

/// The texts of instructions are those of each, one after the other.
pub proof fn law_instruction_texts(one: Instruction, a: Seq<Instruction>, b: Seq<Instruction>)
    ensures
        instruction_texts(seq![one]) == block_texts(one.content@),
        instruction_texts(a + b) == instruction_texts(a) + instruction_texts(b),
    decreases b.len(),
{
    assert(seq![one].drop_last() =~= Seq::<Instruction>::empty());
    assert(instruction_texts(seq![one].drop_last()) =~= Seq::<Seq<char>>::empty());
    assert(instruction_texts(seq![one]) =~= block_texts(one.content@));
    if b.len() == 0 {
        assert(a + b =~= a);
        assert(instruction_texts(b) =~= Seq::<Seq<char>>::empty());
    } else {
        law_instruction_texts(one, a, b.drop_last());
        assert((a + b).drop_last() =~= a + b.drop_last());
        assert((a + b).last() == b.last());
    }
    assert(instruction_texts(a + b) =~= instruction_texts(a) + instruction_texts(b));
}

/// The texts of messages are those of each, one after the other.
pub proof fn law_message_texts(one: Message, a: Seq<Message>, b: Seq<Message>)
    ensures
        message_texts(seq![one]) == block_texts(one.content@),
        message_texts(a + b) == message_texts(a) + message_texts(b),
    decreases b.len(),
{
    assert(seq![one].drop_last() =~= Seq::<Message>::empty());
    assert(message_texts(seq![one].drop_last()) =~= Seq::<Seq<char>>::empty());
    assert(message_texts(seq![one]) =~= block_texts(one.content@));
    if b.len() == 0 {
        assert(a + b =~= a);
        assert(message_texts(b) =~= Seq::<Seq<char>>::empty());
    } else {
        law_message_texts(one, a, b.drop_last());
        assert((a + b).drop_last() =~= a + b.drop_last());
        assert((a + b).last() == b.last());
    }
    assert(message_texts(a + b) =~= message_texts(a) + message_texts(b));
}

/// The texts of outputs are those of each, one after the other.
pub proof fn law_output_texts(
    one: ResponseOutput,
    a: Seq<ResponseOutput>,
    b: Seq<ResponseOutput>,
)
    ensures
        output_texts(seq![one]) == block_texts(one.content@),
        output_texts(a + b) == output_texts(a) + output_texts(b),
    decreases b.len(),
{
    assert(seq![one].drop_last() =~= Seq::<ResponseOutput>::empty());
    assert(output_texts(seq![one].drop_last()) =~= Seq::<Seq<char>>::empty());
    assert(output_texts(seq![one]) =~= block_texts(one.content@));
    if b.len() == 0 {
        assert(a + b =~= a);
        assert(output_texts(b) =~= Seq::<Seq<char>>::empty());
    } else {
        law_output_texts(one, a, b.drop_last());
        assert((a + b).drop_last() =~= a + b.drop_last());
        assert((a + b).last() == b.last());
    }
    assert(output_texts(a + b) =~= output_texts(a) + output_texts(b));
}

/// A conversation says what its instructions say, then what its messages say, and a response
/// what its outputs say, each text on a line of its own. Who a message is from and which model
/// is asked make no difference.
pub proof fn law_conversation_text(request: ConversationRequest, response: ConversationResponse)
    ensures
        conversation_text(request) == joined(
            instruction_texts(request.instructions@) + message_texts(request.messages@),
        ),
        reply_text(response) == joined(output_texts(response.outputs@)),
{
}

} // verus!

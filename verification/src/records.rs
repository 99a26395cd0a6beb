//! Access to the fields of one JSON line-record.
//!
//! Each line of a session file is an independent JSON object. Parsing JSON is
//! delegated to `serde_json` behind a small trusted surface; everything that
//! interprets the extracted fields is verified code.

use vstd::prelude::*;
use crate::text::spec_join;

verus! {

/// One entry of a structured message-content list.
#[derive(Debug)]
pub struct ContentBlock {
    pub kind: Option<String>,
    pub text: Option<String>,
}

/// The `message.content` payload of a record: either a plain string or an
/// ordered list of typed blocks.
#[derive(Debug)]
pub enum MessageContent {
    Text(String),
    Blocks(Vec<ContentBlock>),
}

/// Mathematical model of a content block.
pub struct ContentBlockView {
    pub kind: Option<Seq<char>>,
    pub text: Option<Seq<char>>,
}

/// Mathematical model of a message-content payload.
pub enum MessageContentView {
    Text(Seq<char>),
    Blocks(Seq<ContentBlockView>),
}

impl DeepView for ContentBlock {
    type V = ContentBlockView;

    open spec fn deep_view(&self) -> ContentBlockView {
        ContentBlockView { kind: self.kind.deep_view(), text: self.text.deep_view() }
    }
}

impl DeepView for MessageContent {
    type V = MessageContentView;

    open spec fn deep_view(&self) -> MessageContentView {
        match self {
            MessageContent::Text(s) => MessageContentView::Text(s.deep_view()),
            MessageContent::Blocks(v) => MessageContentView::Blocks(v.deep_view()),
        }
    }
}

/// The string value of the top-level field `key` of the JSON object on
/// `line`, if the line parses and holds one; a function of `line` and `key`
/// alone.
pub uninterp spec fn json_str_field_spec(line: Seq<char>, key: Seq<char>) -> Option<Seq<char>>;

/// The string value of `outer.inner` of the JSON object on `line`, if the
/// line parses and holds one; a function of the three arguments alone.
pub uninterp spec fn json_str_path_spec(
    line: Seq<char>,
    outer: Seq<char>,
    inner: Seq<char>,
) -> Option<Seq<char>>;

/// The `message.content` payload of the JSON object on `line`, if the line
/// parses and holds one; a function of `line` alone.
pub uninterp spec fn json_content_spec(line: Seq<char>) -> Option<MessageContentView>;

/// Relies on `serde_json::from_str`, `Value::get` and `Value::as_str`:
/// returns the string value of the top-level field `key`, or `None` when the
/// line does not parse, has no such field, or the field is not a string.
#[verifier::external_body]
pub fn json_str_field(line: &str, key: &str) -> (r: Option<String>)
    ensures
        r.deep_view() == json_str_field_spec(line@, key@),
{
    let v: serde_json::Value = serde_json::from_str(line).ok()?;
    Some(v.get(key)?.as_str()?.to_string())
}

/// Relies on `serde_json::from_str`, `Value::get` and `Value::as_str`:
/// returns the string value of the field `inner` inside the object field
/// `outer`, or `None` when any step of that path is absent or mistyped.
#[verifier::external_body]
pub fn json_str_path(line: &str, outer: &str, inner: &str) -> (r: Option<String>)
    ensures
        r.deep_view() == json_str_path_spec(line@, outer@, inner@),
{
    let v: serde_json::Value = serde_json::from_str(line).ok()?;
    Some(v.get(outer)?.get(inner)?.as_str()?.to_string())
}

/// Relies on `serde_json::from_str`, `Value::get`, `Value::as_str` and
/// `Value::as_array`: returns the `message.content` payload, a plain string
/// or the list of its blocks with each block's `type` and `text` fields.
#[verifier::external_body]
pub fn json_message_content(line: &str) -> (r: Option<MessageContent>)
    ensures
        r.deep_view() == json_content_spec(line@),
{
    let v: serde_json::Value = serde_json::from_str(line).ok()?;
    let content = v.get("message")?.get("content")?;
    if let Some(s) = content.as_str() {
        return Some(MessageContent::Text(s.to_string()));
    }
    let blocks = content.as_array()?.iter().map(|b| ContentBlock {
        kind: b.get("type").and_then(|t| t.as_str()).map(str::to_string),
        text: b.get("text").and_then(|t| t.as_str()).map(str::to_string),
    }).collect();
    Some(MessageContent::Blocks(blocks))
}

/// The `type` discriminator of a record line.
pub open spec fn record_type(line: Seq<char>) -> Option<Seq<char>> {
    json_str_field_spec(line, "type"@)
}

/// The `cwd` field of a record line.
pub open spec fn record_cwd(line: Seq<char>) -> Option<Seq<char>> {
    json_str_field_spec(line, "cwd"@)
}

/// The `summary` field of a record line.
pub open spec fn record_summary(line: Seq<char>) -> Option<Seq<char>> {
    json_str_field_spec(line, "summary"@)
}

/// The `customTitle` field of a record line.
pub open spec fn record_custom_title(line: Seq<char>) -> Option<Seq<char>> {
    json_str_field_spec(line, "customTitle"@)
}

/// The `forkedFrom.sessionId` field of a record line.
pub open spec fn record_forked_from(line: Seq<char>) -> Option<Seq<char>> {
    json_str_path_spec(line, "forkedFrom"@, "sessionId"@)
}

pub fn get_record_type(line: &str) -> (r: Option<String>)
    ensures
        r.deep_view() == record_type(line@),
{
    json_str_field(line, "type")
}

pub fn get_record_cwd(line: &str) -> (r: Option<String>)
    ensures
        r.deep_view() == record_cwd(line@),
{
    json_str_field(line, "cwd")
}

pub fn get_record_summary(line: &str) -> (r: Option<String>)
    ensures
        r.deep_view() == record_summary(line@),
{
    json_str_field(line, "summary")
}

pub fn get_record_custom_title(line: &str) -> (r: Option<String>)
    ensures
        r.deep_view() == record_custom_title(line@),
{
    json_str_field(line, "customTitle")
}

pub fn get_record_forked_from(line: &str) -> (r: Option<String>)
    ensures
        r.deep_view() == record_forked_from(line@),
{
    json_str_path(line, "forkedFrom", "sessionId")
}

pub fn get_record_content(line: &str) -> (r: Option<MessageContent>)
    ensures
        r.deep_view() == json_content_spec(line@),
{
    json_message_content(line)
}

/// The text a block contributes: its `text` field, only when the block is
/// typed `text`.
pub open spec fn block_text_if_text(b: ContentBlockView) -> Option<Seq<char>> {
    match b.kind {
        Some(k) => if k == "text"@ {
            b.text
        } else {
            None
        },
        None => None,
    }
}

/// The first text block of a block list.
pub open spec fn spec_first_text_block(blocks: Seq<ContentBlockView>) -> Option<Seq<char>>
    decreases blocks.len(),
{
    if blocks.len() == 0 {
        None
    } else {
        match block_text_if_text(blocks[0]) {
            Some(t) => Some(t),
            None => spec_first_text_block(blocks.skip(1)),
        }
    }
}

/// The head-metadata text of a content payload: the string itself, or the
/// first text block of a block list.
pub open spec fn spec_extract_text_content(c: MessageContentView) -> Option<Seq<char>> {
    match c {
        MessageContentView::Text(s) => Some(s),
        MessageContentView::Blocks(b) => spec_first_text_block(b),
    }
}

/// Extract first text from message content (string or list of blocks).
pub fn extract_text_content(content: &MessageContent) -> (r: Option<String>)
    ensures
        r.deep_view() == spec_extract_text_content(content.deep_view()),
{
    match content {
        MessageContent::Text(s) => Some(s.clone()),
        MessageContent::Blocks(blocks) => {
            let ghost bv = blocks.deep_view();
            let n = blocks.len();
            let mut i: usize = 0;
            proof {
                assert(bv.skip(0) =~= bv);
            }
            while i < n
                invariant
                    n == blocks@.len(),
                    bv == blocks.deep_view(),
                    bv.len() == n,
                    i <= n,
                    content.deep_view() == MessageContentView::Blocks(bv),
                    spec_first_text_block(bv) == spec_first_text_block(bv.skip(i as int)),
                decreases n - i,
            {
                let b = &blocks[i];
                proof {
                    assert(bv[i as int] == blocks@[i as int].deep_view());
                    assert(bv.skip(i as int)[0] == bv[i as int]);
                    assert(bv.skip(i as int).skip(1) =~= bv.skip(i + 1));
                }
                let is_text = match &b.kind {
                    Some(k) => crate::text::str_eq(k.as_str(), "text"),
                    None => false,
                };
                if is_text {
                    match &b.text {
                        Some(t) => {
                            proof {
                                assert(bv.skip(i as int).len() == n - i);
                                assert(bv[i as int].kind matches Some(k) && k == "text"@);
                                assert(bv[i as int].text == Some(t@));
                                assert(block_text_if_text(bv[i as int]) == Some(t@));
                                assert(spec_first_text_block(bv.skip(i as int)) == Some(t@));
                                assert(content.deep_view() == MessageContentView::Blocks(bv));
                            }
                            return Some(t.clone());
                        },
                        None => {},
                    }
                }
                i = i + 1;
            }
            proof {
                assert(bv.skip(n as int) =~= Seq::<ContentBlockView>::empty());
            }
            None
        },
    }
}

/// The texts of all text blocks, in order.
pub open spec fn spec_text_block_texts(blocks: Seq<ContentBlockView>) -> Seq<Seq<char>>
    decreases blocks.len(),
{
    if blocks.len() == 0 {
        Seq::empty()
    } else {
        let rest = spec_text_block_texts(blocks.drop_last());
        match block_text_if_text(blocks.last()) {
            Some(t) => rest.push(t),
            None => rest,
        }
    }
}

/// The search text of a content payload: the string itself, or all text
/// blocks joined with single spaces; `None` for a block list without text
/// blocks.
pub open spec fn spec_search_text(c: MessageContentView) -> Option<Seq<char>> {
    match c {
        MessageContentView::Text(s) => Some(s),
        MessageContentView::Blocks(b) => {
            let texts = spec_text_block_texts(b);
            if texts.len() == 0 {
                None
            } else {
                Some(spec_join(texts, " "@))
            }
        },
    }
}

/// Extract text from message content for search purposes. Unlike
/// `extract_text_content` (which returns the first text block), this joins
/// all text blocks: a search match could be in any block.
pub fn extract_message_text_for_search(content: &MessageContent) -> (r: Option<String>)
    ensures
        r.deep_view() == spec_search_text(content.deep_view()),
{
    match content {
        MessageContent::Text(s) => Some(s.clone()),
        MessageContent::Blocks(blocks) => {
            let ghost bv = blocks.deep_view();
            let n = blocks.len();
            let mut texts: Vec<String> = Vec::new();
            let mut i: usize = 0;
            while i < n
                invariant
                    n == blocks@.len(),
                    bv == blocks.deep_view(),
                    bv.len() == n,
                    i <= n,
                    texts.deep_view() == spec_text_block_texts(bv.take(i as int)),
                decreases n - i,
            {
                let b = &blocks[i];
                proof {
                    assert(bv[i as int] == blocks@[i as int].deep_view());
                    assert(bv.take(i + 1).drop_last() =~= bv.take(i as int));
                    assert(bv.take(i + 1).last() == bv[i as int]);
                }
                let ghost prev = texts.deep_view();
                let is_text = match &b.kind {
                    Some(k) => crate::text::str_eq(k.as_str(), "text"),
                    None => false,
                };
                if is_text {
                    match &b.text {
                        Some(t) => {
                            texts.push(t.clone());
                            proof {
                                assert(texts.deep_view() =~~= prev.push(t@));
                            }
                        },
                        None => {},
                    }
                }
                i = i + 1;
            }
            proof {
                assert(bv.take(n as int) =~= bv);
            }
            if texts.len() == 0 {
                None
            } else {
                Some(crate::text::join_strings(&texts, " "))
            }
        },
    }
}

} // verus!

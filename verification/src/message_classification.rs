//! Classification of user-message text when computing session metrics.

use vstd::prelude::*;

verus! {

/// Classification for user-message text when computing session metrics.
#[derive(Debug, Clone, Copy, PartialEq, Eq, Structural)]
pub enum MessageKind {
    Empty,
    SlashCommand,
    CommandTag,
    BracketedOutput,
    UserContent,
}

/// What `classify_user_text_for_metrics` returns, as a function of the text:
/// emptiness first, then a leading slash, angle bracket, or square bracket;
/// anything else is genuine user content.
pub open spec fn spec_classify(text: Seq<char>) -> MessageKind {
    if text.len() == 0 {
        MessageKind::Empty
    } else if text[0] == '/' {
        MessageKind::SlashCommand
    } else if text[0] == '<' {
        MessageKind::CommandTag
    } else if text[0] == '[' {
        MessageKind::BracketedOutput
    } else {
        MessageKind::UserContent
    }
}

/// Classify a user text payload for turn-count metrics.
pub fn classify_user_text_for_metrics(text: &str) -> (k: MessageKind)
    ensures
        k == spec_classify(text@),
{
    if text.unicode_len() == 0 {
        return MessageKind::Empty;
    }
    let c = text.get_char(0);
    if c == '/' {
        MessageKind::SlashCommand
    } else if c == '<' {
        MessageKind::CommandTag
    } else if c == '[' {
        MessageKind::BracketedOutput
    } else {
        MessageKind::UserContent
    }
}

/// A text counts as a conversation turn exactly when it is genuine user
/// content: non-empty and not starting with `/`, `<` or `[`.
pub open spec fn spec_counts_as_turn(text: Seq<char>) -> bool {
    spec_classify(text) == MessageKind::UserContent
}

/// Whether a user text should count as a conversation turn.
pub fn counts_as_turn(text: &str) -> (r: bool)
    ensures
        r == spec_counts_as_turn(text@),
{
    let k = classify_user_text_for_metrics(text);
    k == MessageKind::UserContent
}

/// A text may become the displayed first prompt unless it is empty, starts
/// with `/` or `<`, or starts with the literal prefix `[Request`. Other
/// bracket-prefixed text is allowed here, unlike in turn counting; that
/// asymmetry is deliberate and pinned by tests.
pub open spec fn spec_is_first_prompt_candidate(text: Seq<char>) -> bool {
    &&& text.len() > 0
    &&& text[0] != '/'
    &&& text[0] != '<'
    &&& !crate::text::is_prefix_of("[Request"@, text)
}

/// Whether a user text should be used as first prompt summary candidate.
pub fn is_first_prompt_candidate(text: &str) -> (r: bool)
    ensures
        r == spec_is_first_prompt_candidate(text@),
{
    if text.unicode_len() == 0 {
        return false;
    }
    let c = text.get_char(0);
    if c == '/' || c == '<' {
        return false;
    }
    let chars = crate::text::str_to_chars(text);
    let marker = crate::text::str_to_chars("[Request");
    !crate::text::starts_with_chars(chars.as_slice(), marker.as_slice())
}

} // verus!

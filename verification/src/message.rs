//! Conversation messages and completion data: the roles and message texts
//! handed to the language-model collaborator, its suggestions, and the
//! plain-value shapes of its responses.

use vstd::prelude::*;
use vstd::string::StrSliceExecFns;
use vstd::string::StringExecFns;
use crate::textutil::trim_spec;
use crate::textutil::trim_str;

verus! {

/// Who a conversation message speaks for.
#[derive(Clone, Copy, PartialEq, Eq, Structural, Debug)]
pub enum Role {
    System,
    User,
    Assistant,
    Developer,
}

/// One turn of the conversation transcript.
pub struct Message {
    pub role: Role,
    pub content: String,
}

impl Clone for Message {
    fn clone(&self) -> (r: Self)
        ensures
            r.role == self.role,
            r.content@ == self.content@,
    {
        Message { role: self.role, content: self.content.clone() }
    }
}

impl Message {
    /// A system turn.
    pub fn system(content: String) -> (r: Self)
        ensures
            r.role == Role::System,
            r.content@ == content@,
    {
        Message { role: Role::System, content }
    }

    /// A developer turn.
    pub fn developer(content: String) -> (r: Self)
        ensures
            r.role == Role::Developer,
            r.content@ == content@,
    {
        Message { role: Role::Developer, content }
    }

    /// A user turn.
    pub fn user(content: String) -> (r: Self)
        ensures
            r.role == Role::User,
            r.content@ == content@,
    {
        Message { role: Role::User, content }
    }

    /// An assistant turn.
    pub fn assistant(content: String) -> (r: Self)
        ensures
            r.role == Role::Assistant,
            r.content@ == content@,
    {
        Message { role: Role::Assistant, content }
    }
}

/// One commit-message suggestion: a title and an optional body.
pub struct CommitSuggestion {
    pub title: String,
    pub body: Option<String>,
}

impl Clone for CommitSuggestion {
    fn clone(&self) -> (r: Self)
        ensures
            r.title@ == self.title@,
            match (r.body, self.body) {
                (Some(a), Some(b)) => a@ == b@,
                (None, None) => true,
                _ => false,
            },
    {
        CommitSuggestion {
            title: self.title.clone(),
            body: match &self.body {
                Some(b) => Some(b.clone()),
                None => None,
            },
        }
    }
}

/// The commit message text a suggestion denotes: the trimmed title, and,
/// when the trimmed body is non-empty, a blank line and the trimmed body.
pub open spec fn spec_commit_message(title: Seq<char>, body: Option<Seq<char>>) -> Seq<char> {
    let t = trim_spec(title);
    match body {
        Some(b) => if trim_spec(b).len() > 0 {
            t + "\n\n"@ + trim_spec(b)
        } else {
            t
        },
        None => t,
    }
}

/// The optional body of a suggestion, as text.
pub open spec fn body_view(body: Option<String>) -> Option<Seq<char>> {
    match body {
        Some(b) => Some(b@),
        None => None,
    }
}

impl CommitSuggestion {
    /// Renders the suggestion as a commit message.
    pub fn as_commit_message(&self) -> (r: String)
        ensures
            r@ == spec_commit_message(self.title@, body_view(self.body)),
    {
        let title = trim_str(self.title.as_str());
        match &self.body {
            Some(b) => {
                let bt = trim_str(b.as_str());
                if bt.as_str().unicode_len() > 0 {
                    let mut out = title;
                    out.append("\n\n");
                    out.append(bt.as_str());
                    out
                } else {
                    title
                }
            },
            None => title,
        }
    }
}

/// The suggestion list as the model returns it.
pub struct CommitSuggestionsEnvelope {
    pub suggestions: Vec<CommitSuggestion>,
}

/// The error object of a failed model request.
pub struct Error {
    pub message: String,
    pub type_field: String,
    pub param: Option<String>,
    pub code: Option<String>,
}

/// The wrapper object around a request error.
pub struct ErrorRoot {
    pub error: Error,
}

/// Token accounting for one completion.
pub struct Usage {
    pub prompt_tokens: usize,
    pub completion_tokens: usize,
    pub total_tokens: usize,
    pub completion_tokens_details: CompletionTokensDetails,
}

/// Finer-grained completion token counts.
pub struct CompletionTokensDetails {
    pub reasoning_tokens: usize,
    pub accepted_prediction_tokens: usize,
    pub rejected_prediction_tokens: usize,
}

impl Default for CompletionTokensDetails {
    fn default() -> (r: Self)
        ensures
            r.reasoning_tokens == 0,
            r.accepted_prediction_tokens == 0,
            r.rejected_prediction_tokens == 0,
    {
        CompletionTokensDetails {
            reasoning_tokens: 0,
            accepted_prediction_tokens: 0,
            rejected_prediction_tokens: 0,
        }
    }
}

/// The outcome of one model request: the parsed suggestions and, when the
/// response carried it, the usage accounting.
pub struct CompletionResult {
    pub suggestions: Vec<CommitSuggestion>,
    pub usage: Option<Usage>,
}

/// One content part of a structured assistant message.
pub struct ContentPart {
    pub kind: String,
    pub text: Option<String>,
}

/// The content of an assistant message: plain text, or a list of parts.
pub enum MessageContent {
    Text(String),
    Array(Vec<ContentPart>),
}

/// One choice of a completion response.
pub struct ChoiceMessage {
    pub role: Role,
    pub content: MessageContent,
}

/// The text a content part contributes: its text, when the part's kind is
/// `output_text` or `text` and it carries any.
pub open spec fn part_text(kind: Seq<char>, text: Option<Seq<char>>) -> Seq<char> {
    if (kind == "output_text"@ || kind == "text"@) && text is Some {
        text.unwrap()
    } else {
        Seq::empty()
    }
}

/// The text of a part vector, viewed abstractly.
pub open spec fn parts_text(parts: Seq<ContentPart>) -> Seq<char>
    decreases parts.len(),
{
    if parts.len() == 0 {
        Seq::empty()
    } else {
        part_text(
            parts[0].kind@,
            match parts[0].text {
                Some(t) => Some(t@),
                None => None,
            },
        ) + parts_text(parts.drop_first())
    }
}

impl ChoiceMessage {
    /// The textual content of the choice: the plain text itself, or the
    /// concatenated texts of its `output_text`/`text` parts; `None` when
    /// that concatenation is empty.
    pub fn into_text(self) -> (r: Option<String>)
        ensures
            match self.content {
                MessageContent::Text(s) => r matches Some(t) && t@ == s@,
                MessageContent::Array(parts) => {
                    if parts_text(parts@).len() == 0 {
                        r is None
                    } else {
                        r matches Some(t) && t@ == parts_text(parts@)
                    }
                },
            },
    {
        match self.content {
            MessageContent::Text(s) => Some(s),
            MessageContent::Array(parts) => {
                let ghost all = parts@;
                let mut text = String::new();
                let n = parts.len();
                let mut i: usize = 0;
                proof {
                    assert(all.skip(0) =~= all);
                }
                while i < n
                    invariant
                        i <= n,
                        n == all.len(),
                        all == parts@,
                        parts_text(all) == text@ + parts_text(all.skip(i as int)),
                    decreases n - i,
                {
                    let ghost rest = all.skip(i as int);
                    proof {
                        assert(rest[0] == all[i as int]);
                        assert(rest.drop_first() =~= all.skip(i as int + 1));
                    }
                    let part = &parts[i];
                    let is_texty = crate::textutil::str_eq_str(part.kind.as_str(), "output_text")
                        || crate::textutil::str_eq_str(part.kind.as_str(), "text");
                    if is_texty {
                        match &part.text {
                            Some(content) => {
                                text.append(content.as_str());
                            },
                            None => {},
                        }
                    }
                    proof {
                        assert(parts_text(all) =~= text@ + parts_text(all.skip(i as int + 1)));
                    }
                    i = i + 1;
                }
                proof {
                    assert(all.skip(n as int) =~= Seq::<ContentPart>::empty());
                    assert(parts_text(all) =~= text@);
                }
                if text.as_str().unicode_len() == 0 {
                    None
                } else {
                    Some(text)
                }
            },
        }
    }
}

} // verus!

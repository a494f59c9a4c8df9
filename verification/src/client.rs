//! The agent-client seam: provider routing by model identifier, the
//! bearer-token holder, and assembly of a streamed chat response from its
//! events. Opening the network stream happens outside the library, which
//! hands the received events in as plain values.

use vstd::prelude::*;
use crate::text::contains_sub;
use crate::text::has_sub;

verus! {

/// Holds the key that authenticates requests.
#[derive(Debug, Clone)]
pub struct SimpleAuthProvider {
    pub api_key: String,
}

impl SimpleAuthProvider {
    /// The bearer token sent with every request.
    pub fn bearer_token(&self) -> (r: Option<String>)
        ensures
            r matches Some(k) && k@ == self.api_key@,
    {
        Some(self.api_key.clone())
    }
}

/// Which provider a model identifier routes to.
#[derive(Debug, Clone, Copy, PartialEq, Eq, Structural)]
pub enum ProviderKind {
    Gemini,
    OpenAi,
}

/// Routes a model identifier by name: an identifier that mentions
/// `gemini` goes to that provider, every other one to the default.
pub fn provider_kind_for_model(model_id: &str) -> (r: ProviderKind)
    ensures
        r == (if has_sub(model_id@, "gemini"@) {
            ProviderKind::Gemini
        } else {
            ProviderKind::OpenAi
        }),
{
    if contains_sub(model_id, "gemini") {
        ProviderKind::Gemini
    } else {
        ProviderKind::OpenAi
    }
}

/// One event of a streamed chat response: a text delta, a completed
/// message with its role and its output text items, or anything else.
#[derive(Debug, Clone)]
pub enum StreamEvent {
    OutputTextDelta { text: String },
    OutputMessageDone { role: String, texts: Vec<String> },
    Other,
}

/// The text assembled from the events at or after `i`, starting from
/// `acc`: deltas append; a completed assistant message supplies its first
/// output text only when nothing was assembled yet.
pub open spec fn spec_assembled(events: Seq<StreamEvent>, i: int, acc: Seq<char>) -> Seq<char>
    decreases events.len() - i when 0 <= i <= events.len()
{
    if i >= events.len() {
        acc
    } else {
        match events[i] {
            StreamEvent::OutputTextDelta { text } => spec_assembled(events, i + 1, acc + text@),
            StreamEvent::OutputMessageDone { role, texts } => {
                if role@ == "assistant"@ && acc.len() == 0 && texts@.len() > 0 {
                    spec_assembled(events, i + 1, texts@[0]@)
                } else {
                    spec_assembled(events, i + 1, acc)
                }
            },
            StreamEvent::Other => spec_assembled(events, i + 1, acc),
        }
    }
}

/// Assembles the full response text from a stream's events, and reports
/// an empty response as the error the caller surfaces: exactly when the
/// assembled text is empty, the result is `Err` and names the model.
pub fn assemble_stream_text(model_id: &str, events: &Vec<StreamEvent>) -> (r: Result<
    String,
    String,
>)
    ensures
        spec_assembled(events@, 0, Seq::empty()).len() > 0 <==> r is Ok,
        r matches Ok(c) ==> c@ == spec_assembled(events@, 0, Seq::empty()),
        r matches Err(e) ==> e@ == "No content in response from "@ + model_id@,
{
    let mut acc = String::new();
    let mut i: usize = 0;
    proof {
        assert(acc@ =~= Seq::<char>::empty());
    }
    while i < events.len()
        invariant
            0 <= i <= events@.len(),
            spec_assembled(events@, 0, Seq::empty()) == spec_assembled(events@, i as int, acc@),
        decreases events@.len() - i,
    {
        match &events[i] {
            StreamEvent::OutputTextDelta { text } => {
                acc.append(text.as_str());
            },
            StreamEvent::OutputMessageDone { role, texts } => {
                if crate::text::str_eq(role.as_str(), "assistant") && acc.as_str().unicode_len()
                    == 0 && texts.len() > 0 {
                    acc = texts[0].clone();
                }
            },
            StreamEvent::Other => {},
        }
        i += 1;
    }
    if acc.as_str().unicode_len() == 0 {
        let mut msg = String::from_str("No content in response from ");
        msg.append(model_id);
        Err(msg)
    } else {
        Ok(acc)
    }
}

} // verus!

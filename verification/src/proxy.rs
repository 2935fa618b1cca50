//! The pure translation rules of the chat proxy endpoint: shaping an
//! incoming Ollama-style chat request into the OpenAI-style upstream
//! request, and picking the reply out of the upstream response. All
//! transport — HTTP, serialization, the listener — is left to the caller.

use vstd::prelude::*;

verus! {

/// The TCP port the proxy listens on when the configuration names none.
pub fn default_port() -> (r: u16)
    ensures
        r == 11434u16,
{
    11434
}

/// One chat message: a role (such as "user" or "assistant") and its text.
pub struct Message {
    pub role: String,
    pub content: String,
}

/// An incoming chat request in the Ollama shape: an optional model
/// override and the conversation so far.
pub struct OllamaChatRequest {
    pub model: Option<String>,
    pub messages: Vec<Message>,
}

/// The outgoing upstream request in the OpenAI shape.
pub struct OpenAIRequest {
    pub model: String,
    pub messages: Vec<Message>,
    pub stream: bool,
}

/// One candidate answer within the upstream response.
pub struct Choice {
    pub message: Option<Message>,
}

/// The upstream response in the OpenAI shape.
pub struct OpenAIResponse {
    pub choices: Vec<Choice>,
}

/// The reply handed back to the client in the Ollama shape.
pub struct OllamaResponse {
    pub model: String,
    pub message: Message,
    pub done: bool,
}

/// Build the upstream request for a chat call and pick the model name the
/// reply will be labelled with. The upstream request always carries the
/// configured model, the client's messages unchanged, and never streams;
/// the reply label is the client's model override when present, the
/// configured model otherwise.
pub fn translate_request(config_model: &String, req: OllamaChatRequest) -> (r: (
    OpenAIRequest,
    String,
))
    ensures
        r.0.model@ == config_model@,
        r.0.messages == req.messages,
        r.0.stream == false,
        r.1@ == (match req.model {
            Some(m) => m@,
            None => config_model@,
        }),
{
    let upstream_model = config_model.clone();
    let reply_model = match req.model {
        Some(m) => m,
        None => config_model.clone(),
    };
    let upstream = OpenAIRequest { model: upstream_model, messages: req.messages, stream: false };
    (upstream, reply_model)
}

/// Extract the reply from an upstream response: the first candidate's
/// message when there is one, otherwise an empty assistant message. Later
/// candidates are never consulted.
pub fn extract_reply(resp: OpenAIResponse) -> (m: Message)
    ensures
        resp.choices@.len() > 0 && resp.choices@[0].message is Some ==> Some(m) == resp.choices@[0].message,
        resp.choices@.len() == 0 || resp.choices@[0].message is None ==> m.role@ == "assistant"@
            && m.content@ == ""@,
{
    let mut choices = resp.choices;
    if choices.len() > 0 {
        let first = choices.remove(0);
        match first.message {
            Some(found) => {
                return found;
            },
            None => {},
        }
    }
    Message { role: "assistant".to_owned(), content: "".to_owned() }
}

/// Assemble the reply sent back to the client: the chosen model label and
/// message, with the conversation always marked done (the proxy never
/// streams partial replies).
pub fn build_response(model: String, message: Message) -> (r: OllamaResponse)
    ensures
        r.model == model,
        r.message == message,
        r.done == true,
{
    OllamaResponse { model, message, done: true }
}

} // verus!

//! The shared pre-processing of the two OpenAI endpoints: option gating,
//! request-id minting, model and template lookup, and prompt rendering. The
//! HTTP transport around it only relays what is decided here.

use vstd::prelude::*;
use vstd::string::StringExecFns;
use crate::config::ModelMap;
use crate::openai::{ChatCompletionRequest, CompletionRequest, HttpError};
use crate::params::opt_or;
use crate::rpc::ClientRegistry;
use crate::template::{msg_views, spec_render};

verus! {

/// Whether `c` is a lowercase hexadecimal digit.
pub open spec fn is_hex_lower(c: char) -> bool {
    (48 <= c as u32 <= 57) || (97 <= c as u32 <= 102)
}

/// Relies on uuid's `Uuid::new_v4` and its simple formatter: a fresh random
/// identifier formats as exactly 32 lowercase hexadecimal characters, with no
/// separators. Nothing more is promised: the value depends on chance.
#[verifier::external_body]
fn fresh_uuid_simple() -> (r: String)
    ensures
        r@.len() == 32,
        forall|j: int| 0 <= j < r@.len() ==> is_hex_lower(#[trigger] r@[j]),
{
    uuid::Uuid::new_v4().as_simple().to_string()
}

/// Relies on chrono's `Utc::now`: the whole seconds since the Unix epoch at
/// the call. Nothing is promised of the value, which depends on the clock.
#[verifier::external_body]
pub fn current_epoch_seconds() -> i64 {
    chrono::Utc::now().timestamp()
}

/// Whether `id` is a request id under the given prefix: the prefix followed
/// by 32 lowercase hexadecimal characters.
pub open spec fn request_id_ok(id: Seq<char>, prefix: Seq<char>) -> bool {
    &&& id.len() == prefix.len() + 32
    &&& id.take(prefix.len() as int) == prefix
    &&& forall|j: int| prefix.len() <= j < id.len() ==> is_hex_lower(#[trigger] id[j])
}

/// Mints a request id under the given prefix.
fn make_request_id(prefix: &str) -> (r: String)
    ensures
        request_id_ok(r@, prefix@),
{
    let mut r = String::from_str(prefix);
    let suffix = fresh_uuid_simple();
    r.append(suffix.as_str());
    proof {
        assert(r@.take(prefix@.len() as int) =~= prefix@);
    }
    r
}

/// What the chat endpoint hands to the adapter once a request is accepted.
#[derive(Debug)]
pub struct ChatPrepared {
    pub request_id: String,
    pub created: i64,
    pub stream: bool,
    pub n_logprobs: u32,
    pub prompt: String,
}

/// What the completions endpoint hands to the adapter once a request is
/// accepted.
#[derive(Debug)]
pub struct CompletionPrepared {
    pub request_id: String,
    pub created: i64,
    pub stream: bool,
    pub n_logprobs: u32,
    pub echo: bool,
}

/// Screens a chat request and prepares its dispatch: unsupported options are
/// refused with status 501, an unknown model or missing chat template with
/// status 422, and a template that raises while rendering with status 400
/// carrying the raised message; otherwise the prompt is the rendering of the
/// model's template over the request's messages.
pub fn chat_preflight<C>(
    registry: &ClientRegistry<C>,
    model_map: &ModelMap,
    request: &ChatCompletionRequest,
) -> (r: Result<ChatPrepared, HttpError>)
    ensures
        ({
            let model = request.model@;
            let beam = request.use_beam_search == Some(true);
            let tpl = model_map.spec_find_chat_template(model);
            match r {
                Err(e) => {
                    if request.best_of is Some {
                        e.status == 501 && e.message@ == "`best_of` is not yet implemented"@
                    } else if beam {
                        e.status == 501 && e.message@ == "`use_beam_search` is not yet implemented"@
                    } else if !registry.spec_contains(model) {
                        e.status == 422 && e.message@ == "Unrecognized model id `"@ + model + "`"@
                    } else if tpl is None {
                        e.status == 422 && e.message@ == "Chat template not found for model id `"@
                            + model + "`"@
                    } else {
                        e.status == 400 && spec_render(
                            tpl->0.source,
                            tpl->0.bos,
                            tpl->0.eos,
                            msg_views(request.messages@),
                        ) == Err::<Seq<char>, Seq<char>>(e.message@)
                    }
                },
                Ok(p) => {
                    &&& request.best_of is None
                    &&& !beam
                    &&& registry.spec_contains(model)
                    &&& tpl is Some
                    &&& spec_render(
                        tpl->0.source,
                        tpl->0.bos,
                        tpl->0.eos,
                        msg_views(request.messages@),
                    ) == Ok::<Seq<char>, Seq<char>>(p.prompt@)
                    &&& p.stream == opt_or(request.stream, false)
                    &&& p.n_logprobs == opt_or(request.top_logprobs, 0)
                    &&& request_id_ok(p.request_id@, "chatcmpl-"@)
                },
            }
        }),
{
    if request.best_of.is_some() {
        return Err(
            HttpError { status: 501, message: String::from_str("`best_of` is not yet implemented") },
        );
    }
    let beam = match request.use_beam_search {
        Some(b) => b,
        None => false,
    };
    if beam {
        return Err(
            HttpError {
                status: 501,
                message: String::from_str("`use_beam_search` is not yet implemented"),
            },
        );
    }
    if registry.get(request.model.as_str()).is_none() {
        let mut message = String::from_str("Unrecognized model id `");
        message.append(request.model.as_str());
        message.append("`");
        return Err(HttpError { status: 422, message });
    }
    let template = match model_map.find_chat_template(request.model.as_str()) {
        Some(t) => t,
        None => {
            let mut message = String::from_str("Chat template not found for model id `");
            message.append(request.model.as_str());
            message.append("`");
            return Err(HttpError { status: 422, message });
        },
    };
    let prompt = match template.render(&request.messages) {
        Ok(p) => p,
        Err(raised) => {
            return Err(HttpError { status: 400, message: raised });
        },
    };
    let request_id = make_request_id("chatcmpl-");
    let created = current_epoch_seconds();
    Ok(
        ChatPrepared {
            request_id,
            created,
            stream: request.stream.unwrap_or(false),
            n_logprobs: request.top_logprobs.unwrap_or(0),
            prompt,
        },
    )
}

/// Screens a completion request and prepares its dispatch: unsupported options
/// are refused with status 501 and an unknown model with status 422.
pub fn completions_preflight<C>(registry: &ClientRegistry<C>, request: &CompletionRequest) -> (r:
    Result<CompletionPrepared, HttpError>)
    ensures
        ({
            let model = request.model@;
            let beam = request.use_beam_search == Some(true);
            match r {
                Err(e) => {
                    if request.best_of is Some {
                        e.status == 501 && e.message@ == "`best_of` is not yet implemented"@
                    } else if beam {
                        e.status == 501 && e.message@ == "`use_beam_search` is not yet implemented"@
                    } else {
                        !registry.spec_contains(model) && e.status == 422 && e.message@
                            == "Unrecognized model id `"@ + model + "`"@
                    }
                },
                Ok(p) => {
                    &&& request.best_of is None
                    &&& !beam
                    &&& registry.spec_contains(model)
                    &&& p.stream == opt_or(request.stream, false)
                    &&& p.n_logprobs == opt_or(request.logprobs, 0)
                    &&& p.echo == opt_or(request.echo, false)
                    &&& request_id_ok(p.request_id@, "cmpl-"@)
                },
            }
        }),
{
    if request.best_of.is_some() {
        return Err(
            HttpError { status: 501, message: String::from_str("`best_of` is not yet implemented") },
        );
    }
    let beam = match request.use_beam_search {
        Some(b) => b,
        None => false,
    };
    if beam {
        return Err(
            HttpError {
                status: 501,
                message: String::from_str("`use_beam_search` is not yet implemented"),
            },
        );
    }
    if registry.get(request.model.as_str()).is_none() {
        let mut message = String::from_str("Unrecognized model id `");
        message.append(request.model.as_str());
        message.append("`");
        return Err(HttpError { status: 422, message });
    }
    let request_id = make_request_id("cmpl-");
    let created = current_epoch_seconds();
    Ok(
        CompletionPrepared {
            request_id,
            created,
            stream: request.stream.unwrap_or(false),
            n_logprobs: request.logprobs.unwrap_or(0),
            echo: request.echo.unwrap_or(false),
        },
    )
}

} // verus!

//! The chat side of the OpenAI adapter: per-token log-probability entries,
//! unary response assembly, and the response-stream state machine.

use vstd::prelude::*;
use crate::generation::{GenerationResponse, StopReason, TokenInfo, TopToken};
use crate::generation::{finish_reason_of, spec_finish_reason};
use crate::logprobs::{collapse_last, collapsed_last_ok, lp_views};
use crate::openai::{
    ChatCompletionChoice, ChatCompletionChunk, ChatCompletionChunkChoice, ChatCompletionLogprob,
    ChatCompletionLogprobs, ChatCompletionMessage, ChatCompletionResponse, ChatCompletionTopLogprob,
    ChatEvent, HttpError, Usage,
};
use vstd::string::StringExecFns;

verus! {

/// The token/log-probability pairs considered at one token position: the
/// alternatives, then the chosen token itself (so its value wins a collapse).
pub open spec fn spec_token_pairs(t: TokenInfo) -> Seq<(Seq<char>, u32)> {
    t.top_tokens@.map_values(|tt: TopToken| (tt.text@, tt.logprob_bits)).push(
        (t.text@, t.logprob_bits),
    )
}

/// The views of chat top-logprob entries.
pub open spec fn top_entry_views(s: Seq<ChatCompletionTopLogprob>) -> Seq<(Seq<char>, u32)> {
    s.map_values(|e: ChatCompletionTopLogprob| (e.token@, e.logprob_bits))
}

/// Whether `e` is the log-probability entry for token `t` under `n` requested
/// alternatives: the token and its log-probability verbatim, and, when any
/// alternatives were requested, the collapsed table of alternatives and the
/// chosen token, the last written value winning, ordered ascending, at most
/// one entry more than there are alternatives.
pub open spec fn chat_logprob_ok(e: ChatCompletionLogprob, t: TokenInfo, n: u32) -> bool {
    &&& e.token@ == t.text@
    &&& e.logprob_bits == t.logprob_bits
    &&& if n > 0 {
        &&& e.top_logprobs is Some
        &&& collapsed_last_ok(spec_token_pairs(t), top_entry_views(e.top_logprobs->0@))
        &&& e.top_logprobs->0@.len() <= t.top_tokens@.len() + 1
    } else {
        e.top_logprobs is None
    }
}

/// Whether `lp` is the chat log-probability block for `tokens` under `n`:
/// absent exactly when there are no tokens, else one entry per token.
pub open spec fn chat_logprobs_ok(
    lp: Option<ChatCompletionLogprobs>,
    tokens: Seq<TokenInfo>,
    n: u32,
) -> bool {
    &&& lp is None <==> tokens.len() == 0
    &&& lp is Some ==> lp->0.content@.len() == tokens.len()
    &&& lp is Some ==> forall|i: int|
        0 <= i < tokens.len() ==> chat_logprob_ok(#[trigger] lp->0.content@[i], tokens[i], n)
}

/// The pairs a collapse starts from, as owned values.
pub(crate) fn token_pairs(t: &TokenInfo) -> (r: Vec<(String, u32)>)
    ensures
        lp_views(r@) == spec_token_pairs(*t),
{
    let mut r: Vec<(String, u32)> = Vec::new();
    let mut i: usize = 0;
    while i < t.top_tokens.len()
        invariant
            0 <= i <= t.top_tokens@.len(),
            lp_views(r@) =~= t.top_tokens@.take(i as int).map_values(
                |tt: TopToken| (tt.text@, tt.logprob_bits),
            ),
        decreases t.top_tokens@.len() - i,
    {
        r.push((t.top_tokens[i].text.clone(), t.top_tokens[i].logprob_bits));
        proof {
            assert(t.top_tokens@.take(i + 1).map_values(
                |tt: TopToken| (tt.text@, tt.logprob_bits),
            ) =~= t.top_tokens@.take(i as int).map_values(
                |tt: TopToken| (tt.text@, tt.logprob_bits),
            ).push((t.top_tokens@[i as int].text@, t.top_tokens@[i as int].logprob_bits)));
            assert(lp_views(r@) =~= t.top_tokens@.take(i + 1).map_values(
                |tt: TopToken| (tt.text@, tt.logprob_bits),
            ));
        }
        i = i + 1;
    }
    r.push((t.text.clone(), t.logprob_bits));
    proof {
        assert(t.top_tokens@.take(t.top_tokens@.len() as int) =~= t.top_tokens@);
        assert(lp_views(r@) =~= spec_token_pairs(*t));
    }
    r
}

/// Builds the chat log-probability block: absent when there are no tokens,
/// else one entry per token, each with its collapsed, ascending alternatives
/// when `n_logprobs` asks for any.
pub fn create_logprobs(tokens: Vec<TokenInfo>, n_logprobs: u32) -> (r: Option<
    ChatCompletionLogprobs,
>)
    ensures
        chat_logprobs_ok(r, tokens@, n_logprobs),
{
    if tokens.len() == 0 {
        return None;
    }
    let mut content: Vec<ChatCompletionLogprob> = Vec::new();
    let mut i: usize = 0;
    while i < tokens.len()
        invariant
            0 <= i <= tokens@.len(),
            content@.len() == i,
            forall|j: int|
                0 <= j < i ==> chat_logprob_ok(#[trigger] content@[j], tokens@[j], n_logprobs),
        decreases tokens@.len() - i,
    {
        let t = &tokens[i];
        let top_logprobs: Option<Vec<ChatCompletionTopLogprob>> = if n_logprobs > 0 {
            let pairs = token_pairs(t);
            let collapsed = collapse_last(&pairs);
            let mut entries: Vec<ChatCompletionTopLogprob> = Vec::new();
            let mut k: usize = 0;
            while k < collapsed.len()
                invariant
                    0 <= k <= collapsed@.len(),
                    top_entry_views(entries@) == lp_views(collapsed@).take(k as int),
                decreases collapsed@.len() - k,
            {
                let ghost prev = entries@;
                entries.push(
                    ChatCompletionTopLogprob {
                        token: collapsed[k].0.clone(),
                        logprob_bits: collapsed[k].1,
                    },
                );
                proof {
                    assert(entries@.drop_last() =~= prev);
                    assert(entries@.last().token@ == collapsed@[k as int].0@);
                    assert(entries@.last().logprob_bits == collapsed@[k as int].1);
                    assert(top_entry_views(entries@) =~= top_entry_views(prev).push(
                        (collapsed@[k as int].0@, collapsed@[k as int].1),
                    ));
                    assert(top_entry_views(entries@) =~= lp_views(collapsed@).take(k + 1));
                }
                k = k + 1;
            }
            proof {
                assert(lp_views(collapsed@).take(collapsed@.len() as int) =~= lp_views(
                    collapsed@,
                ));
                assert(spec_token_pairs(tokens@[i as int]).len() == tokens@[i as int].top_tokens@.len()
                    + 1);
            }
            Some(entries)
        } else {
            None
        };
        content.push(
            ChatCompletionLogprob { token: t.text.clone(), logprob_bits: t.logprob_bits, top_logprobs },
        );
        i = i + 1;
    }
    Some(ChatCompletionLogprobs { content })
}

/// The law of the chat top-logprob tables: whenever alternatives are
/// requested, every emitted table is ordered ascending by log-probability,
/// carries no token text twice, and holds at most one entry more than there
/// are alternatives at that position.
pub proof fn lemma_chat_top_logprobs_shape(e: ChatCompletionLogprob, t: TokenInfo, n: u32)
    requires
        n > 0,
        chat_logprob_ok(e, t, n),
    ensures
        e.top_logprobs is Some,
        crate::logprobs::lp_sorted(top_entry_views(e.top_logprobs->0@)),
        crate::logprobs::lp_keys_distinct(top_entry_views(e.top_logprobs->0@)),
        e.top_logprobs->0@.len() <= t.top_tokens@.len() + 1,
{
}

/// Whether the usage block sums prompt and completion tokens.
pub open spec fn usage_ok(u: Usage, prompt: u32, completion: u32) -> bool {
    u == Usage {
        completion_tokens: completion,
        prompt_tokens: prompt,
        total_tokens: (prompt + completion) as u32,
    }
}

/// Whether `c` is the unary chat response for the upstream response `g`: one
/// assistant choice at index zero carrying the generated text, the mapped
/// finish reason, the log-probability block, and summed usage.
pub open spec fn chat_response_ok(
    c: ChatCompletionResponse,
    request_id: Seq<char>,
    created: i64,
    model_id: Seq<char>,
    n_logprobs: u32,
    g: GenerationResponse,
) -> bool {
    &&& c.id@ == request_id
    &&& c.created == created
    &&& c.model@ == model_id
    &&& c.system_fingerprint is None
    &&& c.choices@.len() == 1
    &&& c.choices@[0].index == 0
    &&& c.choices@[0].message.role is Some
    &&& c.choices@[0].message.role->0@ == "assistant"@
    &&& c.choices@[0].message.content is Some
    &&& c.choices@[0].message.content->0@ == g.text@
    &&& Some(c.choices@[0].finish_reason) == spec_finish_reason(g.stop_reason)
    &&& chat_logprobs_ok(c.choices@[0].logprobs, g.tokens@, n_logprobs)
    &&& usage_ok(c.usage, g.input_token_count, g.generated_token_count)
}

/// Assembles the unary chat response from the first upstream response of the
/// batch. An upstream response that is not finished is an internal error
/// (status 500), never a panic.
pub fn chat_unary_response(
    request_id: String,
    created: i64,
    model_id: String,
    n_logprobs: u32,
    response: GenerationResponse,
) -> (r: Result<ChatCompletionResponse, HttpError>)
    requires
        response.input_token_count + response.generated_token_count <= u32::MAX,
    ensures
        r is Err <==> response.stop_reason == StopReason::NotFinished,
        r is Err ==> r->Err_0.status == 500,
        r is Ok ==> chat_response_ok(
            r->Ok_0,
            request_id@,
            created,
            model_id@,
            n_logprobs,
            response,
        ),
{
    let finish_reason = match finish_reason_of(response.stop_reason) {
        Some(f) => f,
        None => {
            return Err(
                HttpError {
                    status: 500,
                    message: String::from_str("Unexpected incomplete response to a unary request"),
                },
            );
        },
    };
    let usage = Usage {
        completion_tokens: response.generated_token_count,
        prompt_tokens: response.input_token_count,
        total_tokens: response.input_token_count + response.generated_token_count,
    };
    let logprobs = create_logprobs(response.tokens, n_logprobs);
    let choice = ChatCompletionChoice {
        index: 0,
        message: ChatCompletionMessage {
            role: Some(String::from_str("assistant")),
            content: Some(response.text),
        },
        logprobs,
        finish_reason,
    };
    let mut choices: Vec<ChatCompletionChoice> = Vec::new();
    choices.push(choice);
    Ok(
        ChatCompletionResponse {
            id: request_id,
            created,
            model: model_id,
            system_fingerprint: None,
            choices,
            usage,
        },
    )
}

/// The state of one chat response stream: the response header fields, the
/// prompt token count captured from the first upstream message, and whether
/// that first message was consumed yet.
pub struct ChatStreamState {
    pub request_id: String,
    pub created: i64,
    pub model_id: String,
    pub n_logprobs: u32,
    pub prompt_tokens: u32,
    pub started: bool,
}

/// Whether `c` is the role-only opening chunk of a chat stream: one choice
/// whose delta carries the assistant role and nothing else.
pub open spec fn chat_role_chunk_ok(
    c: ChatCompletionChunk,
    request_id: Seq<char>,
    created: i64,
    model_id: Seq<char>,
) -> bool {
    &&& c.id@ == request_id
    &&& c.created == created
    &&& c.model@ == model_id
    &&& c.usage is None
    &&& c.choices@.len() == 1
    &&& c.choices@[0].index == 0
    &&& c.choices@[0].delta.role is Some
    &&& c.choices@[0].delta.role->0@ == "assistant"@
    &&& c.choices@[0].delta.content is None
    &&& c.choices@[0].logprobs is None
    &&& c.choices@[0].finish_reason is None
}

/// Whether `c` is the body chunk for upstream message `g`: one choice whose
/// delta carries the text, the mapped finish reason, the log-probability
/// block, and usage exactly on the terminal chunk.
pub open spec fn chat_body_chunk_ok(
    c: ChatCompletionChunk,
    request_id: Seq<char>,
    created: i64,
    model_id: Seq<char>,
    n_logprobs: u32,
    prompt_tokens: u32,
    g: GenerationResponse,
) -> bool {
    &&& c.id@ == request_id
    &&& c.created == created
    &&& c.model@ == model_id
    &&& c.choices@.len() == 1
    &&& c.choices@[0].index == 0
    &&& c.choices@[0].delta.role is None
    &&& c.choices@[0].delta.content is Some
    &&& c.choices@[0].delta.content->0@ == g.text@
    &&& c.choices@[0].finish_reason == spec_finish_reason(g.stop_reason)
    &&& chat_logprobs_ok(c.choices@[0].logprobs, g.tokens@, n_logprobs)
    &&& if g.stop_reason == StopReason::NotFinished {
        c.usage is None
    } else {
        c.usage is Some && usage_ok(c.usage->0, prompt_tokens, g.generated_token_count)
    }
}

/// Opens a chat stream: the fresh state and the role-only first chunk.
pub fn chat_stream_start(
    request_id: String,
    created: i64,
    model_id: String,
    n_logprobs: u32,
) -> (r: (ChatStreamState, ChatCompletionChunk))
    ensures
        chat_role_chunk_ok(r.1, request_id@, created, model_id@),
        r.0.request_id@ == request_id@,
        r.0.created == created,
        r.0.model_id@ == model_id@,
        r.0.n_logprobs == n_logprobs,
        r.0.prompt_tokens == 0,
        !r.0.started,
{
    let chunk = ChatCompletionChunk {
        id: request_id.clone(),
        choices: {
            let mut v: Vec<ChatCompletionChunkChoice> = Vec::new();
            v.push(
                ChatCompletionChunkChoice {
                    delta: ChatCompletionMessage {
                        role: Some(String::from_str("assistant")),
                        content: None,
                    },
                    index: 0,
                    logprobs: None,
                    finish_reason: None,
                },
            );
            v
        },
        created,
        model: model_id.clone(),
        usage: None,
    };
    let state = ChatStreamState {
        request_id,
        created,
        model_id,
        n_logprobs,
        prompt_tokens: 0,
        started: false,
    };
    (state, chunk)
}

/// Consumes the first upstream message, which carries the prompt token count
/// and no content; nothing is emitted for it.
pub fn chat_stream_first(state: &mut ChatStreamState, response: &GenerationResponse)
    requires
        !old(state).started,
    ensures
        final (state).started,
        final (state).prompt_tokens == (if response.input_token_count > 0 {
            response.input_token_count
        } else {
            old(state).prompt_tokens
        }),
        final (state).request_id == old(state).request_id,
        final (state).created == old(state).created,
        final (state).model_id == old(state).model_id,
        final (state).n_logprobs == old(state).n_logprobs,
{
    if response.input_token_count > 0 {
        state.prompt_tokens = response.input_token_count;
    }
    state.started = true;
}

/// Emits the body chunk for one upstream message past the first.
pub fn chat_stream_chunk(state: &ChatStreamState, response: GenerationResponse) -> (r:
    ChatCompletionChunk)
    requires
        state.started,
        response.stop_reason != StopReason::NotFinished ==> state.prompt_tokens
            + response.generated_token_count <= u32::MAX,
    ensures
        chat_body_chunk_ok(
            r,
            state.request_id@,
            state.created,
            state.model_id@,
            state.n_logprobs,
            state.prompt_tokens,
            response,
        ),
{
    let finish_reason = finish_reason_of(response.stop_reason);
    let usage = if finish_reason.is_some() {
        Some(
            Usage {
                completion_tokens: response.generated_token_count,
                prompt_tokens: state.prompt_tokens,
                total_tokens: state.prompt_tokens + response.generated_token_count,
            },
        )
    } else {
        None
    };
    let logprobs = create_logprobs(response.tokens, state.n_logprobs);
    let mut choices: Vec<ChatCompletionChunkChoice> = Vec::new();
    choices.push(
        ChatCompletionChunkChoice {
            delta: ChatCompletionMessage { role: None, content: Some(response.text) },
            index: 0,
            logprobs,
            finish_reason,
        },
    );
    ChatCompletionChunk {
        id: state.request_id.clone(),
        choices,
        created: state.created,
        model: state.model_id.clone(),
        usage,
    }
}

/// Whether `events` is the full event sequence of a chat stream over the
/// upstream messages: the role-only chunk first, one body chunk per upstream
/// message past the first, and the terminal sentinel last.
pub open spec fn chat_stream_run_ok(
    request_id: Seq<char>,
    created: i64,
    model_id: Seq<char>,
    n_logprobs: u32,
    upstream: Seq<GenerationResponse>,
    events: Seq<ChatEvent>,
) -> bool {
    &&& upstream.len() >= 1
    &&& events.len() == upstream.len() + 1
    &&& events[0] is Chunk
    &&& chat_role_chunk_ok(events[0]->Chunk_0, request_id, created, model_id)
    &&& events.last() == ChatEvent::Done
    &&& forall|k: int|
        1 <= k < events.len() - 1 ==> (#[trigger] events[k]) is Chunk && chat_body_chunk_ok(
            events[k]->Chunk_0,
            request_id,
            created,
            model_id,
            n_logprobs,
            upstream[0].input_token_count,
            upstream[k],
        )
}

/// Runs a whole chat stream over already-collected upstream messages. The
/// asynchronous driver outside the library emits events one at a time through
/// the step functions above; this function shows that the steps compose into
/// a stream with the stated shape.
pub fn chat_stream_collect(
    request_id: String,
    created: i64,
    model_id: String,
    n_logprobs: u32,
    upstream: Vec<GenerationResponse>,
) -> (events: Vec<ChatEvent>)
    requires
        upstream@.len() >= 1,
        forall|k: int|
            1 <= k < upstream@.len() && (#[trigger] upstream@[k]).stop_reason
                != StopReason::NotFinished ==> upstream@[0].input_token_count
                + upstream@[k].generated_token_count <= u32::MAX,
    ensures
        chat_stream_run_ok(request_id@, created, model_id@, n_logprobs, upstream@, events@),
{
    let ghost rid = request_id@;
    let ghost mid = model_id@;
    let ghost us = upstream@;
    let (mut state, first_chunk) = chat_stream_start(request_id, created, model_id, n_logprobs);
    let mut events: Vec<ChatEvent> = Vec::new();
    events.push(ChatEvent::Chunk(first_chunk));
    let total = upstream.len();
    let mut rest = upstream;
    let first = rest.remove(0);
    chat_stream_first(&mut state, &first);
    proof {
        assert(us.len() == total);
        assert(rest@ =~= us.skip(1));
    }
    let mut k: usize = 1;
    while rest.len() > 0
        invariant
            1 <= k <= us.len(),
            us.len() <= usize::MAX,
            rest@ == us.skip(k as int),
            state.started,
            state.request_id@ == rid,
            state.created == created,
            state.model_id@ == mid,
            state.n_logprobs == n_logprobs,
            state.prompt_tokens == us[0].input_token_count,
            forall|j: int|
                1 <= j < us.len() && (#[trigger] us[j]).stop_reason != StopReason::NotFinished
                    ==> us[0].input_token_count + us[j].generated_token_count <= u32::MAX,
            events@.len() == k,
            events@[0] is Chunk,
            chat_role_chunk_ok(events@[0]->Chunk_0, rid, created, mid),
            forall|j: int|
                1 <= j < k ==> (#[trigger] events@[j]) is Chunk && chat_body_chunk_ok(
                    events@[j]->Chunk_0,
                    rid,
                    created,
                    mid,
                    n_logprobs,
                    us[0].input_token_count,
                    us[j],
                ),
        decreases rest@.len(),
    {
        let resp = rest.remove(0);
        proof {
            assert(resp == us[k as int]);
            assert(rest@ =~= us.skip(k + 1));
        }
        let chunk = chat_stream_chunk(&state, resp);
        events.push(ChatEvent::Chunk(chunk));
        k = k + 1;
    }
    proof {
        assert(k == us.len());
    }
    events.push(ChatEvent::Done);
    events
}

/// The concatenated texts of upstream messages.
pub open spec fn concat_texts(rs: Seq<GenerationResponse>) -> Seq<char>
    decreases rs.len(),
{
    if rs.len() == 0 {
        Seq::empty()
    } else {
        concat_texts(rs.drop_last()) + rs.last().text@
    }
}

/// The concatenated delta contents of chat events; the role-only delta and
/// the sentinel contribute nothing.
pub open spec fn concat_contents(es: Seq<ChatEvent>) -> Seq<char>
    decreases es.len(),
{
    if es.len() == 0 {
        Seq::empty()
    } else {
        concat_contents(es.drop_last()) + (match es.last() {
            ChatEvent::Chunk(c) => {
                if c.choices@.len() > 0 && c.choices@[0].delta.content is Some {
                    c.choices@[0].delta.content->0@
                } else {
                    Seq::empty()
                }
            },
            ChatEvent::Done => Seq::empty(),
        })
    }
}

/// The law of the chat stream shape: in every run, the first event is the
/// role-only delta, the last is the terminal sentinel, and the delta contents
/// of the chunks in between concatenate to exactly the upstream texts past
/// the first message.
pub proof fn lemma_chat_stream_shape(
    request_id: Seq<char>,
    created: i64,
    model_id: Seq<char>,
    n_logprobs: u32,
    upstream: Seq<GenerationResponse>,
    events: Seq<ChatEvent>,
)
    requires
        chat_stream_run_ok(request_id, created, model_id, n_logprobs, upstream, events),
    ensures
        events.len() >= 2,
        events[0] is Chunk && events[0]->Chunk_0.choices@[0].delta.role is Some,
        events[0]->Chunk_0.choices@[0].delta.role->0@ == "assistant"@,
        events[0]->Chunk_0.choices@[0].delta.content is None,
        events.last() == ChatEvent::Done,
        concat_contents(events) == concat_texts(upstream.drop_first()),
{
    lemma_chat_contents_prefix(
        request_id,
        created,
        model_id,
        n_logprobs,
        upstream,
        events,
        events.len() - 2,
    );
    assert(concat_contents(events.take(events.len() - 1)) == concat_texts(
        upstream.drop_first().take(upstream.len() - 1),
    ));
    assert(upstream.drop_first().take(upstream.len() - 1) =~= upstream.drop_first());
    assert(events.take(events.len() - 1).push(events.last()) =~= events);
    assert(events.drop_last() =~= events.take(events.len() - 1));
    assert(concat_contents(events) == concat_contents(events.take(events.len() - 1)));
}

/// The chunk contents of the first `n + 1` events concatenate to the first
/// `n` upstream texts past the first message.
proof fn lemma_chat_contents_prefix(
    request_id: Seq<char>,
    created: i64,
    model_id: Seq<char>,
    n_logprobs: u32,
    upstream: Seq<GenerationResponse>,
    events: Seq<ChatEvent>,
    n: int,
)
    requires
        chat_stream_run_ok(request_id, created, model_id, n_logprobs, upstream, events),
        0 <= n <= events.len() - 2,
    ensures
        concat_contents(events.take(n + 1)) == concat_texts(upstream.drop_first().take(n)),
    decreases n,
{
    if n == 0 {
        assert(events.take(1).last() == events[0]);
        assert(events.take(1).drop_last() =~= Seq::<ChatEvent>::empty());
        assert(upstream.drop_first().take(0) =~= Seq::<GenerationResponse>::empty());
        assert(concat_contents(Seq::<ChatEvent>::empty()) =~= Seq::<char>::empty());
        assert(concat_texts(Seq::<GenerationResponse>::empty()) =~= Seq::<char>::empty());
        assert(concat_contents(events.take(1)) =~= Seq::<char>::empty());
    } else {
        lemma_chat_contents_prefix(
            request_id,
            created,
            model_id,
            n_logprobs,
            upstream,
            events,
            n - 1,
        );
        assert(events.take(n + 1).drop_last() =~= events.take(n));
        assert(events.take(n + 1).last() == events[n]);
        assert(upstream.drop_first().take(n).drop_last() =~= upstream.drop_first().take(n - 1));
        assert(upstream.drop_first().take(n).last() == upstream[n]);
        assert(events[n] is Chunk);
        assert(events[n]->Chunk_0.choices@[0].delta.content->0@ == upstream[n].text@);
        assert(concat_contents(events.take(n + 1)) == concat_contents(events.take(n))
            + upstream[n].text@);
    }
}

} // verus!

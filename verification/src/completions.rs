//! The completions side of the OpenAI adapter: parallel-array log-probability
//! tables, unary response assembly, and the response-stream state machine
//! with its buffered echo prefixes.

use vstd::prelude::*;
use crate::chat::{spec_token_pairs, usage_ok};
use crate::generation::{GenerationResponse, StopReason, TokenInfo};
use crate::generation::{finish_reason_of, spec_finish_reason};
use crate::logprobs::{collapse_max, collapsed_max_ok, lp_views};
use crate::openai::{
    CompletionChoice, CompletionEvent, CompletionLogprobs, CompletionResponse, HttpError,
    TopLogprobEntry, Usage,
};
use vstd::string::StringExecFns;

verus! {

/// The views of insertion-ordered top-logprob entries.
pub open spec fn entry_views(s: Seq<TopLogprobEntry>) -> Seq<(Seq<char>, u32)> {
    s.map_values(|e: TopLogprobEntry| (e.token@, e.logprob_bits))
}

/// Whether `lp` is the completion log-probability block for `tokens` under
/// `n` requested alternatives: absent exactly when there are no tokens, else
/// parallel arrays over the tokens (with byte offsets left empty), and, when
/// alternatives were requested, one collapsed ascending table per token with
/// the greatest log-probability winning per token text.
pub open spec fn comp_logprobs_ok(
    lp: Option<CompletionLogprobs>,
    tokens: Seq<TokenInfo>,
    n: u32,
) -> bool {
    &&& lp is None <==> tokens.len() == 0
    &&& lp is Some ==> {
        &&& lp->0.text_offset@.len() == 0
        &&& lp->0.tokens@.len() == tokens.len()
        &&& forall|i: int| 0 <= i < tokens.len() ==> (#[trigger] lp->0.tokens@[i])@ == tokens[i].text@
        &&& lp->0.token_logprobs_bits@.len() == tokens.len()
        &&& forall|i: int|
            0 <= i < tokens.len() ==> #[trigger] lp->0.token_logprobs_bits@[i]
                == tokens[i].logprob_bits
        &&& if n > 0 {
            &&& lp->0.top_logprobs is Some
            &&& lp->0.top_logprobs->0@.len() == tokens.len()
            &&& forall|i: int|
                0 <= i < tokens.len() ==> collapsed_max_ok(
                    spec_token_pairs(tokens[i]),
                    entry_views(#[trigger] lp->0.top_logprobs->0@[i]@),
                )
        } else {
            lp->0.top_logprobs is None
        }
    }
}

/// Builds the completion log-probability block: absent when there are no
/// tokens, else parallel arrays and, when `n_logprobs` asks for any, one
/// collapsed ascending table per token.
pub fn create_logprobs(tokens: Vec<TokenInfo>, n_logprobs: u32) -> (r: Option<CompletionLogprobs>)
    ensures
        comp_logprobs_ok(r, tokens@, n_logprobs),
{
    if tokens.len() == 0 {
        return None;
    }
    let mut token_text: Vec<String> = Vec::new();
    let mut token_logprobs: Vec<u32> = Vec::new();
    let mut tables: Vec<Vec<TopLogprobEntry>> = Vec::new();
    let mut i: usize = 0;
    while i < tokens.len()
        invariant
            0 <= i <= tokens@.len(),
            token_text@.len() == i,
            token_logprobs@.len() == i,
            tables@.len() == i,
            forall|j: int| 0 <= j < i ==> (#[trigger] token_text@[j])@ == tokens@[j].text@,
            forall|j: int|
                0 <= j < i ==> #[trigger] token_logprobs@[j] == tokens@[j].logprob_bits,
            forall|j: int|
                0 <= j < i ==> collapsed_max_ok(
                    spec_token_pairs(tokens@[j]),
                    entry_views(#[trigger] tables@[j]@),
                ),
        decreases tokens@.len() - i,
    {
        let t = &tokens[i];
        token_text.push(t.text.clone());
        token_logprobs.push(t.logprob_bits);
        let pairs = crate::chat::token_pairs(t);
        let collapsed = collapse_max(&pairs);
        let mut entries: Vec<TopLogprobEntry> = Vec::new();
        let mut k: usize = 0;
        while k < collapsed.len()
            invariant
                0 <= k <= collapsed@.len(),
                entry_views(entries@) == lp_views(collapsed@).take(k as int),
            decreases collapsed@.len() - k,
        {
            let ghost prev = entries@;
            entries.push(
                TopLogprobEntry { token: collapsed[k].0.clone(), logprob_bits: collapsed[k].1 },
            );
            proof {
                assert(entries@.drop_last() =~= prev);
                assert(entry_views(entries@) =~= entry_views(prev).push(
                    (collapsed@[k as int].0@, collapsed@[k as int].1),
                ));
                assert(entry_views(entries@) =~= lp_views(collapsed@).take(k + 1));
            }
            k = k + 1;
        }
        proof {
            assert(lp_views(collapsed@).take(collapsed@.len() as int) =~= lp_views(collapsed@));
        }
        tables.push(entries);
        i = i + 1;
    }
    let top_logprobs: Option<Vec<Vec<TopLogprobEntry>>> = if n_logprobs > 0 {
        Some(tables)
    } else {
        None
    };
    Some(
        CompletionLogprobs {
            text_offset: Vec::new(),
            token_logprobs_bits: token_logprobs,
            tokens: token_text,
            top_logprobs,
        },
    )
}

/// Moves the elements of `b` onto the end of `a`.
pub fn concat_token_vecs(a: Vec<TokenInfo>, b: Vec<TokenInfo>) -> (r: Vec<TokenInfo>)
    ensures
        r@ == a@ + b@,
{
    let ghost av = a@;
    let ghost bv = b@;
    let mut r = a;
    let mut rest = b;
    while rest.len() > 0
        invariant
            r@ + rest@ == av + bv,
        decreases rest@.len(),
    {
        let x = rest.remove(0);
        r.push(x);
        proof {
            assert(r@ + rest@ =~= av + bv);
        }
    }
    proof {
        assert(r@ =~= av + bv);
    }
    r
}

/// Whether `c` is the unary completion response for upstream response `g`:
/// one choice at index zero carrying the text, the mapped finish reason, the
/// log-probability block over the input tokens followed by the generated
/// tokens, and summed usage.
pub open spec fn completion_response_ok(
    c: CompletionResponse,
    request_id: Seq<char>,
    created: i64,
    model_id: Seq<char>,
    n_logprobs: u32,
    g: GenerationResponse,
) -> bool {
    &&& c.id@ == request_id
    &&& c.created == created
    &&& c.model@ == model_id
    &&& c.system_fingerprint is None
    &&& c.choices@.len() == 1
    &&& c.choices@[0].index == 0
    &&& c.choices@[0].text is Some
    &&& c.choices@[0].text->0@ == g.text@
    &&& c.choices@[0].finish_reason == spec_finish_reason(g.stop_reason)
    &&& c.choices@[0].finish_reason is Some
    &&& comp_logprobs_ok(c.choices@[0].logprobs, g.input_tokens@ + g.tokens@, n_logprobs)
    &&& c.usage is Some
    &&& usage_ok(c.usage->0, g.input_token_count, g.generated_token_count)
}

/// Assembles the unary completion response from the first upstream response
/// of the batch. An upstream response that is not finished is an internal
/// error (status 500), never a panic.
pub fn completion_unary_response(
    request_id: String,
    created: i64,
    model_id: String,
    n_logprobs: u32,
    response: GenerationResponse,
) -> (r: Result<CompletionResponse, HttpError>)
    requires
        response.input_token_count + response.generated_token_count <= u32::MAX,
    ensures
        r is Err <==> response.stop_reason == StopReason::NotFinished,
        r is Err ==> r->Err_0.status == 500,
        r is Ok ==> completion_response_ok(
            r->Ok_0,
            request_id@,
            created,
            model_id@,
            n_logprobs,
            response,
        ),
{
    let finish_reason = match finish_reason_of(response.stop_reason) {
        Some(f) => f,
        None => {
            return Err(
                HttpError {
                    status: 500,
                    message: String::from_str("Unexpected incomplete response to a unary request"),
                },
            );
        },
    };
    let usage = Usage {
        completion_tokens: response.generated_token_count,
        prompt_tokens: response.input_token_count,
        total_tokens: response.input_token_count + response.generated_token_count,
    };
    let all_tokens = concat_token_vecs(response.input_tokens, response.tokens);
    let logprobs = create_logprobs(all_tokens, n_logprobs);
    let mut choices: Vec<CompletionChoice> = Vec::new();
    choices.push(
        CompletionChoice {
            index: 0,
            text: Some(response.text),
            logprobs,
            finish_reason: Some(finish_reason),
        },
    );
    Ok(
        CompletionResponse {
            id: request_id,
            created,
            model: model_id,
            system_fingerprint: None,
            choices,
            usage: Some(usage),
        },
    )
}

/// Where a completion stream stands: before the first upstream message,
/// before the input-token message that echoing adds, or in the body.
#[derive(Clone, Copy, Debug, PartialEq, Eq, Structural)]
pub enum CompletionStreamPhase {
    AwaitFirst,
    AwaitInputTokens,
    Body,
}

/// The state of one completion response stream: the response header fields,
/// the prompt token count captured from the first upstream message, and the
/// echo prefixes, each consumed exactly once by the first emitted chunk.
pub struct CompletionStreamState {
    pub request_id: String,
    pub created: i64,
    pub model_id: String,
    pub n_logprobs: u32,
    pub echo: bool,
    pub prompt_tokens: u32,
    pub buffered_text: Option<String>,
    pub buffered_tokens: Option<Vec<TokenInfo>>,
    pub phase: CompletionStreamPhase,
}

/// Opens a completion stream; unlike a chat stream, nothing is emitted yet.
pub fn completion_stream_start(
    request_id: String,
    created: i64,
    model_id: String,
    n_logprobs: u32,
    echo: bool,
) -> (r: CompletionStreamState)
    ensures
        r.request_id@ == request_id@,
        r.created == created,
        r.model_id@ == model_id@,
        r.n_logprobs == n_logprobs,
        r.echo == echo,
        r.prompt_tokens == 0,
        r.buffered_text is None,
        r.buffered_tokens is None,
        r.phase == CompletionStreamPhase::AwaitFirst,
{
    CompletionStreamState {
        request_id,
        created,
        model_id,
        n_logprobs,
        echo,
        prompt_tokens: 0,
        buffered_text: None,
        buffered_tokens: None,
        phase: CompletionStreamPhase::AwaitFirst,
    }
}

/// Consumes the first upstream message: it carries the prompt token count,
/// and, when echoing, the input text to buffer; nothing is emitted for it.
pub fn completion_stream_first(state: &mut CompletionStreamState, response: GenerationResponse)
    requires
        old(state).phase == CompletionStreamPhase::AwaitFirst,
    ensures
        final (state).prompt_tokens == (if response.input_token_count > 0 {
            response.input_token_count
        } else {
            old(state).prompt_tokens
        }),
        final (state).buffered_text == (if old(state).echo {
            Some(response.text)
        } else {
            old(state).buffered_text
        }),
        final (state).phase == (if old(state).echo {
            CompletionStreamPhase::AwaitInputTokens
        } else {
            CompletionStreamPhase::Body
        }),
        final (state).buffered_tokens == old(state).buffered_tokens,
        final (state).request_id == old(state).request_id,
        final (state).created == old(state).created,
        final (state).model_id == old(state).model_id,
        final (state).n_logprobs == old(state).n_logprobs,
        final (state).echo == old(state).echo,
{
    if response.input_token_count > 0 {
        state.prompt_tokens = response.input_token_count;
    }
    if state.echo {
        state.buffered_text = Some(response.text);
        state.phase = CompletionStreamPhase::AwaitInputTokens;
    } else {
        state.phase = CompletionStreamPhase::Body;
    }
}

/// Consumes the second upstream message of an echoing stream: it carries the
/// input tokens to buffer; nothing is emitted for it.
pub fn completion_stream_input_tokens(
    state: &mut CompletionStreamState,
    response: GenerationResponse,
)
    requires
        old(state).phase == CompletionStreamPhase::AwaitInputTokens,
    ensures
        final (state).buffered_tokens == Some(response.input_tokens),
        final (state).phase == CompletionStreamPhase::Body,
        final (state).buffered_text == old(state).buffered_text,
        final (state).prompt_tokens == old(state).prompt_tokens,
        final (state).request_id == old(state).request_id,
        final (state).created == old(state).created,
        final (state).model_id == old(state).model_id,
        final (state).n_logprobs == old(state).n_logprobs,
        final (state).echo == old(state).echo,
{
    state.buffered_tokens = Some(response.input_tokens);
    state.phase = CompletionStreamPhase::Body;
}

/// The view of an optionally buffered text.
pub open spec fn opt_text_view(t: Option<String>) -> Seq<char> {
    match t {
        Some(s) => s@,
        None => Seq::empty(),
    }
}

/// The buffered tokens, or none.
pub open spec fn opt_tokens_view(t: Option<Vec<TokenInfo>>) -> Seq<TokenInfo> {
    match t {
        Some(v) => v@,
        None => Seq::empty(),
    }
}

/// Whether `c` is the body chunk for upstream message `g` with the given
/// prefixes: one choice whose text is the buffered input text followed by the
/// message text, a log-probability block over the buffered input tokens
/// followed by the message tokens, the mapped finish reason, and usage
/// exactly on the terminal chunk.
pub open spec fn completion_chunk_ok(
    c: CompletionResponse,
    request_id: Seq<char>,
    created: i64,
    model_id: Seq<char>,
    n_logprobs: u32,
    prompt_tokens: u32,
    pre_text: Seq<char>,
    pre_tokens: Seq<TokenInfo>,
    g: GenerationResponse,
) -> bool {
    &&& c.id@ == request_id
    &&& c.created == created
    &&& c.model@ == model_id
    &&& c.system_fingerprint is None
    &&& c.choices@.len() == 1
    &&& c.choices@[0].index == 0
    &&& c.choices@[0].text is Some
    &&& c.choices@[0].text->0@ == pre_text + g.text@
    &&& c.choices@[0].finish_reason == spec_finish_reason(g.stop_reason)
    &&& comp_logprobs_ok(c.choices@[0].logprobs, pre_tokens + g.tokens@, n_logprobs)
    &&& if g.stop_reason == StopReason::NotFinished {
        c.usage is None
    } else {
        c.usage is Some && usage_ok(c.usage->0, prompt_tokens, g.generated_token_count)
    }
}

/// Emits the body chunk for one upstream message, prepending and clearing any
/// buffered prefixes.
pub fn completion_stream_chunk(
    state: &mut CompletionStreamState,
    response: GenerationResponse,
) -> (r: CompletionResponse)
    requires
        old(state).phase == CompletionStreamPhase::Body,
        response.stop_reason != StopReason::NotFinished ==> old(state).prompt_tokens
            + response.generated_token_count <= u32::MAX,
    ensures
        completion_chunk_ok(
            r,
            old(state).request_id@,
            old(state).created,
            old(state).model_id@,
            old(state).n_logprobs,
            old(state).prompt_tokens,
            opt_text_view(old(state).buffered_text),
            opt_tokens_view(old(state).buffered_tokens),
            response,
        ),
        final (state).buffered_text is None,
        final (state).buffered_tokens is None,
        final (state).phase == CompletionStreamPhase::Body,
        final (state).prompt_tokens == old(state).prompt_tokens,
        final (state).request_id == old(state).request_id,
        final (state).created == old(state).created,
        final (state).model_id == old(state).model_id,
        final (state).n_logprobs == old(state).n_logprobs,
        final (state).echo == old(state).echo,
{
    let finish_reason = finish_reason_of(response.stop_reason);
    let usage = if finish_reason.is_some() {
        Some(
            Usage {
                completion_tokens: response.generated_token_count,
                prompt_tokens: state.prompt_tokens,
                total_tokens: state.prompt_tokens + response.generated_token_count,
            },
        )
    } else {
        None
    };
    let buffered_text = state.buffered_text.take();
    let text = match buffered_text {
        Some(prefix) => prefix.concat(response.text.as_str()),
        None => response.text,
    };
    let buffered_tokens = state.buffered_tokens.take();
    let tokens = match buffered_tokens {
        Some(prefix) => concat_token_vecs(prefix, response.tokens),
        None => response.tokens,
    };
    proof {
        if opt_tokens_view(old(state).buffered_tokens).len() == 0 {
            assert(tokens@ =~= opt_tokens_view(old(state).buffered_tokens) + response.tokens@);
        }
    }
    let logprobs = create_logprobs(tokens, state.n_logprobs);
    let mut choices: Vec<CompletionChoice> = Vec::new();
    choices.push(CompletionChoice { index: 0, text: Some(text), logprobs, finish_reason });
    CompletionResponse {
        id: state.request_id.clone(),
        created: state.created,
        model: state.model_id.clone(),
        system_fingerprint: None,
        choices,
        usage,
    }
}

/// Whether `events` is the full event sequence of a completion stream over
/// the upstream messages: one body chunk per upstream message past the
/// consumed prefix (one message, or two when echoing), the first carrying the
/// buffered prefixes, and the terminal sentinel last.
pub open spec fn completion_stream_run_ok(
    request_id: Seq<char>,
    created: i64,
    model_id: Seq<char>,
    n_logprobs: u32,
    echo: bool,
    upstream: Seq<GenerationResponse>,
    events: Seq<CompletionEvent>,
) -> bool {
    let consumed: int = if echo {
        2
    } else {
        1
    };
    &&& upstream.len() >= consumed
    &&& events.len() == upstream.len() - consumed + 1
    &&& events.last() == CompletionEvent::Done
    &&& forall|k: int|
        0 <= k < events.len() - 1 ==> (#[trigger] events[k]) is Chunk && completion_chunk_ok(
            events[k]->Chunk_0,
            request_id,
            created,
            model_id,
            n_logprobs,
            upstream[0].input_token_count,
            if k == 0 && echo {
                upstream[0].text@
            } else {
                Seq::empty()
            },
            if k == 0 && echo {
                upstream[1].input_tokens@
            } else {
                Seq::empty()
            },
            upstream[consumed + k],
        )
}

/// Runs a whole completion stream over already-collected upstream messages.
/// The asynchronous driver outside the library emits events one at a time
/// through the step functions above; this function shows that the steps
/// compose into a stream with the stated shape.
pub fn completion_stream_collect(
    request_id: String,
    created: i64,
    model_id: String,
    n_logprobs: u32,
    echo: bool,
    upstream: Vec<GenerationResponse>,
) -> (events: Vec<CompletionEvent>)
    requires
        upstream@.len() >= (if echo {
            2int
        } else {
            1int
        }),
        forall|k: int|
            1 <= k < upstream@.len() && (#[trigger] upstream@[k]).stop_reason
                != StopReason::NotFinished ==> upstream@[0].input_token_count
                + upstream@[k].generated_token_count <= u32::MAX,
    ensures
        completion_stream_run_ok(
            request_id@,
            created,
            model_id@,
            n_logprobs,
            echo,
            upstream@,
            events@,
        ),
{
    let ghost rid = request_id@;
    let ghost mid = model_id@;
    let ghost us = upstream@;
    let ghost consumed: int = if echo {
        2
    } else {
        1
    };
    let mut state = completion_stream_start(request_id, created, model_id, n_logprobs, echo);
    let mut events: Vec<CompletionEvent> = Vec::new();
    let total = upstream.len();
    let mut rest = upstream;
    let first = rest.remove(0);
    let ghost first_text = first.text@;
    completion_stream_first(&mut state, first);
    proof {
        assert(us.len() == total);
        assert(rest@ =~= us.skip(1));
    }
    let mut k: usize = 1;
    if echo {
        let second = rest.remove(0);
        completion_stream_input_tokens(&mut state, second);
        proof {
            assert(rest@ =~= us.skip(2));
        }
        k = 2;
    }
    let ghost pre_text_0 = opt_text_view(state.buffered_text);
    let ghost pre_tokens_0 = opt_tokens_view(state.buffered_tokens);
    proof {
        assert(echo ==> pre_text_0 == us[0].text@ && pre_tokens_0 == us[1].input_tokens@);
        assert(!echo ==> pre_text_0 == Seq::<char>::empty() && pre_tokens_0 == Seq::<
            TokenInfo,
        >::empty());
    }
    while rest.len() > 0
        invariant
            consumed == (if echo {
                2int
            } else {
                1int
            }),
            consumed <= k <= us.len(),
            us.len() <= usize::MAX,
            rest@ == us.skip(k as int),
            state.phase == CompletionStreamPhase::Body,
            state.request_id@ == rid,
            state.created == created,
            state.model_id@ == mid,
            state.n_logprobs == n_logprobs,
            state.echo == echo,
            state.prompt_tokens == us[0].input_token_count,
            k == consumed ==> opt_text_view(state.buffered_text) == pre_text_0 && opt_tokens_view(
                state.buffered_tokens,
            ) == pre_tokens_0,
            k > consumed ==> state.buffered_text is None && state.buffered_tokens is None,
            echo ==> pre_text_0 == us[0].text@ && pre_tokens_0 == us[1].input_tokens@,
            !echo ==> pre_text_0 == Seq::<char>::empty() && pre_tokens_0 == Seq::<
                TokenInfo,
            >::empty(),
            forall|j: int|
                1 <= j < us.len() && (#[trigger] us[j]).stop_reason != StopReason::NotFinished
                    ==> us[0].input_token_count + us[j].generated_token_count <= u32::MAX,
            events@.len() == k - consumed,
            forall|j: int|
                0 <= j < k - consumed ==> (#[trigger] events@[j]) is Chunk && completion_chunk_ok(
                    events@[j]->Chunk_0,
                    rid,
                    created,
                    mid,
                    n_logprobs,
                    us[0].input_token_count,
                    if j == 0 && echo {
                        us[0].text@
                    } else {
                        Seq::empty()
                    },
                    if j == 0 && echo {
                        us[1].input_tokens@
                    } else {
                        Seq::empty()
                    },
                    us[consumed + j],
                ),
        decreases rest@.len(),
    {
        let resp = rest.remove(0);
        proof {
            assert(resp == us[k as int]);
            assert(rest@ =~= us.skip(k + 1));
        }
        let chunk = completion_stream_chunk(&mut state, resp);
        events.push(CompletionEvent::Chunk(chunk));
        k = k + 1;
    }
    proof {
        assert(k == us.len());
    }
    events.push(CompletionEvent::Done);
    events
}

} // verus!

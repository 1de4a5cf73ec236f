//! The native RPC facades' routing decisions: model-id extraction from
//! request metadata, the model-id-to-client registry, the per-method
//! empty-request short-circuits, and the info fan-out aggregation. The
//! transport performing the calls lives outside the library and only follows
//! the decisions made here.

use vstd::prelude::*;
use vstd::string::StringExecFns;
use crate::generation::{BatchedGenerationRequest, BatchedGenerationResponse, SingleGenerationRequest};

verus! {

/// The status code of a routing error.
#[derive(Clone, Copy, Debug, PartialEq, Eq, Structural)]
pub enum RpcCode {
    InvalidArgument,
    NotFound,
    Unimplemented,
}

/// A routing error: a status code and a message.
#[derive(Clone, Debug)]
pub struct RpcError {
    pub code: RpcCode,
    pub message: String,
}

/// Request metadata, as key/value pairs with the keys already in the
/// transport's canonical lower-case form.
pub struct Metadata {
    pub pairs: Vec<(String, String)>,
}

/// The views of metadata pairs.
pub open spec fn meta_views(pairs: Seq<(String, String)>) -> Seq<(Seq<char>, Seq<char>)> {
    pairs.map_values(|p: (String, String)| (p.0@, p.1@))
}

/// The value of the first pair carrying `key`, if any.
pub open spec fn spec_meta_get(pairs: Seq<(Seq<char>, Seq<char>)>, key: Seq<char>) -> Option<
    Seq<char>,
>
    decreases pairs.len(),
{
    if pairs.len() == 0 {
        None
    } else if pairs[0].0 == key {
        Some(pairs[0].1)
    } else {
        spec_meta_get(pairs.drop_first(), key)
    }
}

impl Metadata {
    /// The value of the first pair carrying `key`, if any.
    pub fn get(&self, key: &str) -> (r: Option<&String>)
        ensures
            match r {
                Some(v) => spec_meta_get(meta_views(self.pairs@), key@) == Some(v@),
                None => spec_meta_get(meta_views(self.pairs@), key@) is None,
            },
    {
        let key_string = String::from_str(key);
        let mut i: usize = 0;
        proof {
            assert(meta_views(self.pairs@).skip(0) =~= meta_views(self.pairs@));
        }
        while i < self.pairs.len()
            invariant
                0 <= i <= self.pairs@.len(),
                key_string@ == key@,
                spec_meta_get(meta_views(self.pairs@), key@) == spec_meta_get(
                    meta_views(self.pairs@).skip(i as int),
                    key@,
                ),
            decreases self.pairs@.len() - i,
        {
            proof {
                assert(meta_views(self.pairs@).skip(i as int)[0] == (self.pairs@[i as int].0@,
                self.pairs@[i as int].1@));
            }
            if self.pairs[i].0 == key_string {
                return Some(&self.pairs[i].1);
            }
            proof {
                assert(meta_views(self.pairs@).skip(i as int).drop_first() =~= meta_views(
                    self.pairs@,
                ).skip(i + 1));
            }
            i = i + 1;
        }
        proof {
            assert(meta_views(self.pairs@).skip(i as int) =~= Seq::<(Seq<char>, Seq<char>)>::empty());
        }
        None
    }
}

/// Whether `e` is the error for a request that carries no model id: invalid
/// argument, with the fixed message.
pub open spec fn missing_model_id_error(e: RpcError) -> bool {
    e.code == RpcCode::InvalidArgument && e.message@ == "Missing required model ID"@
}

/// Extracts the model id from the `mm-model-id` metadata header. A request
/// without one is an invalid argument.
pub fn extract_model_id(metadata: &Metadata) -> (r: Result<String, RpcError>)
    ensures
        match r {
            Ok(id) => spec_meta_get(meta_views(metadata.pairs@), "mm-model-id"@) == Some(id@),
            Err(e) => spec_meta_get(meta_views(metadata.pairs@), "mm-model-id"@) is None
                && missing_model_id_error(e),
        },
{
    match metadata.get("mm-model-id") {
        Some(v) => Ok(v.clone()),
        None => Err(
            RpcError {
                code: RpcCode::InvalidArgument,
                message: String::from_str("Missing required model ID"),
            },
        ),
    }
}

/// A model-id-to-client registry: built once at startup, looked up on every
/// request. The client type is opaque to the registry.
pub struct ClientRegistry<C> {
    entries: Vec<(String, C)>,
}

impl<C> ClientRegistry<C> {
    /// The registered model ids, in registration order.
    pub closed spec fn spec_ids(&self) -> Seq<Seq<char>> {
        self.entries@.map_values(|e: (String, C)| e.0@)
    }

    /// The client registered under `id`, if any (the first registration
    /// wins).
    pub closed spec fn spec_lookup(&self, id: Seq<char>) -> Option<C> {
        Self::lookup_in(self.entries@, id)
    }

    /// First-match lookup over the raw entries.
    pub closed spec fn lookup_in(entries: Seq<(String, C)>, id: Seq<char>) -> Option<C>
        decreases entries.len(),
    {
        if entries.len() == 0 {
            None
        } else if entries[0].0@ == id {
            Some(entries[0].1)
        } else {
            Self::lookup_in(entries.drop_first(), id)
        }
    }

    /// Whether a client is registered under `id`.
    pub open spec fn spec_contains(&self, id: Seq<char>) -> bool {
        self.spec_lookup(id) is Some
    }

    /// A registry over the given entries.
    pub fn build(entries: Vec<(String, C)>) -> (r: Self)
        ensures
            r.spec_ids() == entries@.map_values(|e: (String, C)| e.0@),
            forall|id: Seq<char>| r.spec_lookup(id) == Self::lookup_in(entries@, id),
    {
        ClientRegistry { entries }
    }

    /// How many models are registered.
    pub fn len(&self) -> (r: usize)
        ensures
            r == self.spec_ids().len(),
    {
        self.entries.len()
    }

    /// Looks up the client for a model id.
    pub fn get(&self, id: &str) -> (r: Option<&C>)
        ensures
            match r {
                Some(c) => self.spec_lookup(id@) == Some(*c),
                None => !self.spec_contains(id@),
            },
    {
        let id_string = String::from_str(id);
        let mut i: usize = 0;
        proof {
            assert(self.entries@.skip(0) =~= self.entries@);
        }
        while i < self.entries.len()
            invariant
                0 <= i <= self.entries@.len(),
                id_string@ == id@,
                self.spec_lookup(id@) == Self::lookup_in(self.entries@.skip(i as int), id@),
            decreases self.entries@.len() - i,
        {
            if self.entries[i].0 == id_string {
                proof {
                    assert(self.entries@.skip(i as int)[0] == self.entries@[i as int]);
                }
                return Some(&self.entries[i].1);
            }
            proof {
                assert(self.entries@.skip(i as int)[0] == self.entries@[i as int]);
                assert(self.entries@.skip(i as int).drop_first() =~= self.entries@.skip(i + 1));
            }
            i = i + 1;
        }
        proof {
            assert(self.entries@.skip(i as int) =~= Seq::<(String, C)>::empty());
        }
        None
    }
}

/// Whether `e` is the error for an unknown model id on the RPC surface: not
/// found, with the message naming the id.
pub open spec fn unrecognized_model_error(e: RpcError, id: Seq<char>) -> bool {
    e.code == RpcCode::NotFound && e.message@ == "Unrecognized model_id: "@ + id
}

/// Looks up the client a request must be forwarded to. An unregistered model
/// id is a not-found error naming the id.
pub fn lookup_client<'a, C>(registry: &'a ClientRegistry<C>, model_id: &str) -> (r: Result<
    &'a C,
    RpcError,
>)
    ensures
        match r {
            Ok(c) => registry.spec_lookup(model_id@) == Some(*c),
            Err(e) => !registry.spec_contains(model_id@) && unrecognized_model_error(
                e,
                model_id@,
            ),
        },
{
    match registry.get(model_id) {
        Some(c) => Ok(c),
        None => {
            let mut message = String::from_str("Unrecognized model_id: ");
            message.append(model_id);
            Err(RpcError { code: RpcCode::NotFound, message })
        },
    }
}

/// What a facade does with an accepted request: answer it locally with the
/// default response, or forward it to the named model's upstream.
#[derive(Debug)]
pub enum NlpAction {
    RespondDefault,
    Forward(String),
}

/// The right routing decision for a request whose short-circuit condition
/// (`empty`) and metadata are as given: no model id is an invalid
/// argument; an empty request is answered locally; anything else is forwarded
/// to the model the metadata names.
pub open spec fn nlp_gate_ok(
    r: Result<NlpAction, RpcError>,
    pairs: Seq<(String, String)>,
    empty: bool,
) -> bool {
    match spec_meta_get(meta_views(pairs), "mm-model-id"@) {
        None => r is Err && missing_model_id_error(r->Err_0),
        Some(id) => if empty {
            r == Ok::<NlpAction, RpcError>(NlpAction::RespondDefault)
        } else {
            r is Ok && r->Ok_0 is Forward && r->Ok_0->0@ == id
        },
    }
}

/// The routing decision shared by the NLP task methods, given the method's
/// own short-circuit condition.
fn nlp_gate(metadata: &Metadata, empty: bool) -> (r: Result<NlpAction, RpcError>)
    ensures
        nlp_gate_ok(r, metadata.pairs@, empty),
{
    let model_id = extract_model_id(metadata)?;
    if empty {
        Ok(NlpAction::RespondDefault)
    } else {
        Ok(NlpAction::Forward(model_id))
    }
}

/// An embedding request over several texts; only the fields this gateway
/// reads are carried.
pub struct EmbeddingTasksRequest {
    pub texts: Vec<String>,
}

/// An embedding request over one text.
pub struct EmbeddingTaskRequest {
    pub text: String,
}

/// A rerank request over several queries. The documents are opaque payloads.
pub struct RerankTasksRequest<D> {
    pub documents: Vec<D>,
    pub queries: Vec<String>,
}

/// A rerank request over one query. The documents are opaque payloads.
pub struct RerankTaskRequest<D> {
    pub documents: Vec<D>,
    pub query: String,
}

/// A sentence-similarity request over several source sentences.
pub struct SentenceSimilarityTasksRequest {
    pub source_sentences: Vec<String>,
    pub sentences: Vec<String>,
}

/// A sentence-similarity request over one source sentence.
pub struct SentenceSimilarityTaskRequest {
    pub source_sentence: String,
    pub sentences: Vec<String>,
}

/// Routes an embedding-tasks request: answered locally when it carries no
/// texts.
pub fn embedding_tasks_gate(metadata: &Metadata, request: &EmbeddingTasksRequest) -> (r: Result<
    NlpAction,
    RpcError,
>)
    ensures
        nlp_gate_ok(r, metadata.pairs@, request.texts@.len() == 0),
{
    nlp_gate(metadata, request.texts.len() == 0)
}

/// Routes an embedding-task request: answered locally when its text is empty.
pub fn embedding_task_gate(metadata: &Metadata, request: &EmbeddingTaskRequest) -> (r: Result<
    NlpAction,
    RpcError,
>)
    ensures
        nlp_gate_ok(r, metadata.pairs@, request.text@.len() == 0),
{
    nlp_gate(metadata, request.text.as_str().is_empty())
}

/// Routes a rerank-tasks request: answered locally when it carries no
/// documents or no queries.
pub fn rerank_tasks_gate<D>(metadata: &Metadata, request: &RerankTasksRequest<D>) -> (r: Result<
    NlpAction,
    RpcError,
>)
    ensures
        nlp_gate_ok(
            r,
            metadata.pairs@,
            request.documents@.len() == 0 || request.queries@.len() == 0,
        ),
{
    nlp_gate(metadata, request.documents.len() == 0 || request.queries.len() == 0)
}

/// Routes a rerank-task request: answered locally when it carries no
/// documents or an empty query.
pub fn rerank_task_gate<D>(metadata: &Metadata, request: &RerankTaskRequest<D>) -> (r: Result<
    NlpAction,
    RpcError,
>)
    ensures
        nlp_gate_ok(
            r,
            metadata.pairs@,
            request.documents@.len() == 0 || request.query@.len() == 0,
        ),
{
    nlp_gate(
        metadata,
        request.documents.len() == 0 || request.query.as_str().is_empty(),
    )
}

/// Routes a sentence-similarity-tasks request: answered locally when it
/// carries no source sentences or no sentences.
pub fn sentence_similarity_tasks_gate(
    metadata: &Metadata,
    request: &SentenceSimilarityTasksRequest,
) -> (r: Result<NlpAction, RpcError>)
    ensures
        nlp_gate_ok(
            r,
            metadata.pairs@,
            request.source_sentences@.len() == 0 || request.sentences@.len() == 0,
        ),
{
    nlp_gate(
        metadata,
        request.source_sentences.len() == 0 || request.sentences.len() == 0,
    )
}

/// Routes a sentence-similarity-task request: answered locally when its
/// source sentence is empty or it carries no sentences.
pub fn sentence_similarity_task_gate(
    metadata: &Metadata,
    request: &SentenceSimilarityTaskRequest,
) -> (r: Result<NlpAction, RpcError>)
    ensures
        nlp_gate_ok(
            r,
            metadata.pairs@,
            request.source_sentence@.len() == 0 || request.sentences@.len() == 0,
        ),
{
    nlp_gate(
        metadata,
        request.source_sentence.as_str().is_empty() || request.sentences.len() == 0,
    )
}

/// The error every unimplemented method returns.
pub fn unimplemented_error() -> (r: RpcError)
    ensures
        r.code == RpcCode::Unimplemented,
        r.message@ == "not implemented"@,
{
    RpcError { code: RpcCode::Unimplemented, message: String::from_str("not implemented") }
}

/// Short-circuits a unary generation call: a batch without requests is
/// answered locally with an empty batch.
pub fn generate_gate(request: &BatchedGenerationRequest) -> (r: Option<BatchedGenerationResponse>)
    ensures
        r is Some <==> request.requests@.len() == 0,
        r is Some ==> r->0.responses@.len() == 0,
{
    if request.requests.len() == 0 {
        Some(BatchedGenerationResponse { responses: Vec::new() })
    } else {
        None
    }
}

/// Rejects a streaming generation call that carries no request body.
pub fn generate_stream_gate(request: &SingleGenerationRequest) -> (r: Result<(), RpcError>)
    ensures
        r is Err <==> request.request is None,
        r is Err ==> r->Err_0.code == RpcCode::InvalidArgument && r->Err_0.message@
            == "missing request"@,
{
    if request.request.is_none() {
        Err(
            RpcError {
                code: RpcCode::InvalidArgument,
                message: String::from_str("missing request"),
            },
        )
    } else {
        Ok(())
    }
}

/// A tokenization input.
pub struct TokenizeRequest {
    pub text: String,
}

/// A unary tokenization call: a batch of inputs under one model id.
pub struct BatchedTokenizeRequest {
    pub model_id: String,
    pub requests: Vec<TokenizeRequest>,
}

/// The response of a tokenization call; the per-input responses are opaque
/// payloads.
pub struct BatchedTokenizeResponse<T> {
    pub responses: Vec<T>,
}

/// Short-circuits a tokenization call: a batch without requests is answered
/// locally with an empty batch.
pub fn tokenize_gate<T>(request: &BatchedTokenizeRequest) -> (r: Option<BatchedTokenizeResponse<T>>)
    ensures
        r is Some <==> request.requests@.len() == 0,
        r is Some ==> r->0.responses@.len() == 0,
{
    if request.requests.len() == 0 {
        Some(BatchedTokenizeResponse { responses: Vec::new() })
    } else {
        None
    }
}

/// A model-information request: the ids to report on.
pub struct ModelInfoRequest {
    pub model_ids: Vec<String>,
}

/// A model-information response; what is known of each model is an opaque
/// payload.
pub struct ModelInfoResponse<M> {
    pub models: Vec<M>,
}

/// Short-circuits a model-information call: a request without ids is answered
/// locally with an empty response.
pub fn get_models_info_gate<M>(request: &ModelInfoRequest) -> (r: Option<ModelInfoResponse<M>>)
    ensures
        r is Some <==> request.model_ids@.len() == 0,
        r is Some ==> r->0.models@.len() == 0,
{
    if request.model_ids.len() == 0 {
        Some(ModelInfoResponse { models: Vec::new() })
    } else {
        None
    }
}

/// The per-model sub-requests of a model-information fan-out: one single-id
/// request per requested id, in request order.
pub fn info_fanout_plan(request: &ModelInfoRequest) -> (r: Vec<ModelInfoRequest>)
    ensures
        r@.len() == request.model_ids@.len(),
        forall|i: int|
            0 <= i < r@.len() ==> (#[trigger] r@[i]).model_ids@.len() == 1
                && r@[i].model_ids@[0]@ == request.model_ids@[i]@,
{
    let mut r: Vec<ModelInfoRequest> = Vec::new();
    let mut i: usize = 0;
    while i < request.model_ids.len()
        invariant
            0 <= i <= request.model_ids@.len(),
            r@.len() == i,
            forall|j: int|
                0 <= j < i ==> (#[trigger] r@[j]).model_ids@.len() == 1 && r@[j].model_ids@[0]@
                    == request.model_ids@[j]@,
        decreases request.model_ids@.len() - i,
    {
        let mut ids: Vec<String> = Vec::new();
        ids.push(request.model_ids[i].clone());
        r.push(ModelInfoRequest { model_ids: ids });
        i = i + 1;
    }
    r
}

/// The concatenation of the models of the per-model responses, in response
/// order.
pub open spec fn spec_concat_models<M>(parts: Seq<ModelInfoResponse<M>>) -> Seq<M>
    decreases parts.len(),
{
    if parts.len() == 0 {
        Seq::empty()
    } else {
        spec_concat_models(parts.drop_last()) + parts.last().models@
    }
}

/// The total model count of the per-model responses.
pub open spec fn spec_sum_models<M>(parts: Seq<ModelInfoResponse<M>>) -> int
    decreases parts.len(),
{
    if parts.len() == 0 {
        0
    } else {
        spec_sum_models(parts.drop_last()) + parts.last().models@.len()
    }
}

/// The law of the fan-out: the aggregated model list is as long as the
/// per-model lists together.
pub proof fn lemma_concat_models_len<M>(parts: Seq<ModelInfoResponse<M>>)
    ensures
        spec_concat_models(parts).len() == spec_sum_models(parts),
    decreases parts.len(),
{
    if parts.len() > 0 {
        lemma_concat_models_len(parts.drop_last());
    }
}

/// Aggregates the per-model responses of a fan-out into one response: the
/// model lists concatenated in input order.
pub fn aggregate_models_info<M>(parts: Vec<ModelInfoResponse<M>>) -> (r: ModelInfoResponse<M>)
    ensures
        r.models@ == spec_concat_models(parts@),
        r.models@.len() == spec_sum_models(parts@),
{
    let ghost pv = parts@;
    let mut models: Vec<M> = Vec::new();
    let mut rest = parts;
    let total_parts = rest.len();
    let mut n: usize = 0;
    proof {
        assert(pv.len() == total_parts);
        assert(pv.take(0) =~= Seq::<ModelInfoResponse<M>>::empty());
    }
    while rest.len() > 0
        invariant
            0 <= n <= pv.len(),
            rest@ == pv.skip(n as int),
            pv.len() <= usize::MAX,
            models@ == spec_concat_models(pv.take(n as int)),
        decreases rest@.len(),
    {
        let part = rest.remove(0);
        proof {
            assert(part == pv[n as int]);
            assert(rest@ =~= pv.skip(n + 1));
        }
        let mut part_models = part.models;
        let ghost mv = part_models@;
        let ghost before = models@;
        while part_models.len() > 0
            invariant
                before + mv == models@ + part_models@,
            decreases part_models@.len(),
        {
            let m = part_models.remove(0);
            models.push(m);
            proof {
                assert(before + mv =~= models@ + part_models@);
            }
        }
        proof {
            assert(models@ =~= before + mv);
            assert(pv.take(n + 1).drop_last() =~= pv.take(n as int));
            assert(pv.take(n + 1).last() == pv[n as int]);
        }
        n = n + 1;
    }
    proof {
        assert(pv.take(n as int) =~= pv);
        lemma_concat_models_len(pv);
    }
    ModelInfoResponse { models }
}

} // verus!

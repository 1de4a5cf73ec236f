//! Chat templates: the raw form as configuration carries it, the
//! normalization of its source, and the compiled, renderable form. The
//! template language itself is evaluated by the sandboxed `minijinja` engine
//! behind trusted wrappers; everything around the engine — normalization,
//! bindings, error surfacing — is verified here.

use minijinja::{Environment, Error, ErrorKind, Value};
use vstd::prelude::*;
use crate::openai::Message;
use crate::text::{chars_of, concat_all, spec_concat, spec_lines, spec_trim, split_lines,
    string_from_chars, trim_chars};

verus! {

/// A chat template as configuration carries it: the two literal tokens and
/// the template program's source.
#[derive(Clone, Debug)]
pub struct RawChatTemplate {
    pub bos_token: String,
    pub eos_token: String,
    pub source: String,
}

/// A template source after normalization: each line trimmed, all lines
/// concatenated with no separator. This lets authors write multi-line
/// templates in configuration without the rendered prompt reflecting the
/// layout whitespace.
pub open spec fn spec_normalize(s: Seq<char>) -> Seq<char> {
    spec_concat(spec_lines(s).map_values(|l: Seq<char>| spec_trim(l)))
}

/// Normalizes a template source: trims each line and concatenates.
pub fn normalize_source(source: &str) -> (r: String)
    ensures
        r@ == spec_normalize(source@),
{
    let cs = chars_of(source);
    let lines = split_lines(cs.as_slice());
    let mut trimmed: Vec<Vec<char>> = Vec::new();
    let mut i: usize = 0;
    while i < lines.len()
        invariant
            0 <= i <= lines@.len(),
            crate::text::seq_views(trimmed@) =~= crate::text::seq_views(lines@).take(
                i as int,
            ).map_values(|l: Seq<char>| spec_trim(l)),
        decreases lines@.len() - i,
    {
        let ghost prev = trimmed@;
        trimmed.push(trim_chars(lines[i].as_slice()));
        proof {
            assert(crate::text::seq_views(trimmed@) =~= crate::text::seq_views(prev).push(
                spec_trim(lines@[i as int]@),
            ));
            assert(crate::text::seq_views(lines@).take(i + 1).map_values(
                |l: Seq<char>| spec_trim(l),
            ) =~= crate::text::seq_views(lines@).take(i as int).map_values(
                |l: Seq<char>| spec_trim(l),
            ).push(spec_trim(lines@[i as int]@)));
        }
        i = i + 1;
    }
    proof {
        assert(crate::text::seq_views(lines@).take(lines@.len() as int) =~= crate::text::seq_views(
            lines@,
        ));
    }
    let joined = concat_all(&trimmed);
    string_from_chars(joined.as_slice())
}

/// Whether the template engine accepts this source. Compilation is a function
/// of the source text alone.
pub uninterp spec fn template_compiles(source: Seq<char>) -> bool;

/// The views of messages as the engine sees them: role, content, and the
/// optional participant name.
pub open spec fn msg_views(ms: Seq<Message>) -> Seq<(Seq<char>, Seq<char>, Option<Seq<char>>)> {
    ms.map_values(
        |m: Message|
            (
                m.role@,
                m.content@,
                match m.name {
                    Some(n) => Some(n@),
                    None => None,
                },
            ),
    )
}

/// What rendering the template source over the given bindings yields: the
/// prompt, or the message of the error the template raised. The result is a
/// function of the source, the two tokens and the messages alone.
pub uninterp spec fn spec_render(
    source: Seq<char>,
    bos: Seq<char>,
    eos: Seq<char>,
    messages: Seq<(Seq<char>, Seq<char>, Option<Seq<char>>)>,
) -> Result<Seq<char>, Seq<char>>;

/// Relies on minijinja's `Environment::template_from_str`: compiling a
/// template from a source string is deterministic, and this call reports
/// whether it succeeds (and with what message it fails).
#[verifier::external_body]
fn try_compile(source: &str) -> (r: Option<String>)
    ensures
        r is None <==> template_compiles(source@),
{
    match Environment::new().template_from_str(source) {
        Ok(t) => { let _ = t; None },
        Err(e) => Some(e.to_string()),
    }
}

/// Relies on minijinja's `Environment::render_str`: rendering a template over
/// a value context is deterministic in the source and the bindings. The
/// environment binds `bos_token`, `eos_token`, `add_generation_prompt=true`
/// and `messages`, plus a `raise_exception` function whose closure only wraps
/// its message as the engine's error; a raised message comes back in the
/// error text.
#[verifier::external_body]
fn render_with_engine(source: &str, bos: &str, eos: &str, messages: &Vec<Message>) -> (r: Result<
    String,
    String,
>)
    ensures
        (match r {
            Ok(s) => spec_render(source@, bos@, eos@, msg_views(messages@)) == Ok::<
                Seq<char>,
                Seq<char>,
            >(s@),
            Err(e) => spec_render(source@, bos@, eos@, msg_views(messages@)) == Err::<
                Seq<char>,
                Seq<char>,
            >(e@),
        }),
{
    let mut env = Environment::new();
    env.add_function("raise_exception", |m: String| -> Result<Value, Error> {
        Err(Error::new(ErrorKind::InvalidOperation, m))
    });
    let msgs = Value::from_iter(messages.iter().map(|m| {
        let mut f = vec![("role", m.role.as_str()), ("content", m.content.as_str())];
        if let Some(n) = &m.name { f.push(("name", n.as_str())); }
        Value::from_iter(f)
    }));
    let ctx = [("bos_token", Value::from(bos)), ("eos_token", Value::from(eos)),
        ("add_generation_prompt", Value::from(true)), ("messages", msgs)];
    env.render_str(source, Value::from_iter(ctx)).map_err(|e| e.to_string())
}

/// A compiled chat template: the two literal tokens and the normalized source
/// that the engine accepted at load.
#[derive(Clone, Debug)]
pub struct ChatTemplate {
    bos_token: String,
    eos_token: String,
    source: String,
}

impl ChatTemplate {
    /// The beginning-of-sequence token bound at rendering.
    pub closed spec fn spec_bos_token(&self) -> Seq<char> {
        self.bos_token@
    }

    /// The end-of-sequence token bound at rendering.
    pub closed spec fn spec_eos_token(&self) -> Seq<char> {
        self.eos_token@
    }

    /// The normalized template source.
    pub closed spec fn spec_source(&self) -> Seq<char> {
        self.source@
    }

    /// Compiles a raw template: normalizes the source and has the engine
    /// check it. A source the engine refuses is an error carrying the
    /// engine's message.
    pub fn compile(raw: &RawChatTemplate) -> (r: Result<ChatTemplate, String>)
        ensures
            r is Ok <==> template_compiles(spec_normalize(raw.source@)),
            r is Ok ==> r->Ok_0.spec_bos_token() == raw.bos_token@
                && r->Ok_0.spec_eos_token() == raw.eos_token@ && r->Ok_0.spec_source()
                == spec_normalize(raw.source@),
    {
        let source = normalize_source(raw.source.as_str());
        match try_compile(source.as_str()) {
            None => Ok(
                ChatTemplate {
                    bos_token: raw.bos_token.clone(),
                    eos_token: raw.eos_token.clone(),
                    source,
                },
            ),
            Some(e) => Err(e),
        }
    }

    /// Renders the messages into a prompt, or surfaces the message of the
    /// error the template raised.
    pub fn render(&self, messages: &Vec<Message>) -> (r: Result<String, String>)
        ensures
            (match r {
                Ok(s) => spec_render(
                    self.spec_source(),
                    self.spec_bos_token(),
                    self.spec_eos_token(),
                    msg_views(messages@),
                ) == Ok::<Seq<char>, Seq<char>>(s@),
                Err(e) => spec_render(
                    self.spec_source(),
                    self.spec_bos_token(),
                    self.spec_eos_token(),
                    msg_views(messages@),
                ) == Err::<Seq<char>, Seq<char>>(e@),
            }),
    {
        render_with_engine(
            self.source.as_str(),
            self.bos_token.as_str(),
            self.eos_token.as_str(),
            messages,
        )
    }
}

/// The law of rendering: it is deterministic and referentially transparent.
/// Two templates that agree on their tokens and normalized source, over two
/// message lists that agree on every role, content and name, render to the
/// same result — the outcome depends on those values alone.
pub proof fn lemma_render_deterministic(
    t1: &ChatTemplate,
    t2: &ChatTemplate,
    m1: Seq<Message>,
    m2: Seq<Message>,
)
    requires
        t1.spec_source() == t2.spec_source(),
        t1.spec_bos_token() == t2.spec_bos_token(),
        t1.spec_eos_token() == t2.spec_eos_token(),
        msg_views(m1) == msg_views(m2),
    ensures
        spec_render(t1.spec_source(), t1.spec_bos_token(), t1.spec_eos_token(), msg_views(m1))
            == spec_render(
            t2.spec_source(),
            t2.spec_bos_token(),
            t2.spec_eos_token(),
            msg_views(m2),
        ),
{
}

} // verus!

//! The model-map configuration document: service addresses, the legacy and
//! current schemas, the loader, and the writer for the legacy schema.
//!
//! The document is a line-oriented mapping text: `key: value` entries,
//! `key:`-only section headers and model headers, `#` comment lines, blank
//! lines, double-quoted scalar values (taken verbatim, without escape
//! processing), and `>-` block scalars whose more-indented lines make up a
//! template source. The loader's grammar is stated exactly by the
//! specification functions here.

use vstd::prelude::*;
use vstd::string::StringExecFns;
use crate::template::{ChatTemplate, RawChatTemplate, spec_normalize, template_compiles};
use crate::text::{
    chars_of, dec_repr, is_space_char, lemma_find_bounds, lemma_find_concat, parse_u16,
    spec_find,
    spec_lines, spec_parse_u16, spec_trim, split_lines, string_from_chars, trim_chars,
};

verus! {

/// Where an upstream model server lives: a hostname and an optional port (the
/// system default upstream port applies when the port is absent).
#[derive(Clone, Debug)]
pub struct ServiceAddr {
    pub hostname: String,
    pub port: Option<u16>,
}

impl View for ServiceAddr {
    type V = (Seq<char>, Option<u16>);

    open spec fn view(&self) -> (Seq<char>, Option<u16>) {
        (self.hostname@, self.port)
    }
}

impl ServiceAddr {
    /// The port a channel to this address targets: the configured one, or the
    /// system default upstream port.
    pub fn target_port(&self, default_port: u16) -> (r: u16)
        ensures
            r == (match self.port {
                Some(p) => p,
                None => default_port,
            }),
    {
        match self.port {
            Some(p) => p,
            None => default_port,
        }
    }
}

/// Why a configuration document was refused.
#[derive(Clone, Debug)]
pub enum ConfigError {
    /// An address token whose port suffix is not an unsigned 16-bit numeral;
    /// carries the offending suffix.
    InvalidPort(String),
    /// An address token with more than one colon; carries the token.
    TooManyColons(String),
    /// A line that fits the schema nowhere; carries the line.
    BadLine(String),
    /// A key given twice within one mapping; carries the key.
    DuplicateKey(String),
    /// A chat template missing one of its fields; carries the model id.
    IncompleteTemplate(String),
    /// A chat template the engine refused; carries the model id and the
    /// engine's message.
    TemplateCompile(String, String),
}

impl ConfigError {
    /// The refusal as a diagnostic line, naming the offending value.
    pub fn message(&self) -> (r: String)
        ensures
            match self {
                ConfigError::InvalidPort(p) => r@ == "Invalid port in configured service name: "@
                    + p@,
                ConfigError::TooManyColons(_) => r@
                    == "Configured service name contains more than one : character"@,
                ConfigError::BadLine(l) => r@ == "Unrecognized configuration line: "@ + l@,
                ConfigError::DuplicateKey(k) => r@ == "Duplicate key in configuration: "@ + k@,
                ConfigError::IncompleteTemplate(m) => r@
                    == "Chat template missing a required field for model: "@ + m@,
                ConfigError::TemplateCompile(m, e) => r@ == "Invalid chat template for model "@
                    + m@ + ": "@ + e@,
            },
    {
        broadcast use vstd::string::group_string_axioms;

        match self {
            ConfigError::InvalidPort(p) => {
                let mut r = String::from_str(
                    "Invalid port in configured service name: ",
                );
                r.append(p.as_str());
                r
            },
            ConfigError::TooManyColons(_) => String::from_str(
                "Configured service name contains more than one : character",
            ),
            ConfigError::BadLine(l) => {
                let mut r = String::from_str(
                    "Unrecognized configuration line: ",
                );
                r.append(l.as_str());
                r
            },
            ConfigError::DuplicateKey(k) => {
                let mut r = String::from_str(
                    "Duplicate key in configuration: ",
                );
                r.append(k.as_str());
                r
            },
            ConfigError::IncompleteTemplate(m) => {
                let mut r = String::from_str(
                    "Chat template missing a required field for model: ",
                );
                r.append(m.as_str());
                r
            },
            ConfigError::TemplateCompile(m, e) => {
                let mut r = String::from_str(
                    "Invalid chat template for model ",
                );
                r.append(m.as_str());
                r.append(": ");
                r.append(e.as_str());
                r
            },
        }
    }
}

/// The specification-level form of a refusal (the engine's message of a
/// compile refusal is not part of the grammar).
pub enum LoadErr {
    InvalidPort(Seq<char>),
    TooManyColons(Seq<char>),
    BadLine(Seq<char>),
    DuplicateKey(Seq<char>),
    IncompleteTemplate(Seq<char>),
    TemplateCompile(Seq<char>),
}

/// The specification-level form of an exec refusal.
pub open spec fn err_abs(e: ConfigError) -> LoadErr {
    match e {
        ConfigError::InvalidPort(s) => LoadErr::InvalidPort(s@),
        ConfigError::TooManyColons(s) => LoadErr::TooManyColons(s@),
        ConfigError::BadLine(s) => LoadErr::BadLine(s@),
        ConfigError::DuplicateKey(s) => LoadErr::DuplicateKey(s@),
        ConfigError::IncompleteTemplate(s) => LoadErr::IncompleteTemplate(s@),
        ConfigError::TemplateCompile(s, _) => LoadErr::TemplateCompile(s@),
    }
}

/// What parsing a service address token yields: with no colon the whole token
/// is the hostname; with one colon the suffix must read as an unsigned 16-bit
/// port; with more than one colon the token is refused.
pub open spec fn spec_parse_addr(v: Seq<char>) -> Result<(Seq<char>, Option<u16>), LoadErr> {
    let i = spec_find(v, ':');
    if i < 0 {
        Ok((v, None))
    } else {
        let rest = v.skip(i + 1);
        if spec_find(rest, ':') >= 0 {
            Err(LoadErr::TooManyColons(v))
        } else {
            match spec_parse_u16(rest) {
                Some(p) => Ok((v.take(i), Some(p))),
                None => Err(LoadErr::InvalidPort(rest)),
            }
        }
    }
}

/// The first colon of a line, or its absence.
fn find_colon(v: &[char]) -> (r: Option<usize>)
    ensures
        match r {
            Some(i) => spec_find(v@, ':') == i as int,
            None => spec_find(v@, ':') == -1,
        },
{
    let mut i: usize = 0;
    proof {
        assert(v@.skip(0) =~= v@);
    }
    while i < v.len()
        invariant
            0 <= i <= v@.len(),
            spec_find(v@, ':') == (if spec_find(v@.skip(i as int), ':') < 0 {
                -1
            } else {
                spec_find(v@.skip(i as int), ':') + i
            }),
        decreases v@.len() - i,
    {
        proof {
            assert(v@.skip(i as int)[0] == v@[i as int]);
            assert(v@.skip(i as int).drop_first() =~= v@.skip(i + 1));
        }
        if v[i] == ':' {
            return Some(i);
        }
        i = i + 1;
    }
    proof {
        assert(v@.skip(i as int) =~= Seq::<char>::empty());
    }
    None
}

/// Parses a service address token.
pub fn parse_service_addr(v: &[char]) -> (r: Result<ServiceAddr, ConfigError>)
    ensures
        match r {
            Ok(a) => spec_parse_addr(v@) == Ok::<(Seq<char>, Option<u16>), LoadErr>(a@),
            Err(e) => spec_parse_addr(v@) == Err::<(Seq<char>, Option<u16>), LoadErr>(err_abs(e)),
        },
{
    match find_colon(v) {
        None => Ok(ServiceAddr { hostname: string_from_chars(v), port: None }),
        Some(i) => {
            let vlen = v.len();
            proof {
                lemma_find_bounds(v@, ':');
                assert(v@.len() == vlen);
            }
            let mut host: Vec<char> = Vec::new();
            let mut k: usize = 0;
            while k < i
                invariant
                    0 <= k <= i < v@.len(),
                    host@ == v@.take(i as int).take(k as int),
                decreases i - k,
            {
                host.push(v[k]);
                proof {
                    assert(host@ =~= v@.take(i as int).take(k + 1));
                }
                k = k + 1;
            }
            proof {
                assert(v@.take(i as int).take(i as int) =~= v@.take(i as int));
            }
            let mut rest: Vec<char> = Vec::new();
            let mut k2: usize = i + 1;
            while k2 < v.len()
                invariant
                    i + 1 <= k2 <= v@.len(),
                    i < v@.len(),
                    rest@ == v@.skip(i as int + 1).take(k2 - i - 1),
                decreases v@.len() - k2,
            {
                rest.push(v[k2]);
                proof {
                    assert(rest@ =~= v@.skip(i as int + 1).take(k2 - i));
                }
                k2 = k2 + 1;
            }
            proof {
                assert(v@.skip(i as int + 1).take(v@.len() - i - 1) =~= v@.skip(i as int + 1));
            }
            match find_colon(rest.as_slice()) {
                Some(_) => Err(ConfigError::TooManyColons(string_from_chars(v))),
                None => {
                    match parse_u16(rest.as_slice()) {
                        Some(p) => Ok(
                            ServiceAddr { hostname: string_from_chars(host.as_slice()), port: Some(p) },
                        ),
                        None => Err(ConfigError::InvalidPort(string_from_chars(rest.as_slice()))),
                    }
                },
            }
        },
    }
}

/// The number of leading spaces of a raw line.
pub open spec fn spec_indent(s: Seq<char>) -> int
    decreases s.len(),
{
    if s.len() > 0 && s[0] == ' ' {
        1 + spec_indent(s.drop_first())
    } else {
        0
    }
}

proof fn lemma_indent_bound(s: Seq<char>)
    ensures
        0 <= spec_indent(s) <= s.len(),
        forall|j: int| 0 <= j < spec_indent(s) ==> s[j] == ' ',
        spec_indent(s) < s.len() ==> s[spec_indent(s)] != ' ',
    decreases s.len(),
{
    if s.len() > 0 && s[0] == ' ' {
        lemma_indent_bound(s.drop_first());
        assert forall|j: int| 1 <= j < spec_indent(s) implies s[j] == ' ' by {
            assert(s.drop_first()[j - 1] == s[j]);
        }
    }
}

/// The number of leading spaces of a raw line.
pub fn indent_of(v: &[char]) -> (r: usize)
    ensures
        r == spec_indent(v@),
{
    proof {
        lemma_indent_bound(v@);
    }
    let mut i: usize = 0;
    while i < v.len() && v[i] == ' '
        invariant
            0 <= i <= v@.len(),
            i <= spec_indent(v@),
            forall|j: int| 0 <= j < i ==> v@[j] == ' ',
        decreases v@.len() - i,
    {
        proof {
            lemma_indent_bound(v@);
            if spec_indent(v@) <= i {
                assert(v@[spec_indent(v@)] == ' ');
            }
        }
        i = i + 1;
    }
    proof {
        lemma_indent_bound(v@);
        if i < v@.len() && spec_indent(v@) > i {
            assert(v@[i as int] == ' ');
        }
    }
    i
}

/// Whether a line carries nothing: only whitespace, or a `#` comment.
pub open spec fn spec_skippable(line: Seq<char>) -> bool {
    spec_trim(line).len() == 0 || spec_trim(line)[0] == '#'
}

/// Whether a line, given already trimmed, carries nothing.
pub fn is_skippable(trimmed: &[char]) -> (r: bool)
    ensures
        r == (trimmed@.len() == 0 || trimmed@[0] == '#'),
{
    trimmed.len() == 0 || trimmed[0] == '#'
}

/// The index of the key/value separator of a trimmed line: the first colon
/// that ends the line or is followed by a space.
pub open spec fn spec_kv_sep(t: Seq<char>) -> int
    decreases t.len(),
{
    if t.len() == 0 {
        -1
    } else if t[0] == ':' && (t.len() == 1 || t[1] == ' ') {
        0
    } else {
        let r = spec_kv_sep(t.drop_first());
        if r < 0 {
            -1
        } else {
            r + 1
        }
    }
}

proof fn lemma_kv_sep_bound(t: Seq<char>)
    ensures
        -1 <= spec_kv_sep(t) < t.len(),
    decreases t.len(),
{
    if t.len() > 0 && !(t[0] == ':' && (t.len() == 1 || t[1] == ' ')) {
        lemma_kv_sep_bound(t.drop_first());
    }
}

/// A key/value split of a trimmed line: the key before the separator (with
/// trailing whitespace dropped) and the value after it (trimmed); absent when
/// the line has no separator or an empty key.
pub open spec fn spec_split_kv(t: Seq<char>) -> Option<(Seq<char>, Seq<char>)> {
    let i = spec_kv_sep(t);
    if i < 0 {
        None
    } else {
        let key = spec_trim(t.take(i));
        let value = spec_trim(t.skip(i + 1));
        if key.len() == 0 {
            None
        } else {
            Some((key, value))
        }
    }
}

/// The key/value separator position of a trimmed line, or its absence.
fn find_kv_sep(t: &[char]) -> (r: Option<usize>)
    ensures
        match r {
            Some(i) => spec_kv_sep(t@) == i as int,
            None => spec_kv_sep(t@) == -1,
        },
{
    let mut i: usize = 0;
    proof {
        assert(t@.skip(0) =~= t@);
    }
    while i < t.len()
        invariant
            0 <= i <= t@.len(),
            spec_kv_sep(t@) == (if spec_kv_sep(t@.skip(i as int)) < 0 {
                -1
            } else {
                spec_kv_sep(t@.skip(i as int)) + i
            }),
        decreases t@.len() - i,
    {
        proof {
            assert(t@.skip(i as int)[0] == t@[i as int]);
            assert(t@.skip(i as int).drop_first() =~= t@.skip(i + 1));
            assert(t@.skip(i as int).len() == t@.len() - i);
            if i + 1 < t@.len() {
                assert(t@.skip(i as int)[1] == t@[i as int + 1]);
            }
        }
        if t[i] == ':' && (i + 1 == t.len() || t[i + 1] == ' ') {
            return Some(i);
        }
        i = i + 1;
    }
    proof {
        assert(t@.skip(i as int) =~= Seq::<char>::empty());
    }
    None
}

/// Splits a trimmed line at its key/value separator.
pub fn split_kv(t: &[char]) -> (r: Option<(Vec<char>, Vec<char>)>)
    ensures
        match r {
            Some(kv) => spec_split_kv(t@) == Some((kv.0@, kv.1@)),
            None => spec_split_kv(t@) is None,
        },
{
    match find_kv_sep(t) {
        None => None,
        Some(s) => {
            let tlen = t.len();
            proof {
                lemma_kv_sep_bound(t@);
                assert(t@.len() == tlen);
            }
            let mut keypart: Vec<char> = Vec::new();
            let mut k: usize = 0;
            while k < s
                invariant
                    0 <= k <= s <= t@.len(),
                    keypart@ == t@.take(s as int).take(k as int),
                decreases s - k,
            {
                keypart.push(t[k]);
                proof {
                    assert(keypart@ =~= t@.take(s as int).take(k + 1));
                }
                k = k + 1;
            }
            proof {
                assert(t@.take(s as int).take(s as int) =~= t@.take(s as int));
            }
            let mut valpart: Vec<char> = Vec::new();
            let mut k2: usize = s + 1;
            while k2 < t.len()
                invariant
                    s + 1 <= k2 <= t@.len() || (k2 == s + 1 && t@.len() <= s + 1),
                    s < t@.len(),
                    valpart@ == t@.skip(s as int + 1).take(k2 - s - 1),
                decreases t@.len() - k2,
            {
                valpart.push(t[k2]);
                proof {
                    assert(valpart@ =~= t@.skip(s as int + 1).take(k2 - s));
                }
                k2 = k2 + 1;
            }
            proof {
                if t@.len() >= s + 1 {
                    assert(t@.skip(s as int + 1).take(t@.len() - s - 1) =~= t@.skip(s as int + 1));
                }
            }
            let key = trim_chars(keypart.as_slice());
            let value = trim_chars(valpart.as_slice());
            if key.len() == 0 {
                None
            } else {
                Some((key, value))
            }
        },
    }
}

/// A scalar value with surrounding double quotes dropped (the contents are
/// taken verbatim; no escape processing).
pub open spec fn spec_unquote(v: Seq<char>) -> Seq<char> {
    if v.len() >= 2 && v[0] == '"' && v.last() == '"' {
        v.subrange(1, v.len() - 1)
    } else {
        v
    }
}

/// A raw chat template at the specification level: the two tokens and the
/// template source as the document carries them.
pub struct TplAbs {
    pub bos: Seq<char>,
    pub eos: Seq<char>,
    pub source: Seq<char>,
}

/// A parsed model map at the specification level.
pub enum MapAbs {
    Legacy(Seq<(Seq<char>, (Seq<char>, Option<u16>))>),
    Current {
        gen: Seq<(Seq<char>, (Seq<char>, Option<u16>))>,
        emb: Seq<(Seq<char>, (Seq<char>, Option<u16>))>,
        tpl: Seq<(Seq<char>, TplAbs)>,
    },
}

/// Whether some pair carries the key.
pub open spec fn skey_has<X>(s: Seq<(Seq<char>, X)>, k: Seq<char>) -> bool {
    exists|i: int| 0 <= i < s.len() && s[i].0 == k
}

/// Whether no key occurs twice.
pub open spec fn skeys_distinct<X>(s: Seq<(Seq<char>, X)>) -> bool {
    forall|i: int, j: int| 0 <= i < j < s.len() ==> s[i].0 != s[j].0
}

/// Whether the key names one of the current schema's three sections.
pub open spec fn is_section_key(k: Seq<char>) -> bool {
    k == "generation"@ || k == "embeddings"@ || k == "chat_templates"@
}

/// The index of the first line that carries content, or -1.
pub open spec fn spec_first_meaningful(lines: Seq<Seq<char>>, i: nat) -> int
    decreases lines.len() - i,
{
    if i >= lines.len() {
        -1
    } else if spec_skippable(lines[i as int]) {
        spec_first_meaningful(lines, i + 1)
    } else {
        i as int
    }
}

/// Whether the document is in the current schema: its first contentful line
/// is a valueless section header.
pub open spec fn spec_is_current(lines: Seq<Seq<char>>) -> bool {
    let j = spec_first_meaningful(lines, 0);
    &&& j >= 0
    &&& match spec_split_kv(spec_trim(lines[j])) {
        Some(kv) => kv.1.len() == 0 && is_section_key(kv.0),
        None => false,
    }
}

/// The document's base indentation: that of its first contentful line. Every
/// top-level entry or section header must sit at this indentation.
pub open spec fn spec_base_indent(lines: Seq<Seq<char>>) -> int {
    let j = spec_first_meaningful(lines, 0);
    if j >= 0 {
        spec_indent(lines[j])
    } else {
        0
    }
}

/// What the legacy schema makes of the document's lines from `i` on, with the
/// entries read so far: every contentful line is an unindented `model:
/// address` entry with a fresh model id.
pub open spec fn spec_parse_legacy(
    lines: Seq<Seq<char>>,
    i: nat,
    base: int,
    acc: Seq<(Seq<char>, (Seq<char>, Option<u16>))>,
) -> Result<Seq<(Seq<char>, (Seq<char>, Option<u16>))>, LoadErr>
    decreases lines.len() - i,
{
    if i >= lines.len() {
        Ok(acc)
    } else {
        let line = lines[i as int];
        let t = spec_trim(line);
        if spec_skippable(line) {
            spec_parse_legacy(lines, i + 1, base, acc)
        } else if spec_indent(line) != base {
            Err(LoadErr::BadLine(line))
        } else {
            match spec_split_kv(t) {
                None => Err(LoadErr::BadLine(line)),
                Some(kv) => {
                    let v = spec_unquote(kv.1);
                    if v.len() == 0 {
                        Err(LoadErr::BadLine(line))
                    } else if skey_has(acc, kv.0) {
                        Err(LoadErr::DuplicateKey(kv.0))
                    } else {
                        match spec_parse_addr(v) {
                            Ok(a) => spec_parse_legacy(lines, i + 1, base, acc.push((kv.0, a))),
                            Err(e) => Err(e),
                        }
                    }
                },
            }
        }
    }
}

/// Which section of the current schema is being read.
#[derive(Clone, Copy, Debug, PartialEq, Eq, Structural)]
pub enum Section {
    BeforeAny,
    Generation,
    Embeddings,
    ChatTemplates,
}

/// The current-schema reader's state at the specification level.
pub struct V2Abs {
    pub base: int,
    pub gen: Seq<(Seq<char>, (Seq<char>, Option<u16>))>,
    pub emb: Seq<(Seq<char>, (Seq<char>, Option<u16>))>,
    pub tpl: Seq<(Seq<char>, TplAbs)>,
    pub section: Section,
    pub model: Option<Seq<char>>,
    pub model_indent: int,
    pub bos: Option<Seq<char>>,
    pub eos: Option<Seq<char>>,
    pub src: Option<Seq<char>>,
    pub block: Option<(int, Seq<Seq<char>>)>,
}

/// The reader's initial state.
pub open spec fn v2_init(base: int) -> V2Abs {
    V2Abs {
        base,
        gen: Seq::empty(),
        emb: Seq::empty(),
        tpl: Seq::empty(),
        section: Section::BeforeAny,
        model: None,
        model_indent: 0,
        bos: None,
        eos: None,
        src: None,
        block: None,
    }
}

/// The block lines joined with line feeds.
pub open spec fn spec_join_nl(parts: Seq<Seq<char>>) -> Seq<char>
    decreases parts.len(),
{
    if parts.len() == 0 {
        Seq::empty()
    } else if parts.len() == 1 {
        parts[0]
    } else {
        spec_join_nl(parts.drop_last()) + seq!['\n'] + parts.last()
    }
}

/// Ends an open block scalar: the collected lines become the pending template
/// source.
pub open spec fn v2_close_block(st: V2Abs) -> V2Abs {
    match st.block {
        Some(b) => V2Abs { src: Some(spec_join_nl(b.1)), block: None, ..st },
        None => st,
    }
}

/// Completes the pending template of the chat-template section: all three
/// fields must be present and the model id fresh.
pub open spec fn v2_finish_model(st: V2Abs) -> Result<V2Abs, LoadErr> {
    match st.model {
        None => Ok(st),
        Some(m) => {
            if st.bos is None || st.eos is None || st.src is None {
                Err(LoadErr::IncompleteTemplate(m))
            } else if skey_has(st.tpl, m) {
                Err(LoadErr::DuplicateKey(m))
            } else {
                Ok(
                    V2Abs {
                        tpl: st.tpl.push(
                            (m, TplAbs { bos: st.bos->0, eos: st.eos->0, source: st.src->0 }),
                        ),
                        model: None,
                        bos: None,
                        eos: None,
                        src: None,
                        ..st
                    },
                )
            }
        },
    }
}

/// Reads one contentful line outside any block scalar.
pub open spec fn v2_line_main(st: V2Abs, line: Seq<char>) -> Result<V2Abs, LoadErr> {
    let t = spec_trim(line);
    if spec_skippable(line) {
        Ok(st)
    } else {
        let ind = spec_indent(line);
        match spec_split_kv(t) {
            None => Err(LoadErr::BadLine(line)),
            Some(kv) => {
                let v = spec_unquote(kv.1);
                if ind == st.base {
                    if kv.1.len() != 0 || !is_section_key(kv.0) {
                        Err(LoadErr::BadLine(line))
                    } else {
                        match v2_finish_model(st) {
                            Err(e) => Err(e),
                            Ok(st2) => Ok(
                                V2Abs {
                                    section: if kv.0 == "generation"@ {
                                        Section::Generation
                                    } else if kv.0 == "embeddings"@ {
                                        Section::Embeddings
                                    } else {
                                        Section::ChatTemplates
                                    },
                                    ..st2
                                },
                            ),
                        }
                    }
                } else {
                    match st.section {
                        Section::BeforeAny => Err(LoadErr::BadLine(line)),
                        Section::Generation => {
                            if v.len() == 0 {
                                Err(LoadErr::BadLine(line))
                            } else if skey_has(st.gen, kv.0) {
                                Err(LoadErr::DuplicateKey(kv.0))
                            } else {
                                match spec_parse_addr(v) {
                                    Ok(a) => Ok(V2Abs { gen: st.gen.push((kv.0, a)), ..st }),
                                    Err(e) => Err(e),
                                }
                            }
                        },
                        Section::Embeddings => {
                            if v.len() == 0 {
                                Err(LoadErr::BadLine(line))
                            } else if skey_has(st.emb, kv.0) {
                                Err(LoadErr::DuplicateKey(kv.0))
                            } else {
                                match spec_parse_addr(v) {
                                    Ok(a) => Ok(V2Abs { emb: st.emb.push((kv.0, a)), ..st }),
                                    Err(e) => Err(e),
                                }
                            }
                        },
                        Section::ChatTemplates => {
                            match st.model {
                                None => {
                                    if kv.1.len() != 0 {
                                        Err(LoadErr::BadLine(line))
                                    } else {
                                        Ok(
                                            V2Abs {
                                                model: Some(kv.0),
                                                model_indent: ind,
                                                ..st
                                            },
                                        )
                                    }
                                },
                                Some(_) => {
                                    if ind > st.model_indent {
                                        if kv.0 == "bos_token"@ {
                                            Ok(V2Abs { bos: Some(v), ..st })
                                        } else if kv.0 == "eos_token"@ {
                                            Ok(V2Abs { eos: Some(v), ..st })
                                        } else if kv.0 == "source"@ {
                                            if kv.1 == ">-"@ {
                                                Ok(
                                                    V2Abs {
                                                        block: Some((ind, Seq::empty())),
                                                        src: None,
                                                        ..st
                                                    },
                                                )
                                            } else if v.len() > 0 {
                                                Ok(V2Abs { src: Some(v), ..st })
                                            } else {
                                                Err(LoadErr::BadLine(line))
                                            }
                                        } else {
                                            Err(LoadErr::BadLine(line))
                                        }
                                    } else {
                                        match v2_finish_model(st) {
                                            Err(e) => Err(e),
                                            Ok(st2) => {
                                                if kv.1.len() != 0 {
                                                    Err(LoadErr::BadLine(line))
                                                } else {
                                                    Ok(
                                                        V2Abs {
                                                            model: Some(kv.0),
                                                            model_indent: ind,
                                                            ..st2
                                                        },
                                                    )
                                                }
                                            },
                                        }
                                    }
                                },
                            }
                        },
                    }
                }
            },
        }
    }
}

/// Reads one line. While a block scalar is open, its more-indented lines are
/// content and a blank line ends it; any other line ends it and is then read
/// as mapping structure.
pub open spec fn v2_line(st: V2Abs, line: Seq<char>) -> Result<V2Abs, LoadErr> {
    match st.block {
        Some(b) => {
            if spec_trim(line).len() == 0 {
                Ok(v2_close_block(st))
            } else if spec_indent(line) > b.0 {
                Ok(V2Abs { block: Some((b.0, b.1.push(spec_trim(line)))), ..st })
            } else {
                v2_line_main(v2_close_block(st), line)
            }
        },
        None => v2_line_main(st, line),
    }
}

/// What the current schema makes of the document's lines from `i` on.
pub open spec fn spec_parse_current(lines: Seq<Seq<char>>, i: nat, st: V2Abs) -> Result<
    V2Abs,
    LoadErr,
>
    decreases lines.len() - i,
{
    if i >= lines.len() {
        v2_finish_model(v2_close_block(st))
    } else {
        match v2_line(st, lines[i as int]) {
            Ok(st2) => spec_parse_current(lines, i + 1, st2),
            Err(e) => Err(e),
        }
    }
}

/// The chat templates with their sources normalized, provided the engine
/// accepts each; the first refused template fails the load, naming its model.
pub open spec fn spec_compile_templates(tpl: Seq<(Seq<char>, TplAbs)>) -> Result<
    Seq<(Seq<char>, TplAbs)>,
    LoadErr,
>
    decreases tpl.len(),
{
    if tpl.len() == 0 {
        Ok(Seq::empty())
    } else {
        match spec_compile_templates(tpl.drop_last()) {
            Err(e) => Err(e),
            Ok(done) => {
                let e = tpl.last();
                if template_compiles(spec_normalize(e.1.source)) {
                    Ok(
                        done.push(
                            (
                                e.0,
                                TplAbs {
                                    bos: e.1.bos,
                                    eos: e.1.eos,
                                    source: spec_normalize(e.1.source),
                                },
                            ),
                        ),
                    )
                } else {
                    Err(LoadErr::TemplateCompile(e.0))
                }
            },
        }
    }
}

/// What loading a document yields: the legacy flat mapping, or the current
/// schema's three sections with every chat template normalized and accepted
/// by the engine.
pub open spec fn spec_load(s: Seq<char>) -> Result<MapAbs, LoadErr> {
    let lines = spec_lines(s);
    let base = spec_base_indent(lines);
    if spec_is_current(lines) {
        match spec_parse_current(lines, 0, v2_init(base)) {
            Err(e) => Err(e),
            Ok(st) => match spec_compile_templates(st.tpl) {
                Err(e) => Err(e),
                Ok(ts) => Ok(MapAbs::Current { gen: st.gen, emb: st.emb, tpl: ts }),
            },
        }
    } else {
        match spec_parse_legacy(lines, 0, base, Seq::empty()) {
            Ok(es) => Ok(MapAbs::Legacy(es)),
            Err(e) => Err(e),
        }
    }
}

/// Drops surrounding double quotes.
pub fn unquote(v: Vec<char>) -> (r: Vec<char>)
    ensures
        r@ == spec_unquote(v@),
{
    if v.len() >= 2 && v[0] == '"' && v[v.len() - 1] == '"' {
        let mut r: Vec<char> = Vec::new();
        let mut i: usize = 1;
        while i < v.len() - 1
            invariant
                1 <= i <= v@.len() - 1,
                r@ == v@.subrange(1, i as int),
            decreases v@.len() - i,
        {
            r.push(v[i]);
            proof {
                assert(r@ =~= v@.subrange(1, i + 1));
            }
            i = i + 1;
        }
        r
    } else {
        v
    }
}

/// The views of address entries.
pub open spec fn entries_abs(v: Seq<(String, ServiceAddr)>) -> Seq<
    (Seq<char>, (Seq<char>, Option<u16>)),
> {
    v.map_values(|e: (String, ServiceAddr)| (e.0@, e.1@))
}

/// The views of raw template entries.
pub open spec fn raw_tpls_abs(v: Seq<(String, RawChatTemplate)>) -> Seq<(Seq<char>, TplAbs)> {
    v.map_values(
        |e: (String, RawChatTemplate)|
            (e.0@, TplAbs { bos: e.1.bos_token@, eos: e.1.eos_token@, source: e.1.source@ }),
    )
}

/// The views of compiled template entries: their sources are normalized.
pub open spec fn tpls_abs(v: Seq<(String, ChatTemplate)>) -> Seq<(Seq<char>, TplAbs)> {
    v.map_values(
        |e: (String, ChatTemplate)|
            (
                e.0@,
                TplAbs {
                    bos: e.1.spec_bos_token(),
                    eos: e.1.spec_eos_token(),
                    source: e.1.spec_source(),
                },
            ),
    )
}

/// Whether any entry carries the key.
fn vec_key_has<X>(v: &Vec<(String, X)>, k: &Vec<char>) -> (r: bool)
    ensures
        r == (exists|i: int| 0 <= i < v@.len() && (#[trigger] v@[i]).0@ == k@),
{
    let mut i: usize = 0;
    while i < v.len()
        invariant
            0 <= i <= v@.len(),
            forall|j: int| 0 <= j < i ==> (#[trigger] v@[j]).0@ != k@,
        decreases v@.len() - i,
    {
        if crate::text::chars_eq_str(k.as_slice(), v[i].0.as_str()) {
            return true;
        }
        i = i + 1;
    }
    false
}

proof fn lemma_entries_key(v: Seq<(String, ServiceAddr)>, k: Seq<char>)
    ensures
        skey_has(entries_abs(v), k) <==> (exists|i: int|
            0 <= i < v.len() && (#[trigger] v[i]).0@ == k),
{
    if skey_has(entries_abs(v), k) {
        let i = choose|i: int| 0 <= i < entries_abs(v).len() && entries_abs(v)[i].0 == k;
        assert(v[i].0@ == k);
    }
    if exists|i: int| 0 <= i < v.len() && (#[trigger] v[i]).0@ == k {
        let i = choose|i: int| 0 <= i < v.len() && (#[trigger] v[i]).0@ == k;
        assert(entries_abs(v)[i].0 == k);
    }
}

proof fn lemma_raw_tpls_key(v: Seq<(String, RawChatTemplate)>, k: Seq<char>)
    ensures
        skey_has(raw_tpls_abs(v), k) <==> (exists|i: int|
            0 <= i < v.len() && (#[trigger] v[i]).0@ == k),
{
    if skey_has(raw_tpls_abs(v), k) {
        let i = choose|i: int| 0 <= i < raw_tpls_abs(v).len() && raw_tpls_abs(v)[i].0 == k;
        assert(v[i].0@ == k);
    }
    if exists|i: int| 0 <= i < v.len() && (#[trigger] v[i]).0@ == k {
        let i = choose|i: int| 0 <= i < v.len() && (#[trigger] v[i]).0@ == k;
        assert(raw_tpls_abs(v)[i].0 == k);
    }
}

/// The block lines joined with line feeds.
fn join_nl(parts: &Vec<Vec<char>>) -> (r: Vec<char>)
    ensures
        r@ == spec_join_nl(crate::text::seq_views(parts@)),
{
    let ghost pv = crate::text::seq_views(parts@);
    let mut r: Vec<char> = Vec::new();
    let mut i: usize = 0;
    proof {
        assert(pv.take(0) =~= Seq::<Seq<char>>::empty());
    }
    while i < parts.len()
        invariant
            0 <= i <= parts@.len(),
            pv == crate::text::seq_views(parts@),
            r@ == spec_join_nl(pv.take(i as int)),
        decreases parts@.len() - i,
    {
        if i > 0 {
            r.push('\n');
        }
        crate::text::push_all(&mut r, parts[i].as_slice());
        proof {
            assert(pv.take(i + 1).drop_last() =~= pv.take(i as int));
            assert(pv.take(i + 1).last() == pv[i as int]);
            if i == 0 {
                assert(r@ =~= spec_join_nl(pv.take(1)));
            } else {
                assert(r@ =~= spec_join_nl(pv.take(i as int)) + seq!['\n'] + pv[i as int]);
            }
        }
        i = i + 1;
    }
    proof {
        assert(pv.take(parts@.len() as int) =~= pv);
    }
    r
}

/// The current-schema reader's state.
struct V2State {
    base: usize,
    gen: Vec<(String, ServiceAddr)>,
    emb: Vec<(String, ServiceAddr)>,
    tpl: Vec<(String, RawChatTemplate)>,
    section: Section,
    model: Option<String>,
    model_indent: usize,
    bos: Option<String>,
    eos: Option<String>,
    src: Option<String>,
    block: Option<(usize, Vec<Vec<char>>)>,
}

/// The view of an optional string.
pub open spec fn opt_str_abs(o: Option<String>) -> Option<Seq<char>> {
    match o {
        Some(s) => Some(s@),
        None => None,
    }
}

/// The reader state's specification-level form.
spec fn v2_abs(st: &V2State) -> V2Abs {
    V2Abs {
        base: st.base as int,
        gen: entries_abs(st.gen@),
        emb: entries_abs(st.emb@),
        tpl: raw_tpls_abs(st.tpl@),
        section: st.section,
        model: opt_str_abs(st.model),
        model_indent: st.model_indent as int,
        bos: opt_str_abs(st.bos),
        eos: opt_str_abs(st.eos),
        src: opt_str_abs(st.src),
        block: match st.block {
            Some(b) => Some((b.0 as int, crate::text::seq_views(b.1@))),
            None => None,
        },
    }
}

/// Ends an open block scalar.
fn v2_close(st: V2State) -> (r: V2State)
    ensures
        v2_abs(&r) == v2_close_block(v2_abs(&st)),
{
    let ghost st0 = v2_abs(&st);
    let V2State { base, gen, emb, tpl, section, model, model_indent, bos, eos, src, block } = st;
    match block {
        Some(b) => {
            let joined = join_nl(&b.1);
            let r = V2State {
                base,
                gen,
                emb,
                tpl,
                section,
                model,
                model_indent,
                bos,
                eos,
                src: Some(string_from_chars(joined.as_slice())),
                block: None,
            };
            proof {
                assert(v2_abs(&r) =~= v2_close_block(st0));
            }
            r
        },
        None => {
            let r = V2State {
                base,
                gen,
                emb,
                tpl,
                section,
                model,
                model_indent,
                bos,
                eos,
                src,
                block: None,
            };
            proof {
                assert(v2_abs(&r) =~= v2_close_block(st0));
            }
            r
        },
    }
}

/// Completes the pending template.
fn v2_finish(st: V2State) -> (r: Result<V2State, ConfigError>)
    ensures
        match r {
            Ok(st2) => v2_finish_model(v2_abs(&st)) == Ok::<V2Abs, LoadErr>(v2_abs(&st2)),
            Err(e) => v2_finish_model(v2_abs(&st)) == Err::<V2Abs, LoadErr>(err_abs(e)),
        },
{
    let ghost st0 = v2_abs(&st);
    let V2State { base, gen, emb, mut tpl, section, model, model_indent, bos, eos, src, block } = st;
    match model {
        None => {
            let r = V2State {
                base,
                gen,
                emb,
                tpl,
                section,
                model: None,
                model_indent,
                bos,
                eos,
                src,
                block,
            };
            proof {
                assert(v2_abs(&r) =~= st0);
            }
            Ok(r)
        },
        Some(m) => {
            let bos_v = match bos {
                Some(b) => b,
                None => {
                    return Err(ConfigError::IncompleteTemplate(m));
                },
            };
            let eos_v = match eos {
                Some(b) => b,
                None => {
                    return Err(ConfigError::IncompleteTemplate(m));
                },
            };
            let src_v = match src {
                Some(b) => b,
                None => {
                    return Err(ConfigError::IncompleteTemplate(m));
                },
            };
            let mchars = chars_of(m.as_str());
            proof {
                lemma_raw_tpls_key(tpl@, m@);
            }
            if vec_key_has(&tpl, &mchars) {
                return Err(ConfigError::DuplicateKey(m));
            }
            let ghost before = raw_tpls_abs(tpl@);
            tpl.push((m, RawChatTemplate { bos_token: bos_v, eos_token: eos_v, source: src_v }));
            let r = V2State {
                base,
                gen,
                emb,
                tpl,
                section,
                model: None,
                model_indent,
                bos: None,
                eos: None,
                src: None,
                block,
            };
            proof {
                assert(raw_tpls_abs(r.tpl@) =~= before.push(
                    (
                        r.tpl@.last().0@,
                        TplAbs {
                            bos: r.tpl@.last().1.bos_token@,
                            eos: r.tpl@.last().1.eos_token@,
                            source: r.tpl@.last().1.source@,
                        },
                    ),
                ));
                assert(v2_abs(&r) =~= v2_finish_model(st0)->Ok_0);
            }
            Ok(r)
        },
    }
}

/// Reads one contentful line outside any block scalar.
fn v2_step_main(st: V2State, line: &Vec<char>) -> (r: Result<V2State, ConfigError>)
    ensures
        match r {
            Ok(st2) => v2_line_main(v2_abs(&st), line@) == Ok::<V2Abs, LoadErr>(v2_abs(&st2)),
            Err(e) => v2_line_main(v2_abs(&st), line@) == Err::<V2Abs, LoadErr>(err_abs(e)),
        },
{
    let ghost st0 = v2_abs(&st);
    let trimmed = trim_chars(line.as_slice());
    if is_skippable(trimmed.as_slice()) {
        return Ok(st);
    }
    let ind = indent_of(line.as_slice());
    match split_kv(trimmed.as_slice()) {
        None => Err(ConfigError::BadLine(string_from_chars(line.as_slice()))),
        Some(kv) => {
            let k = kv.0;
            let v0 = kv.1;
            if ind == st.base {
                if v0.len() != 0 {
                    return Err(ConfigError::BadLine(string_from_chars(line.as_slice())));
                }
                let is_gen = crate::text::chars_eq_str(k.as_slice(), "generation");
                let is_emb = crate::text::chars_eq_str(k.as_slice(), "embeddings");
                let is_tpl = crate::text::chars_eq_str(k.as_slice(), "chat_templates");
                if !(is_gen || is_emb || is_tpl) {
                    return Err(ConfigError::BadLine(string_from_chars(line.as_slice())));
                }
                let st2 = match v2_finish(st) {
                    Ok(x) => x,
                    Err(e) => {
                        return Err(e);
                    },
                };
                let V2State { base, gen, emb, tpl, section, model, model_indent, bos, eos, src, block } =
                    st2;
                let section2 = if is_gen {
                    Section::Generation
                } else if is_emb {
                    Section::Embeddings
                } else {
                    Section::ChatTemplates
                };
                let r = V2State {
                    base,
                    gen,
                    emb,
                    tpl,
                    section: section2,
                    model,
                    model_indent,
                    bos,
                    eos,
                    src,
                    block,
                };
                proof {
                    assert(v2_abs(&r) =~= v2_line_main(st0, line@)->Ok_0);
                }
                Ok(r)
            } else {
                match st.section {
                    Section::BeforeAny => Err(
                        ConfigError::BadLine(string_from_chars(line.as_slice())),
                    ),
                    Section::Generation => {
                        let v = unquote(v0);
                        if v.len() == 0 {
                            return Err(ConfigError::BadLine(string_from_chars(line.as_slice())));
                        }
                        let has = vec_key_has(&st.gen, &k);
                        proof {
                            lemma_entries_key(st.gen@, k@);
                        }
                        if has {
                            return Err(ConfigError::DuplicateKey(string_from_chars(k.as_slice())));
                        }
                        let addr = match parse_service_addr(v.as_slice()) {
                            Ok(a) => a,
                            Err(e) => {
                                return Err(e);
                            },
                        };
                        let V2State {
                            base,
                            mut gen,
                            emb,
                            tpl,
                            section,
                            model,
                            model_indent,
                            bos,
                            eos,
                            src,
                            block,
                        } = st;
                        let ghost before = entries_abs(gen@);
                        gen.push((string_from_chars(k.as_slice()), addr));
                        let r = V2State {
                            base,
                            gen,
                            emb,
                            tpl,
                            section,
                            model,
                            model_indent,
                            bos,
                            eos,
                            src,
                            block,
                        };
                        proof {
                            assert(entries_abs(r.gen@) =~= before.push(
                                (r.gen@.last().0@, r.gen@.last().1@),
                            ));
                            assert(v2_abs(&r) =~= v2_line_main(st0, line@)->Ok_0);
                        }
                        Ok(r)
                    },
                    Section::Embeddings => {
                        let v = unquote(v0);
                        if v.len() == 0 {
                            return Err(ConfigError::BadLine(string_from_chars(line.as_slice())));
                        }
                        let has = vec_key_has(&st.emb, &k);
                        proof {
                            lemma_entries_key(st.emb@, k@);
                        }
                        if has {
                            return Err(ConfigError::DuplicateKey(string_from_chars(k.as_slice())));
                        }
                        let addr = match parse_service_addr(v.as_slice()) {
                            Ok(a) => a,
                            Err(e) => {
                                return Err(e);
                            },
                        };
                        let V2State {
                            base,
                            gen,
                            mut emb,
                            tpl,
                            section,
                            model,
                            model_indent,
                            bos,
                            eos,
                            src,
                            block,
                        } = st;
                        let ghost before = entries_abs(emb@);
                        emb.push((string_from_chars(k.as_slice()), addr));
                        let r = V2State {
                            base,
                            gen,
                            emb,
                            tpl,
                            section,
                            model,
                            model_indent,
                            bos,
                            eos,
                            src,
                            block,
                        };
                        proof {
                            assert(entries_abs(r.emb@) =~= before.push(
                                (r.emb@.last().0@, r.emb@.last().1@),
                            ));
                            assert(v2_abs(&r) =~= v2_line_main(st0, line@)->Ok_0);
                        }
                        Ok(r)
                    },
                    Section::ChatTemplates => {
                        if st.model.is_none() {
                            if v0.len() != 0 {
                                return Err(
                                    ConfigError::BadLine(string_from_chars(line.as_slice())),
                                );
                            }
                            let V2State {
                                base,
                                gen,
                                emb,
                                tpl,
                                section,
                                model,
                                model_indent,
                                bos,
                                eos,
                                src,
                                block,
                            } = st;
                            let r = V2State {
                                base,
                                gen,
                                emb,
                                tpl,
                                section,
                                model: Some(string_from_chars(k.as_slice())),
                                model_indent: ind,
                                bos,
                                eos,
                                src,
                                block,
                            };
                            proof {
                                assert(v2_abs(&r) =~= v2_line_main(st0, line@)->Ok_0);
                            }
                            Ok(r)
                        } else if ind > st.model_indent {
                            let is_bos = crate::text::chars_eq_str(k.as_slice(), "bos_token");
                            let is_eos = crate::text::chars_eq_str(k.as_slice(), "eos_token");
                            let is_src = crate::text::chars_eq_str(k.as_slice(), "source");
                            if is_bos {
                                let v = unquote(v0);
                                let V2State {
                                    base,
                                    gen,
                                    emb,
                                    tpl,
                                    section,
                                    model,
                                    model_indent,
                                    bos,
                                    eos,
                                    src,
                                    block,
                                } = st;
                                let r = V2State {
                                    base,
                                    gen,
                                    emb,
                                    tpl,
                                    section,
                                    model,
                                    model_indent,
                                    bos: Some(string_from_chars(v.as_slice())),
                                    eos,
                                    src,
                                    block,
                                };
                                proof {
                                    assert(v2_abs(&r) =~= v2_line_main(st0, line@)->Ok_0);
                                }
                                Ok(r)
                            } else if is_eos {
                                let v = unquote(v0);
                                let V2State {
                                    base,
                                    gen,
                                    emb,
                                    tpl,
                                    section,
                                    model,
                                    model_indent,
                                    bos,
                                    eos,
                                    src,
                                    block,
                                } = st;
                                let r = V2State {
                                    base,
                                    gen,
                                    emb,
                                    tpl,
                                    section,
                                    model,
                                    model_indent,
                                    bos,
                                    eos: Some(string_from_chars(v.as_slice())),
                                    src,
                                    block,
                                };
                                proof {
                                    assert(v2_abs(&r) =~= v2_line_main(st0, line@)->Ok_0);
                                }
                                Ok(r)
                            } else if is_src {
                                if crate::text::chars_eq_str(v0.as_slice(), ">-") {
                                    let V2State {
                                        base,
                                        gen,
                                        emb,
                                        tpl,
                                        section,
                                        model,
                                        model_indent,
                                        bos,
                                        eos,
                                        src,
                                        block,
                                    } = st;
                                    let r = V2State {
                                        base,
                                        gen,
                                        emb,
                                        tpl,
                                        section,
                                        model,
                                        model_indent,
                                        bos,
                                        eos,
                                        src: None,
                                        block: Some((ind, Vec::new())),
                                    };
                                    proof {
                                        assert(crate::text::seq_views((r.block->0).1@) =~= Seq::<
                                            Seq<char>,
                                        >::empty());
                                        assert(v2_abs(&r) =~= v2_line_main(st0, line@)->Ok_0);
                                    }
                                    Ok(r)
                                } else {
                                    let v = unquote(v0);
                                    if v.len() > 0 {
                                        let V2State {
                                            base,
                                            gen,
                                            emb,
                                            tpl,
                                            section,
                                            model,
                                            model_indent,
                                            bos,
                                            eos,
                                            src,
                                            block,
                                        } = st;
                                        let r = V2State {
                                            base,
                                            gen,
                                            emb,
                                            tpl,
                                            section,
                                            model,
                                            model_indent,
                                            bos,
                                            eos,
                                            src: Some(string_from_chars(v.as_slice())),
                                            block,
                                        };
                                        proof {
                                            assert(v2_abs(&r) =~= v2_line_main(st0, line@)->Ok_0);
                                        }
                                        Ok(r)
                                    } else {
                                        Err(ConfigError::BadLine(string_from_chars(line.as_slice())))
                                    }
                                }
                            } else {
                                Err(ConfigError::BadLine(string_from_chars(line.as_slice())))
                            }
                        } else {
                            let st2 = match v2_finish(st) {
                                Ok(x) => x,
                                Err(e) => {
                                    return Err(e);
                                },
                            };
                            if v0.len() != 0 {
                                return Err(
                                    ConfigError::BadLine(string_from_chars(line.as_slice())),
                                );
                            }
                            let V2State {
                                base,
                                gen,
                                emb,
                                tpl,
                                section,
                                model,
                                model_indent,
                                bos,
                                eos,
                                src,
                                block,
                            } = st2;
                            let r = V2State {
                                base,
                                gen,
                                emb,
                                tpl,
                                section,
                                model: Some(string_from_chars(k.as_slice())),
                                model_indent: ind,
                                bos,
                                eos,
                                src,
                                block,
                            };
                            proof {
                                assert(v2_abs(&r) =~= v2_line_main(st0, line@)->Ok_0);
                            }
                            Ok(r)
                        }
                    },
                }
            }
        },
    }
}

/// Reads one line.
fn v2_step(st: V2State, line: &Vec<char>) -> (r: Result<V2State, ConfigError>)
    ensures
        match r {
            Ok(st2) => v2_line(v2_abs(&st), line@) == Ok::<V2Abs, LoadErr>(v2_abs(&st2)),
            Err(e) => v2_line(v2_abs(&st), line@) == Err::<V2Abs, LoadErr>(err_abs(e)),
        },
{
    let ghost st0 = v2_abs(&st);
    if st.block.is_some() {
        let trimmed = trim_chars(line.as_slice());
        if trimmed.len() == 0 {
            return Ok(v2_close(st));
        }
        let ind = indent_of(line.as_slice());
        let V2State { base, gen, emb, tpl, section, model, model_indent, bos, eos, src, block } = st;
        let b = match block {
            Some(b) => b,
            None => {
                return Err(ConfigError::BadLine(string_from_chars(line.as_slice())));
            },
        };
        if ind > b.0 {
            let (th, mut ls) = b;
            let ghost lsv = crate::text::seq_views(ls@);
            ls.push(trimmed);
            let r = V2State {
                base,
                gen,
                emb,
                tpl,
                section,
                model,
                model_indent,
                bos,
                eos,
                src,
                block: Some((th, ls)),
            };
            proof {
                assert(crate::text::seq_views((r.block->0).1@) =~= lsv.push(spec_trim(line@)));
                assert(v2_abs(&r) =~= v2_line(st0, line@)->Ok_0);
            }
            Ok(r)
        } else {
            let full = V2State {
                base,
                gen,
                emb,
                tpl,
                section,
                model,
                model_indent,
                bos,
                eos,
                src,
                block: Some(b),
            };
            proof {
                assert(v2_abs(&full) =~= st0);
            }
            let closed = v2_close(full);
            v2_step_main(closed, line)
        }
    } else {
        v2_step_main(st, line)
    }
}

/// Whether the document's lines are in the current schema.
fn detect_current(lines: &Vec<Vec<char>>) -> (r: bool)
    ensures
        r == spec_is_current(crate::text::seq_views(lines@)),
{
    let ghost lv = crate::text::seq_views(lines@);
    let mut i: usize = 0;
    while i < lines.len()
        invariant
            0 <= i <= lines@.len(),
            lv == crate::text::seq_views(lines@),
            spec_first_meaningful(lv, 0) == spec_first_meaningful(lv, i as nat),
        decreases lines@.len() - i,
    {
        let trimmed = trim_chars(lines[i].as_slice());
        if is_skippable(trimmed.as_slice()) {
            i = i + 1;
            continue ;
        }
        proof {
            assert(spec_first_meaningful(lv, i as nat) == i as int);
        }
        match split_kv(trimmed.as_slice()) {
            None => {
                return false;
            },
            Some(kv) => {
                if kv.1.len() != 0 {
                    return false;
                }
                let is_sec = crate::text::chars_eq_str(kv.0.as_slice(), "generation")
                    || crate::text::chars_eq_str(kv.0.as_slice(), "embeddings")
                    || crate::text::chars_eq_str(kv.0.as_slice(), "chat_templates");
                return is_sec;
            },
        }
    }
    proof {
        assert(spec_first_meaningful(lv, i as nat) == -1);
    }
    false
}

/// The document's base indentation.
fn base_indent_of(lines: &Vec<Vec<char>>) -> (r: usize)
    ensures
        r as int == spec_base_indent(crate::text::seq_views(lines@)),
{
    let ghost lv = crate::text::seq_views(lines@);
    let mut i: usize = 0;
    while i < lines.len()
        invariant
            0 <= i <= lines@.len(),
            lv == crate::text::seq_views(lines@),
            spec_first_meaningful(lv, 0) == spec_first_meaningful(lv, i as nat),
        decreases lines@.len() - i,
    {
        let trimmed = trim_chars(lines[i].as_slice());
        if is_skippable(trimmed.as_slice()) {
            i = i + 1;
            continue ;
        }
        proof {
            assert(spec_first_meaningful(lv, i as nat) == i as int);
        }
        return indent_of(lines[i].as_slice());
    }
    proof {
        assert(spec_first_meaningful(lv, i as nat) == -1);
    }
    0
}

/// A legacy model map: one flat mapping from model id to service address,
/// generation models only.
#[derive(Clone, Debug)]
pub struct ModelMapV1(pub Vec<(String, ServiceAddr)>);

/// A current model map: generation and embeddings sub-mappings and the chat
/// templates.
#[derive(Clone, Debug)]
pub struct ModelMapV2 {
    generation: Vec<(String, ServiceAddr)>,
    embeddings: Vec<(String, ServiceAddr)>,
    chat_templates: Vec<(String, ChatTemplate)>,
}

/// A model map in either schema.
#[derive(Clone, Debug)]
pub enum ModelMap {
    V1(ModelMapV1),
    V2(ModelMapV2),
}

impl ModelMap {
    /// The map's specification-level form.
    pub closed spec fn abs(&self) -> MapAbs {
        match self {
            ModelMap::V1(m) => MapAbs::Legacy(entries_abs(m.0@)),
            ModelMap::V2(m) => MapAbs::Current {
                gen: entries_abs(m.generation@),
                emb: entries_abs(m.embeddings@),
                tpl: tpls_abs(m.chat_templates@),
            },
        }
    }

    /// Loads a model map from its document text, selecting the schema from
    /// the document's first contentful line.
    #[verifier::loop_isolation(false)]
    pub fn load_str(s: &str) -> (r: Result<ModelMap, ConfigError>)
        ensures
            match r {
                Ok(m) => spec_load(s@) == Ok::<MapAbs, LoadErr>(m.abs()),
                Err(e) => spec_load(s@) == Err::<MapAbs, LoadErr>(err_abs(e)),
            },
    {
        let cs = chars_of(s);
        let lines = split_lines(cs.as_slice());
        let ghost lv = crate::text::seq_views(lines@);
        proof {
            assert(lv == spec_lines(s@));
        }
        let base = base_indent_of(&lines);
        if detect_current(&lines) {
            let mut st = V2State {
                base,
                gen: Vec::new(),
                emb: Vec::new(),
                tpl: Vec::new(),
                section: Section::BeforeAny,
                model: None,
                model_indent: 0,
                bos: None,
                eos: None,
                src: None,
                block: None,
            };
            proof {
                assert(entries_abs(st.gen@) =~= Seq::<(Seq<char>, (Seq<char>, Option<u16>))>::empty());
                assert(entries_abs(st.emb@) =~= Seq::<(Seq<char>, (Seq<char>, Option<u16>))>::empty());
                assert(raw_tpls_abs(st.tpl@) =~= Seq::<(Seq<char>, TplAbs)>::empty());
                assert(v2_abs(&st) =~= v2_init(base as int));
            }
            let mut i: usize = 0;
            while i < lines.len()
                invariant
                    0 <= i <= lines@.len(),
                    lv == crate::text::seq_views(lines@),
                    spec_parse_current(lv, 0, v2_init(base as int)) == spec_parse_current(
                        lv,
                        i as nat,
                        v2_abs(&st),
                    ),
                decreases lines@.len() - i,
            {
                proof {
                    assert(lv[i as int] == lines@[i as int]@);
                }
                st = match v2_step(st, &lines[i]) {
                    Ok(x) => x,
                    Err(e) => {
                        return Err(e);
                    },
                };
                i = i + 1;
            }
            let ghost pre_close = v2_abs(&st);
            proof {
                assert(spec_parse_current(lv, i as nat, pre_close) == v2_finish_model(
                    v2_close_block(pre_close),
                ));
            }
            let st = v2_close(st);
            let st = match v2_finish(st) {
                Ok(x) => x,
                Err(e) => {
                    return Err(e);
                },
            };
            let V2State { gen, emb, mut tpl, .. } = st;
            let ghost rawv = raw_tpls_abs(tpl@);
            let mut compiled: Vec<(String, ChatTemplate)> = Vec::new();
            let ghost total = rawv.len();
            let mut k: usize = 0;
            let tcount = tpl.len();
            proof {
                assert(total == tcount);
                assert(rawv.take(0) =~= Seq::<(Seq<char>, TplAbs)>::empty());
                assert(tpls_abs(compiled@) =~= Seq::<(Seq<char>, TplAbs)>::empty());
            }
            while tpl.len() > 0
                invariant
                    0 <= k <= total,
                    total <= usize::MAX,
                    raw_tpls_abs(tpl@) == rawv.skip(k as int),
                    rawv.len() == total,
                    spec_compile_templates(rawv.take(k as int)) == Ok::<
                        Seq<(Seq<char>, TplAbs)>,
                        LoadErr,
                    >(tpls_abs(compiled@)),
                decreases tpl@.len(),
            {
                let ghost before_tpl = tpl@;
                let entry = tpl.remove(0);
                proof {
                    assert(entry == before_tpl[0]);
                    assert(raw_tpls_abs(before_tpl).len() == before_tpl.len());
                    assert(k < total);
                    assert(rawv.skip(k as int)[0] == rawv[k as int]);
                    assert(raw_tpls_abs(before_tpl)[0] == rawv.skip(k as int)[0]);
                    assert(raw_tpls_abs(tpl@) =~= raw_tpls_abs(before_tpl).drop_first());
                    assert(raw_tpls_abs(tpl@) =~= rawv.skip(k + 1));
                    assert(rawv[k as int] == (
                        entry.0@,
                        TplAbs {
                            bos: entry.1.bos_token@,
                            eos: entry.1.eos_token@,
                            source: entry.1.source@,
                        },
                    ));
                    assert(rawv.take(k + 1).drop_last() =~= rawv.take(k as int));
                    assert(rawv.take(k + 1).last() == rawv[k as int]);
                }
                let (m, raw) = entry;
                match ChatTemplate::compile(&raw) {
                    Ok(ct) => {
                        let ghost before = tpls_abs(compiled@);
                        compiled.push((m, ct));
                        proof {
                            assert(tpls_abs(compiled@) =~= before.push(
                                (
                                    compiled@.last().0@,
                                    TplAbs {
                                        bos: compiled@.last().1.spec_bos_token(),
                                        eos: compiled@.last().1.spec_eos_token(),
                                        source: compiled@.last().1.spec_source(),
                                    },
                                ),
                            ));
                        }
                    },
                    Err(e) => {
                        proof {
                            lemma_compile_prefix_err(rawv, k + 1);
                        }
                        return Err(ConfigError::TemplateCompile(m, e));
                    },
                }
                k = k + 1;
            }
            proof {
                assert(rawv.skip(k as int).len() == 0);
                assert(rawv.take(k as int) =~= rawv);
            }
            let m = ModelMap::V2(
                ModelMapV2 { generation: gen, embeddings: emb, chat_templates: compiled },
            );
            proof {
                assert(spec_load(s@) == Ok::<MapAbs, LoadErr>(m.abs()));
            }
            Ok(m)
        } else {
            let mut acc: Vec<(String, ServiceAddr)> = Vec::new();
            let mut i: usize = 0;
            proof {
                assert(entries_abs(acc@) =~= Seq::<(Seq<char>, (Seq<char>, Option<u16>))>::empty());
            }
            while i < lines.len()
                invariant
                    0 <= i <= lines@.len(),
                    lv == crate::text::seq_views(lines@),
                    spec_parse_legacy(lv, 0, base as int, Seq::empty()) == spec_parse_legacy(
                        lv,
                        i as nat,
                        base as int,
                        entries_abs(acc@),
                    ),
                decreases lines@.len() - i,
            {
                let line = &lines[i];
                proof {
                    assert(lv[i as int] == lines@[i as int]@);
                }
                let trimmed = trim_chars(line.as_slice());
                if is_skippable(trimmed.as_slice()) {
                    i = i + 1;
                    continue ;
                }
                let ind = indent_of(line.as_slice());
                if ind != base {
                    return Err(ConfigError::BadLine(string_from_chars(line.as_slice())));
                }
                match split_kv(trimmed.as_slice()) {
                    None => {
                        return Err(ConfigError::BadLine(string_from_chars(line.as_slice())));
                    },
                    Some(kv) => {
                        let v = unquote(kv.1);
                        if v.len() == 0 {
                            return Err(ConfigError::BadLine(string_from_chars(line.as_slice())));
                        }
                        let has = vec_key_has(&acc, &kv.0);
                        proof {
                            lemma_entries_key(acc@, kv.0@);
                        }
                        if has {
                            return Err(
                                ConfigError::DuplicateKey(string_from_chars(kv.0.as_slice())),
                            );
                        }
                        let addr = match parse_service_addr(v.as_slice()) {
                            Ok(a) => a,
                            Err(e) => {
                                return Err(e);
                            },
                        };
                        let ghost before = entries_abs(acc@);
                        acc.push((string_from_chars(kv.0.as_slice()), addr));
                        proof {
                            assert(entries_abs(acc@) =~= before.push(
                                (acc@.last().0@, acc@.last().1@),
                            ));
                        }
                    },
                }
                i = i + 1;
            }
            let m = ModelMap::V1(ModelMapV1(acc));
            proof {
                assert(spec_load(s@) == Ok::<MapAbs, LoadErr>(m.abs()));
            }
            Ok(m)
        }
    }
}

impl ModelMap {
    /// The generation sub-mapping's specification-level form: the legacy map
    /// itself, or the current schema's generation section when non-empty.
    pub closed spec fn spec_generation(&self) -> Option<
        Seq<(Seq<char>, (Seq<char>, Option<u16>))>,
    > {
        match self {
            ModelMap::V1(m) => Some(entries_abs(m.0@)),
            ModelMap::V2(m) => if m.generation@.len() == 0 {
                None
            } else {
                Some(entries_abs(m.generation@))
            },
        }
    }

    /// The embeddings sub-mapping's specification-level form: absent for the
    /// legacy schema, and for an empty embeddings section.
    pub closed spec fn spec_embeddings(&self) -> Option<
        Seq<(Seq<char>, (Seq<char>, Option<u16>))>,
    > {
        match self {
            ModelMap::V1(_) => None,
            ModelMap::V2(m) => if m.embeddings@.len() == 0 {
                None
            } else {
                Some(entries_abs(m.embeddings@))
            },
        }
    }

    /// The chat templates' specification-level form: absent for the legacy
    /// schema, which has none.
    pub closed spec fn spec_chat_templates(&self) -> Option<Seq<(Seq<char>, TplAbs)>> {
        match self {
            ModelMap::V1(_) => None,
            ModelMap::V2(m) => Some(tpls_abs(m.chat_templates@)),
        }
    }

    /// The generation sub-mapping, when it has entries.
    pub fn generation(&self) -> (r: Option<&Vec<(String, ServiceAddr)>>)
        ensures
            match r {
                Some(v) => self.spec_generation() == Some(entries_abs(v@)),
                None => self.spec_generation() is None,
            },
    {
        match self {
            ModelMap::V1(m) => Some(&m.0),
            ModelMap::V2(m) => {
                if m.generation.len() == 0 {
                    None
                } else {
                    Some(&m.generation)
                }
            },
        }
    }

    /// The embeddings sub-mapping, when the current schema has entries.
    pub fn embeddings(&self) -> (r: Option<&Vec<(String, ServiceAddr)>>)
        ensures
            match r {
                Some(v) => self.spec_embeddings() == Some(entries_abs(v@)),
                None => self.spec_embeddings() is None,
            },
    {
        match self {
            ModelMap::V1(_) => None,
            ModelMap::V2(m) => {
                if m.embeddings.len() == 0 {
                    None
                } else {
                    Some(&m.embeddings)
                }
            },
        }
    }

    /// The chat templates. The legacy schema defines none, so it has none to
    /// give.
    pub fn chat_templates(&self) -> (r: Option<&Vec<(String, ChatTemplate)>>)
        ensures
            match r {
                Some(v) => self.spec_chat_templates() == Some(tpls_abs(v@)),
                None => self.spec_chat_templates() is None,
            },
    {
        match self {
            ModelMap::V1(_) => None,
            ModelMap::V2(m) => Some(&m.chat_templates),
        }
    }

    /// First-match template lookup at the specification level.
    pub open spec fn tpl_lookup(s: Seq<(Seq<char>, TplAbs)>, id: Seq<char>) -> Option<TplAbs>
        decreases s.len(),
    {
        if s.len() == 0 {
            None
        } else if s[0].0 == id {
            Some(s[0].1)
        } else {
            Self::tpl_lookup(s.drop_first(), id)
        }
    }

    /// The template registered for a model id, if any.
    pub closed spec fn spec_find_chat_template(&self, id: Seq<char>) -> Option<TplAbs> {
        match self {
            ModelMap::V1(_) => None,
            ModelMap::V2(m) => Self::tpl_lookup(tpls_abs(m.chat_templates@), id),
        }
    }

    /// Looks up the chat template for a model id.
    pub fn find_chat_template(&self, id: &str) -> (r: Option<&ChatTemplate>)
        ensures
            match r {
                Some(t) => self.spec_find_chat_template(id@) == Some(
                    TplAbs {
                        bos: t.spec_bos_token(),
                        eos: t.spec_eos_token(),
                        source: t.spec_source(),
                    },
                ),
                None => self.spec_find_chat_template(id@) is None,
            },
    {
        let tpls = match self {
            ModelMap::V1(_) => {
                return None;
            },
            ModelMap::V2(m) => &m.chat_templates,
        };
        let ghost tv = tpls_abs(tpls@);
        let id_string = crate::text::string_from_chars(&chars_of(id));
        let mut i: usize = 0;
        proof {
            assert(tv.skip(0) =~= tv);
        }
        while i < tpls.len()
            invariant
                0 <= i <= tpls@.len(),
                tv == tpls_abs(tpls@),
                id_string@ == id@,
                self is V2,
                self.spec_find_chat_template(id@) == Self::tpl_lookup(tv.skip(i as int), id@),
            decreases tpls@.len() - i,
        {
            proof {
                assert(tv.skip(i as int)[0] == tv[i as int]);
                assert(tv.skip(i as int).drop_first() =~= tv.skip(i + 1));
            }
            if tpls[i].0 == id_string {
                return Some(&tpls[i].1);
            }
            i = i + 1;
        }
        proof {
            assert(tv.skip(i as int) =~= Seq::<(Seq<char>, TplAbs)>::empty());
        }
        None
    }
}

/// The written form of a service address: the hostname, and `:port` when a
/// port is present.
pub open spec fn spec_addr_text(a: (Seq<char>, Option<u16>)) -> Seq<char> {
    match a.1 {
        Some(p) => a.0 + seq![':'] + dec_repr(p as int),
        None => a.0,
    }
}

/// The written form of one legacy entry: `model: address`.
pub open spec fn spec_entry_line(e: (Seq<char>, (Seq<char>, Option<u16>))) -> Seq<char> {
    e.0 + seq![':', ' '] + spec_addr_text(e.1)
}

/// The written form of a legacy map: one entry per line.
pub open spec fn spec_dump_legacy(es: Seq<(Seq<char>, (Seq<char>, Option<u16>))>) -> Seq<char>
    decreases es.len(),
{
    if es.len() == 0 {
        Seq::empty()
    } else {
        spec_dump_legacy(es.drop_last()) + spec_entry_line(es.last()) + seq!['\n']
    }
}

impl ModelMapV1 {
    /// Writes the legacy map as a document that `load_str` reads back.
    pub fn dump(&self) -> (r: String)
        ensures
            r@ == spec_dump_legacy(entries_abs(self.0@)),
    {
        let ghost es = entries_abs(self.0@);
        let mut out: Vec<char> = Vec::new();
        let mut i: usize = 0;
        proof {
            assert(es.take(0) =~= Seq::<(Seq<char>, (Seq<char>, Option<u16>))>::empty());
        }
        while i < self.0.len()
            invariant
                0 <= i <= self.0@.len(),
                es == entries_abs(self.0@),
                out@ == spec_dump_legacy(es.take(i as int)),
            decreases self.0@.len() - i,
        {
            let key_chars = chars_of(self.0[i].0.as_str());
            crate::text::push_all(&mut out, key_chars.as_slice());
            out.push(':');
            out.push(' ');
            let host_chars = chars_of(self.0[i].1.hostname.as_str());
            crate::text::push_all(&mut out, host_chars.as_slice());
            match self.0[i].1.port {
                Some(p) => {
                    out.push(':');
                    let digits = crate::text::u16_to_chars(p);
                    crate::text::push_all(&mut out, digits.as_slice());
                },
                None => {},
            }
            out.push('\n');
            proof {
                assert(es.take(i + 1).drop_last() =~= es.take(i as int));
                assert(es.take(i + 1).last() == es[i as int]);
                assert(es[i as int] == (self.0@[i as int].0@, self.0@[i as int].1@));
                assert(out@ =~= spec_dump_legacy(es.take(i as int)) + spec_entry_line(
                    es[i as int],
                ) + seq!['\n']);
            }
            i = i + 1;
        }
        proof {
            assert(es.take(self.0@.len() as int) =~= es);
        }
        crate::text::string_from_chars(out.as_slice())
    }
}

/// A model id a legacy document can carry faithfully: non-empty, not opening
/// a comment, and free of colons, line feeds and whitespace.
pub open spec fn legacy_key_ok(k: Seq<char>) -> bool {
    &&& k.len() > 0
    &&& k[0] != '#'
    &&& forall|j: int|
        0 <= j < k.len() ==> k[j] != ':' && k[j] != '\n' && !is_space_char(#[trigger] k[j])
}

/// A hostname a legacy document can carry faithfully: non-empty and free of
/// colons, line feeds, double quotes and whitespace.
pub open spec fn legacy_host_ok(h: Seq<char>) -> bool {
    &&& h.len() > 0
    &&& forall|j: int|
        0 <= j < h.len() ==> h[j] != ':' && h[j] != '\n' && h[j] != '"' && !is_space_char(
            #[trigger] h[j],
        )
}

/// A legacy map a document can carry faithfully: distinct model ids, each
/// entry with a faithful id and hostname.
pub open spec fn legacy_wf(es: Seq<(Seq<char>, (Seq<char>, Option<u16>))>) -> bool {
    &&& skeys_distinct(es)
    &&& forall|i: int|
        0 <= i < es.len() ==> legacy_key_ok((#[trigger] es[i]).0) && legacy_host_ok(es[i].1.0)
}

/// A failed template in any prefix fails the whole compile pass with the same
/// refusal.
proof fn lemma_compile_prefix_err(s: Seq<(Seq<char>, TplAbs)>, k: int)
    requires
        0 <= k <= s.len(),
        spec_compile_templates(s.take(k)) is Err,
    ensures
        spec_compile_templates(s) == spec_compile_templates(s.take(k)),
    decreases s.len() - k,
{
    if k == s.len() {
        assert(s.take(k) =~= s);
    } else {
        assert(s.take(k + 1).drop_last() =~= s.take(k));
        lemma_compile_prefix_err(s, k + 1);
    }
}

/// A sequence without `c` is one `spec_find` does not find in.
proof fn lemma_no_char_find(s: Seq<char>, c: char)
    requires
        forall|j: int| 0 <= j < s.len() ==> s[j] != c,
    ensures
        spec_find(s, c) == -1,
{
    lemma_find_bounds(s, c);
    if spec_find(s, c) >= 0 {
        assert(s[spec_find(s, c)] == c);
    }
}

/// A sequence whose ends are not whitespace is its own trim.
proof fn lemma_trim_stable(s: Seq<char>)
    requires
        s.len() > 0,
        !is_space_char(s[0]),
        !is_space_char(s.last()),
    ensures
        spec_trim(s) == s,
{
    crate::text::lemma_trim_start_skip(s, 0);
    assert(s.skip(0) =~= s);
    crate::text::lemma_trim_end_take(s, s.len() as int);
    assert(s.take(s.len() as int) =~= s);
}

/// The key/value separator of a colon-free key followed by `: ` is at the
/// key's end.
proof fn lemma_kv_sep_at(key: Seq<char>, tail: Seq<char>)
    requires
        forall|j: int| 0 <= j < key.len() ==> key[j] != ':',
    ensures
        spec_kv_sep(key + seq![':', ' '] + tail) == key.len(),
    decreases key.len(),
{
    let s = key + seq![':', ' '] + tail;
    if key.len() == 0 {
        assert(s[0] == ':');
        assert(s[1] == ' ');
    } else {
        assert(s[0] == key[0]);
        assert(s[0] != ':');
        assert(s.drop_first() =~= key.drop_first() + seq![':', ' '] + tail);
        lemma_kv_sep_at(key.drop_first(), tail);
    }
}

/// Every character of a well-formed entry's written address: no line feed, no
/// whitespace, no double quote at the ends, and non-empty.
proof fn lemma_addr_text_chars(a: (Seq<char>, Option<u16>))
    requires
        legacy_host_ok(a.0),
    ensures
        spec_addr_text(a).len() > 0,
        forall|j: int|
            0 <= j < spec_addr_text(a).len() ==> #[trigger] spec_addr_text(a)[j] != '\n'
                && !is_space_char(spec_addr_text(a)[j]),
        spec_addr_text(a)[0] == a.0[0],
        a.1 is Some ==> crate::text::is_digit_char(spec_addr_text(a).last()),
        a.1 is None ==> spec_addr_text(a).last() == a.0.last(),
        spec_parse_addr(spec_addr_text(a)) == Ok::<(Seq<char>, Option<u16>), LoadErr>(a),
{
    let t = spec_addr_text(a);
    match a.1 {
        None => {
            lemma_no_char_find(t, ':');
        },
        Some(p) => {
            crate::text::lemma_dec_repr_val(p as int);
            let digits = dec_repr(p as int);
            assert forall|j: int| 0 <= j < t.len() implies #[trigger] t[j] != '\n'
                && !is_space_char(t[j]) by {
                if j < a.0.len() {
                    assert(t[j] == a.0[j]);
                } else if j == a.0.len() {
                    assert(t[j] == ':');
                } else {
                    assert(t[j] == digits[j - a.0.len() - 1]);
                    assert(crate::text::is_digit_char(digits[j - a.0.len() - 1]));
                }
            }
            assert(t.last() == digits.last());
            assert(crate::text::is_digit_char(digits.last()));
            lemma_no_char_find(a.0, ':');
            lemma_find_concat(a.0, ':', digits);
            assert(t =~= a.0 + seq![':'] + digits);
            assert(spec_find(t, ':') == a.0.len());
            assert(t.skip(a.0.len() as int + 1) =~= digits);
            assert forall|j: int| 0 <= j < digits.len() implies #[trigger] digits[j] != ':' by {
                assert(crate::text::is_digit_char(digits[j]));
            }
            lemma_no_char_find(digits, ':');
            assert(spec_parse_u16(digits) == Some(p));
            assert(t.take(a.0.len() as int) =~= a.0);
        },
    }
}


/// How one well-formed entry's written line reads back: not skippable, not
/// indented, splitting into exactly the entry's id and address.
proof fn lemma_entry_line(e: (Seq<char>, (Seq<char>, Option<u16>)))
    requires
        legacy_key_ok(e.0),
        legacy_host_ok(e.1.0),
    ensures
        forall|j: int| 0 <= j < spec_entry_line(e).len() ==> #[trigger] spec_entry_line(e)[j] != '\n',
        !spec_skippable(spec_entry_line(e)),
        spec_indent(spec_entry_line(e)) == 0,
        spec_split_kv(spec_trim(spec_entry_line(e))) == Some((e.0, spec_addr_text(e.1))),
        spec_unquote(spec_addr_text(e.1)) == spec_addr_text(e.1),
        spec_addr_text(e.1).len() > 0,
        spec_parse_addr(spec_addr_text(e.1)) == Ok::<(Seq<char>, Option<u16>), LoadErr>(e.1),
{
    let l = spec_entry_line(e);
    let a = spec_addr_text(e.1);
    lemma_addr_text_chars(e.1);
    assert forall|j: int| 0 <= j < l.len() implies #[trigger] l[j] != '\n' by {
        if j < e.0.len() {
            assert(l[j] == e.0[j]);
        } else if j == e.0.len() {
            assert(l[j] == ':');
        } else if j == e.0.len() + 1 {
            assert(l[j] == ' ');
        } else {
            assert(l[j] == a[j - e.0.len() - 2]);
        }
    }
    assert(l[0] == e.0[0]);
    assert(l.last() == a.last());
    assert(!is_space_char(l[0]));
    assert(!is_space_char(l.last())) by {
        if e.1.1 is Some {
            assert(crate::text::is_digit_char(a.last()));
        } else {
            assert(a.last() == e.1.0.last());
        }
    }
    lemma_trim_stable(l);
    assert(spec_trim(l)[0] == e.0[0]);
    assert(!spec_skippable(l));
    assert(spec_indent(l) == 0) by {
        lemma_indent_bound(l);
        if spec_indent(l) > 0 {
            assert(l[0] == ' ');
        }
    }
    lemma_kv_sep_at(e.0, a);
    assert(l =~= e.0 + seq![':', ' '] + a);
    assert(spec_kv_sep(l) == e.0.len());
    assert(l.take(e.0.len() as int) =~= e.0);
    lemma_trim_stable(e.0);
    assert(l.skip(e.0.len() as int + 1) =~= seq![' '] + a);
    assert((seq![' '] + a)[0] == ' ');
    assert((seq![' '] + a)[1] == a[0]);
    crate::text::lemma_trim_start_skip(seq![' '] + a, 1);
    assert((seq![' '] + a).skip(1) =~= a);
    crate::text::lemma_trim_end_take(a, a.len() as int);
    assert(a.take(a.len() as int) =~= a);
    assert(spec_trim(l.skip(e.0.len() as int + 1)) == a);
    assert(spec_unquote(a) == a) by {
        if a.len() >= 2 && a[0] == '"' && a.last() == '"' {
            if e.1.1 is Some {
                assert(crate::text::is_digit_char(a.last()));
            } else {
                assert(a.last() == e.1.0.last());
            }
        }
    }
}

/// The written lines of a legacy map, entry by entry, with the final empty
/// line a trailing line feed leaves.
pub open spec fn spec_legacy_lines(es: Seq<(Seq<char>, (Seq<char>, Option<u16>))>) -> Seq<
    Seq<char>,
>
    decreases es.len(),
{
    if es.len() == 0 {
        seq![Seq::<char>::empty()]
    } else {
        seq![spec_entry_line(es[0])] + spec_legacy_lines(es.drop_first())
    }
}

/// The written form unfolds from the front.
proof fn lemma_dump_front(es: Seq<(Seq<char>, (Seq<char>, Option<u16>))>)
    requires
        es.len() > 0,
    ensures
        spec_dump_legacy(es) == spec_entry_line(es[0]) + seq!['\n'] + spec_dump_legacy(
            es.drop_first(),
        ),
    decreases es.len(),
{
    if es.len() == 1 {
        assert(es.drop_last() =~= Seq::<(Seq<char>, (Seq<char>, Option<u16>))>::empty());
        assert(es.drop_first() =~= Seq::<(Seq<char>, (Seq<char>, Option<u16>))>::empty());
        assert(es.last() == es[0]);
        assert(spec_dump_legacy(es) =~= spec_entry_line(es[0]) + seq!['\n'] + spec_dump_legacy(
            es.drop_first(),
        ));
    } else {
        lemma_dump_front(es.drop_last());
        assert(es.drop_last().drop_first() =~= es.drop_first().drop_last());
        assert(es.drop_last()[0] == es[0]);
        assert(es.drop_first().last() == es.last());
        assert(spec_dump_legacy(es) == spec_dump_legacy(es.drop_last()) + spec_entry_line(
            es.last(),
        ) + seq!['\n']);
        assert(spec_dump_legacy(es.drop_first()) == spec_dump_legacy(es.drop_first().drop_last())
            + spec_entry_line(es.drop_first().last()) + seq!['\n']);
        assert(spec_dump_legacy(es) =~= spec_entry_line(es[0]) + seq!['\n'] + spec_dump_legacy(
            es.drop_first(),
        ));
    }
}

/// The written form splits back into the written lines.
proof fn lemma_dump_lines(es: Seq<(Seq<char>, (Seq<char>, Option<u16>))>)
    requires
        legacy_wf(es),
    ensures
        spec_lines(spec_dump_legacy(es)) == spec_legacy_lines(es),
    decreases es.len(),
{
    if es.len() == 0 {
        assert(spec_find(Seq::<char>::empty(), '\n') == -1);
        assert(spec_lines(spec_dump_legacy(es)) =~= spec_legacy_lines(es));
    } else {
        lemma_dump_front(es);
        lemma_entry_line(es[0]);
        lemma_no_char_find(spec_entry_line(es[0]), '\n');
        crate::text::lemma_lines_prefix(spec_entry_line(es[0]), spec_dump_legacy(es.drop_first()));
        assert(legacy_wf(es.drop_first())) by {
            assert forall|i: int| 0 <= i < es.drop_first().len() implies legacy_key_ok(
                (#[trigger] es.drop_first()[i]).0,
            ) && legacy_host_ok(es.drop_first()[i].1.0) by {
                assert(es.drop_first()[i] == es[i + 1]);
            }
        }
        lemma_dump_lines(es.drop_first());
        assert(spec_lines(spec_dump_legacy(es)) =~= spec_legacy_lines(es));
    }
}

/// Reading the written lines back, entry by entry, extends what was already
/// read.
proof fn lemma_parse_legacy_lines(
    lines: Seq<Seq<char>>,
    i: nat,
    acc: Seq<(Seq<char>, (Seq<char>, Option<u16>))>,
    es: Seq<(Seq<char>, (Seq<char>, Option<u16>))>,
)
    requires
        0 <= i <= lines.len(),
        lines.skip(i as int) == spec_legacy_lines(es),
        legacy_wf(acc + es),
    ensures
        spec_parse_legacy(lines, i, 0, acc) == Ok::<
            Seq<(Seq<char>, (Seq<char>, Option<u16>))>,
            LoadErr,
        >(acc + es),
    decreases es.len(),
{
    assert(lines.skip(i as int).len() == lines.len() - i);
    if es.len() == 0 {
        assert(lines.skip(i as int).len() == 1);
        assert(i + 1 == lines.len());
        let line = lines[i as int];
        assert(line == lines.skip(i as int)[0]);
        assert(line =~= Seq::<char>::empty());
        assert(spec_trim(line) =~= Seq::<char>::empty());
        assert(spec_skippable(line));
        assert(spec_parse_legacy(lines, i, 0, acc) == spec_parse_legacy(lines, i + 1, 0, acc));
        assert(acc + es =~= acc);
    } else {
        let e = es[0];
        assert(legacy_key_ok(e.0) && legacy_host_ok(e.1.0)) by {
            assert((acc + es)[acc.len() as int] == e);
        }
        lemma_entry_line(e);
        let line = lines[i as int];
        assert(line == lines.skip(i as int)[0]);
        assert(line == spec_legacy_lines(es)[0]);
        assert(line == spec_entry_line(e));
        assert(!skey_has(acc, e.0)) by {
            if skey_has(acc, e.0) {
                let w = choose|w: int| 0 <= w < acc.len() && acc[w].0 == e.0;
                assert((acc + es)[w] == acc[w]);
                assert((acc + es)[acc.len() as int] == e);
            }
        }
        assert(i < lines.len());
        assert(spec_parse_legacy(lines, i, 0, acc) == spec_parse_legacy(
            lines,
            i + 1,
            0,
            acc.push(e),
        ));
        assert(lines.skip(i as int + 1) =~= spec_legacy_lines(es).drop_first());
        assert(spec_legacy_lines(es).drop_first() =~= spec_legacy_lines(es.drop_first()));
        assert(legacy_wf(acc.push(e) + es.drop_first())) by {
            assert(acc.push(e) + es.drop_first() =~= acc + es);
        }
        lemma_parse_legacy_lines(lines, i + 1, acc.push(e), es.drop_first());
        assert(acc.push(e) + es.drop_first() =~= acc + es);
    }
}

/// The law of the legacy schema: writing a well-formed legacy map and loading
/// the written text reads back exactly the same map, entry for entry, in
/// order.
pub proof fn lemma_legacy_round_trip(es: Seq<(Seq<char>, (Seq<char>, Option<u16>))>)
    requires
        legacy_wf(es),
    ensures
        spec_load(spec_dump_legacy(es)) == Ok::<MapAbs, LoadErr>(MapAbs::Legacy(es)),
{
    lemma_dump_lines(es);
    let lines = spec_lines(spec_dump_legacy(es));
    assert(!spec_is_current(lines)) by {
        if es.len() == 0 {
            assert(lines[0] =~= Seq::<char>::empty());
            assert(spec_trim(lines[0]) =~= Seq::<char>::empty());
            assert(spec_skippable(lines[0]));
            assert(spec_first_meaningful(lines, 0) == spec_first_meaningful(lines, 1));
            assert(spec_first_meaningful(lines, 1) == -1);
        } else {
            lemma_entry_line(es[0]);
            assert(lines[0] == spec_entry_line(es[0]));
            assert(spec_first_meaningful(lines, 0) == 0);
            assert(spec_addr_text(es[0].1).len() > 0);
        }
    }
    assert(spec_base_indent(lines) == 0) by {
        if es.len() == 0 {
            assert(lines[0] =~= Seq::<char>::empty());
            assert(spec_trim(lines[0]) =~= Seq::<char>::empty());
            assert(spec_skippable(lines[0]));
            assert(spec_first_meaningful(lines, 0) == spec_first_meaningful(lines, 1));
            assert(spec_first_meaningful(lines, 1) == -1);
        } else {
            lemma_entry_line(es[0]);
            assert(lines[0] == spec_entry_line(es[0]));
            assert(spec_first_meaningful(lines, 0) == 0);
        }
    }
    assert(lines.skip(0) =~= spec_legacy_lines(es));
    assert(legacy_wf(Seq::empty() + es)) by {
        assert(Seq::empty() + es =~= es);
    }
    lemma_parse_legacy_lines(lines, 0, Seq::empty(), es);
    assert(Seq::empty() + es =~= es);
}

} // verus!

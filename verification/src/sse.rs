//! The stream synthesizer: presenting one complete, buffered upstream
//! response as a sequence of server-sent-event frames.
//!
//! A chat completion whose first choice carries a string
//! `message.content` is split into whitespace-delimited words, each word
//! emitted as one delta frame, followed by one terminal frame and the
//! `[DONE]` sentinel.  Anything else degrades gracefully: an unexpected
//! shape is emitted verbatim as a single frame, and even an unreadable
//! body still produces the sentinel so the client's stream terminates
//! cleanly.

use crate::json::choice_field_text_of;
use crate::json::choices_len_of;
use crate::json::content_of;
use crate::json::doc_text_of;
use crate::json::field_text_of;
use crate::json::first_choice_text_of;
use crate::json::json_parses;
use crate::json::opt_text;
use vstd::prelude::*;
use vstd::string::*;
use vstd::utf8::decode_utf8;
use vstd::utf8::valid_utf8;

verus! {

/// White space as the word splitter sees it: the Unicode white-space set.
pub open spec fn is_space(c: char) -> bool {
    ||| c as u32 == 0x09
    ||| c as u32 == 0x0A
    ||| c as u32 == 0x0B
    ||| c as u32 == 0x0C
    ||| c as u32 == 0x0D
    ||| c as u32 == 0x20
    ||| c as u32 == 0x85
    ||| c as u32 == 0xA0
    ||| c as u32 == 0x1680
    ||| (0x2000 <= c as u32 && c as u32 <= 0x200A)
    ||| c as u32 == 0x2028
    ||| c as u32 == 0x2029
    ||| c as u32 == 0x202F
    ||| c as u32 == 0x205F
    ||| c as u32 == 0x3000
}

/// Decide [`is_space`].
pub fn is_space_char(c: char) -> (r: bool)
    ensures
        r == is_space(c),
{
    let u = c as u32;
    u == 0x09 || u == 0x0A || u == 0x0B || u == 0x0C || u == 0x0D || u == 0x20 || u == 0x85 || u
        == 0xA0 || u == 0x1680 || (0x2000 <= u && u <= 0x200A) || u == 0x2028 || u == 0x2029 || u
        == 0x202F || u == 0x205F || u == 0x3000
}

/// The length of the maximal non-space prefix of `s`.
pub open spec fn word_len(s: Seq<char>) -> nat
    decreases s.len(),
{
    if s.len() == 0 || is_space(s[0]) {
        0
    } else {
        1 + word_len(s.skip(1))
    }
}

/// [`word_len`] is a position in `s`, everything before it is non-space,
/// and it is either the end of `s` or a space.
pub proof fn lemma_word_len(s: Seq<char>)
    ensures
        word_len(s) <= s.len(),
        forall|i: int| 0 <= i < word_len(s) ==> !is_space(s[i]),
        word_len(s) < s.len() ==> is_space(s[word_len(s) as int]),
    decreases s.len(),
{
    if s.len() > 0 && !is_space(s[0]) {
        lemma_word_len(s.skip(1));
        assert forall|i: int| 0 <= i < word_len(s) implies !is_space(s[i]) by {
            if i > 0 {
                assert(s.skip(1)[i - 1] == s[i]);
            }
        }
        if word_len(s) < s.len() {
            assert(s.skip(1)[word_len(s) as int - 1] == s[word_len(s) as int]);
        }
    }
}

/// A position `k` with only non-space before it and a space (or the end)
/// at it is exactly [`word_len`].
proof fn lemma_word_len_at(s: Seq<char>, k: int)
    requires
        0 <= k <= s.len(),
        forall|i: int| 0 <= i < k ==> !is_space(#[trigger] s[i]),
        k < s.len() ==> is_space(s[k]),
    ensures
        word_len(s) == k,
    decreases k,
{
    if k == 0 {
    } else {
        assert forall|i: int| 0 <= i < k - 1 implies !is_space(#[trigger] s.skip(1)[i]) by {
            assert(s.skip(1)[i] == s[i + 1]);
        }
        if k - 1 < s.skip(1).len() {
            assert(s.skip(1)[k - 1] == s[k]);
        }
        lemma_word_len_at(s.skip(1), k - 1);
    }
}

/// The whitespace-delimited words of `s`, in order.  Splitting keeps no
/// white space: word boundaries only.
pub open spec fn spec_words(s: Seq<char>) -> Seq<Seq<char>>
    decreases s.len(),
    via spec_words_decreases
{
    if s.len() == 0 {
        Seq::empty()
    } else if is_space(s[0]) {
        spec_words(s.skip(1))
    } else {
        seq![s.take(word_len(s) as int)] + spec_words(s.skip(word_len(s) as int))
    }
}

#[via_fn]
proof fn spec_words_decreases(s: Seq<char>) {
    lemma_word_len(s);
}

/// Split `s` into its whitespace-delimited words.
pub fn split_words(s: &str) -> (words: Vec<String>)
    ensures
        words@.len() == spec_words(s@).len(),
        forall|i: int| 0 <= i < words@.len() ==> (#[trigger] words@[i])@ == spec_words(s@)[i],
{
    let len = s.unicode_len();
    let mut words: Vec<String> = Vec::new();
    let mut i: usize = 0;
    proof {
        assert(s@.skip(0) =~= s@);
        assert(Seq::<String>::empty().map_values(|w: String| w@) =~= Seq::<Seq<char>>::empty());
        assert(Seq::<Seq<char>>::empty() + spec_words(s@) =~= spec_words(s@));
    }
    while i < len
        invariant
            len == s@.len(),
            i <= len,
            spec_words(s@) == words@.map_values(|w: String| w@) + spec_words(s@.skip(i as int)),
        decreases len - i,
    {
        let c = s.get_char(i);
        if is_space_char(c) {
            proof {
                assert(s@.skip(i as int)[0] == s@[i as int]);
                assert(s@.skip(i as int).skip(1) =~= s@.skip(i as int + 1));
            }
            i = i + 1;
        } else {
            let mut j = i + 1;
            while j < len && !is_space_char(s.get_char(j))
                invariant
                    len == s@.len(),
                    i < j <= len,
                    forall|m: int| i <= m < j ==> !is_space(#[trigger] s@[m]),
                decreases len - j,
            {
                j = j + 1;
            }
            let w = String::from_str(s.substring_char(i, j));
            proof {
                let rest = s@.skip(i as int);
                assert forall|m: int| 0 <= m < j - i implies !is_space(#[trigger] rest[m]) by {
                    assert(rest[m] == s@[i + m]);
                }
                if j < len {
                    assert(rest[j - i] == s@[j as int]);
                }
                lemma_word_len_at(rest, j - i);
                assert(rest.take(j - i) =~= s@.subrange(i as int, j as int));
                assert(rest.skip(j - i) =~= s@.skip(j as int));
                assert((words@ + seq![w]).map_values(|x: String| x@) =~= words@.map_values(
                    |x: String| x@,
                ) + seq![w@]);
            }
            words.push(w);
            i = j;
        }
    }
    proof {
        assert(s@.skip(len as int) =~= Seq::<char>::empty());
        assert(spec_words(s@) =~= words@.map_values(|w: String| w@));
    }
    words
}

/// The character spelling a hexadecimal digit.
pub open spec fn hex_digit(d: u32) -> Seq<char> {
    if d == 0 {
        "0"@
    } else if d == 1 {
        "1"@
    } else if d == 2 {
        "2"@
    } else if d == 3 {
        "3"@
    } else if d == 4 {
        "4"@
    } else if d == 5 {
        "5"@
    } else if d == 6 {
        "6"@
    } else if d == 7 {
        "7"@
    } else if d == 8 {
        "8"@
    } else if d == 9 {
        "9"@
    } else if d == 10 {
        "a"@
    } else if d == 11 {
        "b"@
    } else if d == 12 {
        "c"@
    } else if d == 13 {
        "d"@
    } else if d == 14 {
        "e"@
    } else {
        "f"@
    }
}

fn hex_digit_str(d: u32) -> (r: &'static str)
    requires
        d < 16,
    ensures
        r@ == hex_digit(d),
{
    match d {
        0 => "0",
        1 => "1",
        2 => "2",
        3 => "3",
        4 => "4",
        5 => "5",
        6 => "6",
        7 => "7",
        8 => "8",
        9 => "9",
        10 => "a",
        11 => "b",
        12 => "c",
        13 => "d",
        14 => "e",
        _ => "f",
    }
}

/// The escape of one character inside a JSON string literal: the quote,
/// the backslash and the named control characters get their short escapes,
/// other control characters a `\u00..` escape, and everything else stands
/// for itself.
pub open spec fn esc_char(c: char) -> Seq<char> {
    if c == '"' {
        "\\\""@
    } else if c == '\\' {
        "\\\\"@
    } else if c as u32 == 0x08 {
        "\\b"@
    } else if c as u32 == 0x09 {
        "\\t"@
    } else if c as u32 == 0x0A {
        "\\n"@
    } else if c as u32 == 0x0C {
        "\\f"@
    } else if c as u32 == 0x0D {
        "\\r"@
    } else if (c as u32) < 0x20 {
        "\\u00"@ + hex_digit(c as u32 / 16) + hex_digit(c as u32 % 16)
    } else {
        seq![c]
    }
}

/// The escaped body of a JSON string literal spelling `s`.
pub open spec fn esc_body(s: Seq<char>) -> Seq<char>
    decreases s.len(),
{
    if s.len() == 0 {
        Seq::empty()
    } else {
        esc_char(s[0]) + esc_body(s.skip(1))
    }
}

/// The JSON string literal spelling `s`: quoted and escaped.
pub open spec fn json_quoted(s: Seq<char>) -> Seq<char> {
    "\""@ + esc_body(s) + "\""@
}

proof fn lemma_esc_body_snoc(s: Seq<char>, c: char)
    ensures
        esc_body(s.push(c)) == esc_body(s) + esc_char(c),
    decreases s.len(),
{
    if s.len() == 0 {
        assert(s.push(c)[0] == c);
        assert(s.push(c).skip(1) =~= Seq::<char>::empty());
        assert(esc_body(Seq::<char>::empty()) == Seq::<char>::empty());
        assert(esc_body(s.push(c)) == esc_char(c) + Seq::<char>::empty());
        assert(esc_body(s.push(c)) =~= esc_body(s) + esc_char(c));
    } else {
        assert(s.push(c)[0] == s[0]);
        assert(s.push(c).skip(1) =~= s.skip(1).push(c));
        lemma_esc_body_snoc(s.skip(1), c);
        assert(esc_body(s.push(c)) == esc_char(s[0]) + esc_body(s.skip(1).push(c)));
        assert(esc_body(s.push(c)) =~= esc_body(s) + esc_char(c));
    }
}

/// Spell `s` as a JSON string literal, escaping what JSON requires.
pub fn json_quote(s: &str) -> (r: String)
    ensures
        r@ == json_quoted(s@),
{
    let len = s.unicode_len();
    let mut out = String::from_str("\"");
    let mut i: usize = 0;
    proof {
        assert(s@.take(0) =~= Seq::<char>::empty());
    }
    while i < len
        invariant
            len == s@.len(),
            i <= len,
            out@ == "\""@ + esc_body(s@.take(i as int)),
        decreases len - i,
    {
        let c = s.get_char(i);
        let u = c as u32;
        if c == '"' {
            out.append("\\\"");
        } else if c == '\\' {
            out.append("\\\\");
        } else if u == 0x08 {
            out.append("\\b");
        } else if u == 0x09 {
            out.append("\\t");
        } else if u == 0x0A {
            out.append("\\n");
        } else if u == 0x0C {
            out.append("\\f");
        } else if u == 0x0D {
            out.append("\\r");
        } else if u < 0x20 {
            out.append("\\u00");
            out.append(hex_digit_str(u / 16));
            out.append(hex_digit_str(u % 16));
        } else {
            out.append(s.substring_char(i, i + 1));
            proof {
                assert(s@.subrange(i as int, i as int + 1) =~= seq![s@[i as int]]);
            }
        }
        proof {
            lemma_esc_body_snoc(s@.take(i as int), s@[i as int]);
            assert(s@.take(i as int).push(s@[i as int]) =~= s@.take(i as int + 1));
        }
        i = i + 1;
    }
    proof {
        assert(s@.take(len as int) =~= s@);
    }
    out.append("\"");
    out
}

/// What the synthesizer found in the buffered upstream response.  The
/// metadata fields hold JSON text taken verbatim from the source document
/// (or the source's defaults), so a frame can embed them unchanged.
pub enum SsePlan {
    /// A chat completion whose first choice carries a string
    /// `message.content`: the content is split into words and each word
    /// becomes one delta frame, followed by a terminal frame with the
    /// first choice's `finish_reason` (default `"stop"`) and the
    /// document's `usage` when present.
    Chat {
        id: String,
        created: String,
        model: String,
        content: String,
        finish_reason: String,
        usage: Option<String>,
    },
    /// `choices` has a first element without a string `message.content`:
    /// that element is emitted verbatim inside one chunk envelope.
    ChoiceVerbatim { id: String, created: String, model: String, choice: String },
    /// `choices` exists but is empty: nothing but the sentinel.
    EmptyChoices,
    /// A JSON document without a `choices` array: emitted whole as one
    /// frame.
    Opaque { doc: String },
    /// Not JSON, but valid text: emitted verbatim as one frame.
    Text { text: String },
    /// Neither JSON nor text: nothing but the sentinel.
    Binary,
}

/// One event-stream frame: a fixed prefix, the payload, and a blank line.
pub open spec fn sse_frame(payload: Seq<char>) -> Seq<char> {
    "data: "@ + payload + "\n\n"@
}

/// The sentinel frame marking the end of a synthesized stream.
pub open spec fn sse_done() -> Seq<char> {
    "data: [DONE]\n\n"@
}

/// The chunk carrying one incremental content word.
pub open spec fn delta_chunk(
    id: Seq<char>,
    created: Seq<char>,
    model: Seq<char>,
    word: Seq<char>,
) -> Seq<char> {
    "{\"choices\":[{\"delta\":{\"content\":"@ + json_quoted(word)
        + "},\"finish_reason\":null,\"index\":0}],\"created\":"@ + created + ",\"id\":"@ + id
        + ",\"model\":"@ + model + ",\"object\":\"chat.completion.chunk\"}"@
}

/// The terminal chunk: an empty delta, the original finish reason, and the
/// usage object when the source had one.
pub open spec fn final_chunk(
    id: Seq<char>,
    created: Seq<char>,
    model: Seq<char>,
    finish_reason: Seq<char>,
    usage: Option<Seq<char>>,
) -> Seq<char> {
    "{\"choices\":[{\"delta\":{},\"finish_reason\":"@ + finish_reason + ",\"index\":0}],\"created\":"@
        + created + ",\"id\":"@ + id + ",\"model\":"@ + model
        + ",\"object\":\"chat.completion.chunk\""@ + (match usage {
        Some(u) => ",\"usage\":"@ + u,
        None => Seq::<char>::empty(),
    }) + "}"@
}

/// The chunk embedding a first choice that could not be word-split.
pub open spec fn verbatim_chunk(
    id: Seq<char>,
    created: Seq<char>,
    model: Seq<char>,
    choice: Seq<char>,
) -> Seq<char> {
    "{\"choices\":["@ + choice + "],\"created\":"@ + created + ",\"id\":"@ + id + ",\"model\":"@
        + model + ",\"object\":\"chat.completion.chunk\"}"@
}

/// Word `i` as it is delivered: every word but the last carries a single
/// trailing separating space.
pub open spec fn word_payload(words: Seq<Seq<char>>, i: int) -> Seq<char> {
    if i < words.len() - 1 {
        words[i] + " "@
    } else {
        words[i]
    }
}

/// The mathematical shape of a plan: the same variants as [`SsePlan`]
/// over character sequences.  [`plan_view_of`] computes the one that a
/// given upstream body classifies to.
pub enum SsePlanView {
    Chat {
        id: Seq<char>,
        created: Seq<char>,
        model: Seq<char>,
        content: Seq<char>,
        finish_reason: Seq<char>,
        usage: Option<Seq<char>>,
    },
    ChoiceVerbatim { id: Seq<char>, created: Seq<char>, model: Seq<char>, choice: Seq<char> },
    EmptyChoices,
    Opaque { doc: Seq<char> },
    Text { text: Seq<char> },
    Binary,
}

impl View for SsePlan {
    type V = SsePlanView;

    open spec fn view(&self) -> SsePlanView {
        match *self {
            SsePlan::Chat { id, created, model, content, finish_reason, usage } => SsePlanView::Chat {
                id: id@,
                created: created@,
                model: model@,
                content: content@,
                finish_reason: finish_reason@,
                usage: opt_text(usage),
            },
            SsePlan::ChoiceVerbatim { id, created, model, choice } => SsePlanView::ChoiceVerbatim {
                id: id@,
                created: created@,
                model: model@,
                choice: choice@,
            },
            SsePlan::EmptyChoices => SsePlanView::EmptyChoices,
            SsePlan::Opaque { doc } => SsePlanView::Opaque { doc: doc@ },
            SsePlan::Text { text } => SsePlanView::Text { text: text@ },
            SsePlan::Binary => SsePlanView::Binary,
        }
    }
}

/// A top-level metadata field as the chunks embed it: its JSON text, or
/// the given default when the document lacks it.
pub open spec fn field_text_or(
    bytes: Seq<u8>,
    key: Seq<char>,
    default: Seq<char>,
) -> Seq<char> {
    match field_text_of(bytes, key) {
        Some(t) => t,
        None => default,
    }
}

/// The plan that a buffered upstream body classifies to, written over the
/// named readings of the document: bytes that do not parse degrade to
/// text or to the bare sentinel; a parsed document without a `choices`
/// array is emitted whole; an empty `choices` array yields only the
/// sentinel; a first choice with a string `message.content` is word-split
/// (with the source's `finish_reason`, default `"stop"`, and its `usage`
/// when present); any other first choice is embedded verbatim.  The `id`,
/// `created` and `model` fields default to the source's placeholders.
pub open spec fn plan_view_of(bytes: Seq<u8>) -> SsePlanView {
    if !json_parses(bytes) {
        if valid_utf8(bytes) {
            SsePlanView::Text { text: decode_utf8(bytes) }
        } else {
            SsePlanView::Binary
        }
    } else {
        match choices_len_of(bytes) {
            None => SsePlanView::Opaque { doc: doc_text_of(bytes) },
            Some(n) => {
                if n == 0 {
                    SsePlanView::EmptyChoices
                } else {
                    let id = field_text_or(bytes, "id"@, "\"unknown\""@);
                    let created = field_text_or(bytes, "created"@, "0"@);
                    let model = field_text_or(bytes, "model"@, "\"unknown\""@);
                    match content_of(bytes) {
                        Some(content) => SsePlanView::Chat {
                            id,
                            created,
                            model,
                            content,
                            finish_reason: match choice_field_text_of(bytes, "finish_reason"@) {
                                Some(t) => t,
                                None => "\"stop\""@,
                            },
                            usage: field_text_of(bytes, "usage"@),
                        },
                        None => SsePlanView::ChoiceVerbatim {
                            id,
                            created,
                            model,
                            choice: first_choice_text_of(bytes),
                        },
                    }
                }
            },
        }
    }
}

/// Every frame of the synthesized stream, in emission order.
pub open spec fn spec_frames(p: SsePlanView) -> Seq<Seq<char>> {
    match p {
        SsePlanView::Chat { id, created, model, content, finish_reason, usage } => {
            let words = spec_words(content);
            Seq::new(
                words.len(),
                |i: int| sse_frame(delta_chunk(id, created, model, word_payload(words, i))),
            ).push(sse_frame(final_chunk(id, created, model, finish_reason, usage))).push(
                sse_done(),
            )
        },
        SsePlanView::ChoiceVerbatim { id, created, model, choice } => seq![
            sse_frame(verbatim_chunk(id, created, model, choice)),
            sse_done(),
        ],
        SsePlanView::EmptyChoices => seq![sse_done()],
        SsePlanView::Opaque { doc } => seq![sse_frame(doc), sse_done()],
        SsePlanView::Text { text } => seq![sse_frame(text), sse_done()],
        SsePlanView::Binary => seq![sse_done()],
    }
}

fn make_frame(payload: &str) -> (r: String)
    ensures
        r@ == sse_frame(payload@),
{
    let mut out = String::from_str("data: ");
    out.append(payload);
    out.append("\n\n");
    out
}

fn done_frame() -> (r: String)
    ensures
        r@ == sse_done(),
{
    String::from_str("data: [DONE]\n\n")
}

fn delta_chunk_string(id: &str, created: &str, model: &str, word: &str) -> (r: String)
    ensures
        r@ == delta_chunk(id@, created@, model@, word@),
{
    let mut out = String::from_str("{\"choices\":[{\"delta\":{\"content\":");
    out.append(json_quote(word).as_str());
    out.append("},\"finish_reason\":null,\"index\":0}],\"created\":");
    out.append(created);
    out.append(",\"id\":");
    out.append(id);
    out.append(",\"model\":");
    out.append(model);
    out.append(",\"object\":\"chat.completion.chunk\"}");
    out
}

fn final_chunk_string(
    id: &str,
    created: &str,
    model: &str,
    finish_reason: &str,
    usage: &Option<String>,
) -> (r: String)
    ensures
        r@ == final_chunk(
            id@,
            created@,
            model@,
            finish_reason@,
            match *usage {
                Some(u) => Some(u@),
                None => None,
            },
        ),
{
    let mut out = String::from_str("{\"choices\":[{\"delta\":{},\"finish_reason\":");
    out.append(finish_reason);
    out.append(",\"index\":0}],\"created\":");
    out.append(created);
    out.append(",\"id\":");
    out.append(id);
    out.append(",\"model\":");
    out.append(model);
    out.append(",\"object\":\"chat.completion.chunk\"");
    match usage {
        Some(u) => {
            out.append(",\"usage\":");
            out.append(u.as_str());
        },
        None => {},
    }
    out.append("}");
    out
}

fn verbatim_chunk_string(id: &str, created: &str, model: &str, choice: &str) -> (r: String)
    ensures
        r@ == verbatim_chunk(id@, created@, model@, choice@),
{
    let mut out = String::from_str("{\"choices\":[");
    out.append(choice);
    out.append("],\"created\":");
    out.append(created);
    out.append(",\"id\":");
    out.append(id);
    out.append(",\"model\":");
    out.append(model);
    out.append(",\"object\":\"chat.completion.chunk\"}");
    out
}

/// Emit the frames of a synthesized stream, in order: exactly the frames
/// that [`spec_frames`] lists for this plan.
pub fn synthesize_frames(p: &SsePlan) -> (r: Vec<String>)
    ensures
        r@.len() == spec_frames(p@).len(),
        forall|i: int| 0 <= i < r@.len() ==> (#[trigger] r@[i])@ == spec_frames(p@)[i],
{
    let mut frames: Vec<String> = Vec::new();
    match p {
        SsePlan::Chat { id, created, model, content, finish_reason, usage } => {
            let words = split_words(content.as_str());
            let n = words.len();
            let mut k: usize = 0;
            while k < n
                invariant
                    p matches SsePlan::Chat {
                        id: pid,
                        created: pcreated,
                        model: pmodel,
                        content: pcontent,
                        finish_reason: pfinish,
                        usage: pusage,
                    } && id == pid && created == pcreated && model == pmodel && content == pcontent
                        && finish_reason == pfinish && usage == pusage,
                    n == words@.len(),
                    k <= n,
                    words@.len() == spec_words(content@).len(),
                    forall|i: int|
                        0 <= i < words@.len() ==> (#[trigger] words@[i])@ == spec_words(content@)[i],
                    frames@.len() == k,
                    forall|i: int|
                        0 <= i < k ==> (#[trigger] frames@[i])@ == spec_frames(p@)[i],
                decreases n - k,
            {
                let mut w = words[k].clone();
                if k + 1 < n {
                    w.append(" ");
                }
                let chunk = delta_chunk_string(
                    id.as_str(),
                    created.as_str(),
                    model.as_str(),
                    w.as_str(),
                );
                frames.push(make_frame(chunk.as_str()));
                proof {
                    assert(w@ == word_payload(spec_words(content@), k as int));
                }
                k = k + 1;
            }
            let fin = final_chunk_string(
                id.as_str(),
                created.as_str(),
                model.as_str(),
                finish_reason.as_str(),
                usage,
            );
            frames.push(make_frame(fin.as_str()));
            frames.push(done_frame());
        },
        SsePlan::ChoiceVerbatim { id, created, model, choice } => {
            let chunk = verbatim_chunk_string(
                id.as_str(),
                created.as_str(),
                model.as_str(),
                choice.as_str(),
            );
            frames.push(make_frame(chunk.as_str()));
            frames.push(done_frame());
        },
        SsePlan::EmptyChoices => {
            frames.push(done_frame());
        },
        SsePlan::Opaque { doc } => {
            frames.push(make_frame(doc.as_str()));
            frames.push(done_frame());
        },
        SsePlan::Text { text } => {
            frames.push(make_frame(text.as_str()));
            frames.push(done_frame());
        },
        SsePlan::Binary => {
            frames.push(done_frame());
        },
    }
    frames
}

/// A top-level metadata field of the document as JSON text, with the
/// given default when absent.
fn field_or_default(body: &Vec<u8>, key: &str, default: &str) -> (r: String)
    ensures
        json_parses(body@) ==> r@ == field_text_or(body@, key@, default@),
{
    match crate::json::json_field_text(body, key) {
        Some(text) => text,
        None => String::from_str(default),
    }
}

/// Classify a complete, buffered upstream body for synthesis: the plan is
/// exactly [`plan_view_of`] the body.  A body that is not JSON is never an
/// error: valid text is passed through verbatim, and anything else still
/// terminates the stream cleanly.
pub fn classify_upstream(body: &Vec<u8>) -> (p: SsePlan)
    ensures
        p@ == plan_view_of(body@),
{
    if !crate::json::json_is_valid(body) {
        match crate::strutil::bytes_to_string(body) {
            Some(text) => SsePlan::Text { text },
            None => SsePlan::Binary,
        }
    } else {
        match crate::json::json_choices_len(body) {
            None => {
                match crate::json::json_doc_text(body) {
                    Some(doc) => SsePlan::Opaque { doc },
                    // Unreachable: a parsed document always serializes.
                    None => SsePlan::Binary,
                }
            },
            Some(n) => {
                if n == 0 {
                    SsePlan::EmptyChoices
                } else {
                    let id = field_or_default(body, "id", "\"unknown\"");
                    let created = field_or_default(body, "created", "0");
                    let model = field_or_default(body, "model", "\"unknown\"");
                    match crate::json::json_content(body) {
                        Some(content) => {
                            let finish_reason = match crate::json::json_choice_field_text(
                                body,
                                "finish_reason",
                            ) {
                                Some(text) => text,
                                None => String::from_str("\"stop\""),
                            };
                            let usage = crate::json::json_field_text(body, "usage");
                            SsePlan::Chat { id, created, model, content, finish_reason, usage }
                        },
                        None => {
                            match crate::json::json_first_choice_text(body) {
                                Some(choice) => SsePlan::ChoiceVerbatim {
                                    id,
                                    created,
                                    model,
                                    choice,
                                },
                                // Unreachable: a present first choice
                                // always serializes.
                                None => SsePlan::Binary,
                            }
                        },
                    }
                }
            },
        }
    }
}

/// Every synthesized stream ends with the sentinel, whatever the upstream
/// body held: the terminal marker is the last of at least one frame.
pub proof fn lemma_stream_terminated(p: SsePlanView)
    ensures
        spec_frames(p).len() >= 1,
        spec_frames(p).last() == sse_done(),
{
}

/// A payload frame coincides with the sentinel only when its payload is
/// the sentinel word itself.
pub proof fn lemma_frame_not_done(payload: Seq<char>)
    requires
        payload != "[DONE]"@,
    ensures
        sse_frame(payload) != sse_done(),
{
    reveal_strlit("data: ");
    reveal_strlit("\n\n");
    reveal_strlit("data: [DONE]\n\n");
    reveal_strlit("[DONE]");
    if sse_frame(payload) == sse_done() {
        assert("data: "@.len() == 6);
        assert("\n\n"@.len() == 2);
        assert("data: [DONE]\n\n"@.len() == 14);
        assert(sse_frame(payload).len() == 8 + payload.len());
        assert(payload.len() == 6);
        assert forall|i: int| 0 <= i < 6 implies payload[i] == "[DONE]"@[i] by {
            assert(sse_frame(payload)[6 + i] == payload[i]);
        }
        assert(payload =~= "[DONE]"@);
    }
}

/// Every synthesized stream ends with the sentinel, and the sentinel never
/// appears twice: for a chat synthesis unconditionally (its payloads are
/// JSON objects), and for the verbatim paths whenever the emitted payload
/// is not itself the sentinel word.
pub proof fn lemma_done_exactly_once(p: SsePlanView)
    requires
        p matches SsePlanView::Opaque { doc } ==> doc != "[DONE]"@,
        p matches SsePlanView::Text { text } ==> text != "[DONE]"@,
    ensures
        spec_frames(p).len() >= 1,
        spec_frames(p).last() == sse_done(),
        forall|i: int| 0 <= i < spec_frames(p).len() - 1 ==> spec_frames(p)[i] != sse_done(),
{
    reveal_strlit("[DONE]");
    reveal_strlit("{\"choices\":[{\"delta\":{\"content\":");
    reveal_strlit("{\"choices\":[{\"delta\":{},\"finish_reason\":");
    reveal_strlit("{\"choices\":[");
    match p {
        SsePlanView::Chat { id, created, model, content, finish_reason, usage } => {
            let words = spec_words(content);
            let frames = spec_frames(p);
            assert forall|i: int| 0 <= i < frames.len() - 1 implies frames[i] != sse_done() by {
                if i < words.len() {
                    let payload = delta_chunk(id, created, model, word_payload(words, i));
                    assert(payload[0] == '{');
                    assert(payload != "[DONE]"@);
                    lemma_frame_not_done(payload);
                    assert(frames[i] == sse_frame(payload));
                } else {
                    let payload = final_chunk(id, created, model, finish_reason, usage);
                    assert(payload[0] == '{');
                    assert(payload != "[DONE]"@);
                    lemma_frame_not_done(payload);
                    assert(frames[i] == sse_frame(payload));
                }
            }
        },
        SsePlanView::ChoiceVerbatim { id, created, model, choice } => {
            let payload = verbatim_chunk(id, created, model, choice);
            assert(payload[0] == '{');
            assert(payload != "[DONE]"@);
            lemma_frame_not_done(payload);
        },
        SsePlanView::EmptyChoices => {},
        SsePlanView::Opaque { doc } => {
            lemma_frame_not_done(doc);
        },
        SsePlanView::Text { text } => {
            lemma_frame_not_done(text);
        },
        SsePlanView::Binary => {},
    }
}

} // verus!

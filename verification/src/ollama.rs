//! What is said to the generation model and what is made of its answers:
//! endpoints, prompts, and the list of models. The requests themselves are
//! the caller's.

use vstd::prelude::*;
use crate::text::{chars_of, push_str_chars, string_from_chars};

verus! {

/// A model that the provider offers.
#[derive(Debug, Clone, PartialEq, Eq)]
pub struct OllamaModel {
    pub name: String,
    pub size: u64,
    pub modified_at: String,
}

/// The answer to a generation request.
#[derive(Debug, Clone, PartialEq, Eq)]
pub struct GenerateResponse {
    pub model: String,
    pub created_at: String,
    pub response: String,
    pub done: bool,
    pub context: Vec<i32>,
}

/// The address of an endpoint of the provider at `base_url`.
pub open spec fn endpoint_of(base_url: Seq<char>, name: Seq<char>) -> Seq<char> {
    base_url + "/api/"@ + name
}

/// `lines` with `separator` between two of them.
pub open spec fn joined(lines: Seq<Seq<char>>, separator: Seq<char>) -> Seq<char>
    decreases lines.len(),
{
    if lines.len() == 0 {
        Seq::empty()
    } else if lines.len() == 1 {
        lines[0]
    } else {
        joined(lines.drop_last(), separator) + separator + lines.last()
    }
}

/// The prompt that is sent for a question: the question itself, or, with
/// context, the context lines under `Context:` and the question under
/// `Question:`.
pub open spec fn prompt_of(question: Seq<char>, context: Option<Seq<Seq<char>>>) -> Seq<char> {
    match context {
        Some(lines) => "Context:\n"@ + joined(lines, "\n"@) + "\n\nQuestion: "@ + question,
        None => question,
    }
}

/// Whether `needle` occurs in `hay` at position `at`.
pub open spec fn occurs_at(hay: Seq<char>, needle: Seq<char>, at: int) -> bool {
    0 <= at && at + needle.len() <= hay.len() && hay.subrange(at, at + needle.len()) == needle
}

/// Whether `needle` occurs somewhere in `hay`.
pub open spec fn occurs_in(hay: Seq<char>, needle: Seq<char>) -> bool {
    exists|at: int| occurs_at(hay, needle, at)
}

/// Whether one of `names` holds `model` as a part of it.
pub open spec fn any_holds(names: Seq<Seq<char>>, model: Seq<char>) -> bool {
    exists|i: int| 0 <= i < names.len() && occurs_in(#[trigger] names[i], model)
}

/// The address of an endpoint of the provider at `base_url`.
pub fn endpoint(base_url: &str, name: &str) -> (url: String)
    ensures
        url@ == endpoint_of(base_url@, name@),
{
    let mut out: Vec<char> = Vec::new();
    push_str_chars(&mut out, base_url);
    push_str_chars(&mut out, "/api/");
    push_str_chars(&mut out, name);
    string_from_chars(&out)
}

/// Appends `lines`, joined by a line feed, to `out`.
fn push_joined(out: &mut Vec<char>, lines: &Vec<String>)
    ensures
        final(out)@ == old(out)@ + joined(lines.deep_view(), "\n"@),
{
    let ghost all = lines.deep_view();
    let mut i: usize = 0;
    while i < lines.len()
        invariant
            i <= lines.len(),
            all == lines.deep_view(),
            out@ == old(out)@ + joined(all.take(i as int), "\n"@),
        decreases lines.len() - i,
    {
        assert(all.take(i + 1).drop_last() =~= all.take(i as int));
        if i > 0 {
            push_str_chars(out, "\n");
        }
        push_str_chars(out, lines[i].as_str());
        i += 1;
    }
    assert(all.take(lines.len() as int) =~= all);
}

/// A context by the characters of its lines.
pub open spec fn context_view(context: Option<&Vec<String>>) -> Option<Seq<Seq<char>>> {
    match context {
        Some(lines) => Some(lines.deep_view()),
        None => None,
    }
}

/// The prompt that is sent for a question.
pub fn full_prompt(question: &str, context: Option<&Vec<String>>) -> (prompt: String)
    ensures
        prompt@ == prompt_of(question@, context_view(context)),
{
    let mut out: Vec<char> = Vec::new();
    match context {
        Some(lines) => {
            push_str_chars(&mut out, "Context:\n");
            push_joined(&mut out, lines);
            push_str_chars(&mut out, "\n\nQuestion: ");
            push_str_chars(&mut out, question);
        },
        None => {
            push_str_chars(&mut out, question);
        },
    }
    string_from_chars(&out)
}

/// The names of the models of a listing, in its order.
pub fn model_names(models: Vec<OllamaModel>) -> (names: Vec<String>)
    ensures
        names.len() == models.len(),
        forall|i: int| 0 <= i < names.len() ==> (#[trigger] names[i])@ == models[i].name@,
{
    let mut names: Vec<String> = Vec::new();
    let mut i: usize = 0;
    while i < models.len()
        invariant
            i <= models.len(),
            names.len() == i,
            forall|k: int| 0 <= k < i ==> (#[trigger] names[k])@ == models[k].name@,
        decreases models.len() - i,
    {
        names.push(models[i].name.clone());
        i += 1;
    }
    names
}

/// Whether `needle` stands in `hay` at `at`.
fn stands_at(hay: &Vec<char>, needle: &Vec<char>, at: usize) -> (b: bool)
    requires
        at + needle.len() <= hay.len(),
    ensures
        b == occurs_at(hay@, needle@, at as int),
{
    let mut j: usize = 0;
    while j < needle.len()
        invariant
            j <= needle.len(),
            at + needle.len() <= hay.len(),
            forall|k: int| 0 <= k < j ==> hay[at + k] == needle[k],
        decreases needle.len() - j,
    {
        if hay[at + j] != needle[j] {
            return false;
        }
        j += 1;
    }
    assert(hay@.subrange(at as int, at + needle.len()) =~= needle@);
    true
}

/// Whether `needle` occurs somewhere in `hay`.
pub fn contains(hay: &str, needle: &str) -> (b: bool)
    ensures
        b == occurs_in(hay@, needle@),
{
    let h = chars_of(hay);
    let n = chars_of(needle);
    if n.len() > h.len() {
        return false;
    }
    let last = h.len() - n.len();
    let mut at: usize = 0;
    loop
        invariant
            at <= last,
            last + n.len() == h.len(),
            h@ == hay@,
            n@ == needle@,
            forall|k: int| 0 <= k < at ==> !occurs_at(h@, n@, k),
        decreases last - at,
    {
        if stands_at(&h, &n, at) {
            return true;
        }
        if at == last {
            return false;
        }
        at += 1;
    }
}

/// Whether the provider has `model`: whether the name of one of its models
/// holds `model` as a part of it.
pub fn has_model(names: &Vec<String>, model: &str) -> (b: bool)
    ensures
        b == any_holds(names.deep_view(), model@),
{
    let ghost all = names.deep_view();
    let mut i: usize = 0;
    while i < names.len()
        invariant
            i <= names.len(),
            all == names.deep_view(),
            forall|k: int| 0 <= k < i ==> !occurs_in(#[trigger] all[k], model@),
        decreases names.len() - i,
    {
        assert(all[i as int] == names[i as int]@);
        if contains(names[i].as_str(), model) {
            return true;
        }
        i += 1;
    }
    false
}

/// What is reported when a model was pulled.
pub fn pulled_message(model: &str) -> (message: String)
    ensures
        message@ == "Successfully pulled model: "@ + model@,
{
    let mut out: Vec<char> = Vec::new();
    push_str_chars(&mut out, "Successfully pulled model: ");
    push_str_chars(&mut out, model);
    string_from_chars(&out)
}

/// Whether an HTTP status tells success.
pub fn is_success(status: u16) -> (b: bool)
    ensures
        b == (200 <= status < 300),
{
    200 <= status && status < 300
}

/// What is known of a model that the provider confirmed: its name and when
/// that was; its size is not reported and stands as 0.
pub fn model_info(model: &str, confirmed_at: String) -> (info: OllamaModel)
    ensures
        info.name@ == model@,
        info.size == 0,
        info.modified_at == confirmed_at,
{
    OllamaModel { name: model.to_owned(), size: 0, modified_at: confirmed_at }
}

} // verus!

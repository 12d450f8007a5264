//! What a search makes of the rows that the nearest-neighbour index found,
//! and the context text that is rendered from the hits.

use vstd::prelude::*;
use crate::encryption::{opened_text, EncryptionService};
use crate::error::AppError;
use crate::lancedb::{password_view, DocumentChunk, ResultSpec, RowSpec, SearchResult};
use crate::text::{decimal, decimal_chars, push_chars, push_str_chars, string_from_chars};

verus! {

/// The text of a stored row as a reader sees it: the stored text itself, or
/// what it opens to under the password where the rows are encrypted.
pub open spec fn readable_text(
    stored: Seq<char>,
    encrypted: bool,
    password: Option<Seq<char>>,
) -> Option<Seq<char>> {
    if encrypted {
        match password {
            Some(p) => opened_text(stored, p),
            None => None,
        }
    } else {
        Some(stored)
    }
}

/// How many of `found` rows a search for `limit` hits hands back.
pub open spec fn hits(found: nat, limit: nat) -> nat {
    if found <= limit {
        found
    } else {
        limit
    }
}

/// The hit made of the row at place `i` and its readable text.
pub open spec fn hit_at(rows: Seq<RowSpec>, i: int, limit: nat, text: Seq<char>) -> ResultSpec {
    ResultSpec {
        chunk_text: text,
        rank: i as nat,
        limit,
        file_name: rows[i].file_name,
        chunk_index: rows[i].chunk_index,
    }
}

/// What a search makes of the rows that the index ranked best first: the
/// first `limit` of them in the same order, each with its rank and its
/// readable text. If one of them cannot be read, the whole search fails:
/// for want of a password, or because a row does not open under it.
pub open spec fn search_outcome(
    rows: Seq<RowSpec>,
    limit: nat,
    encrypted: bool,
    password: Option<Seq<char>>,
) -> Result<Seq<ResultSpec>, AppError> {
    let n = hits(rows.len(), limit);
    if n > 0 && encrypted && password is None {
        Err(AppError::MissingPassword)
    } else if exists|i: int|
        0 <= i < n && readable_text(#[trigger] rows[i].chunk_text, encrypted, password) is None {
        Err(AppError::DecryptionFailed)
    } else {
        Ok(
            Seq::new(
                n,
                |i: int|
                    hit_at(
                        rows,
                        i,
                        limit,
                        readable_text(rows[i].chunk_text, encrypted, password)->0,
                    ),
            ),
        )
    }
}

/// The outcome of a search by what the hits hold.
pub open spec fn results_view(r: Result<Vec<SearchResult>, AppError>) -> Result<
    Seq<ResultSpec>,
    AppError,
> {
    match r {
        Ok(results) => Ok(results.deep_view()),
        Err(e) => Err(e),
    }
}

/// The hits of a search are at most `limit`, never more than the rows that
/// were found, and they keep the order of the index: the hit at place `i`
/// has rank `i` and speaks of the row at place `i`.
pub proof fn hits_are_ranked(
    rows: Seq<RowSpec>,
    limit: nat,
    encrypted: bool,
    password: Option<Seq<char>>,
)
    ensures
        search_outcome(rows, limit, encrypted, password) matches Ok(found) ==> {
            &&& found.len() <= limit
            &&& found.len() <= rows.len()
            &&& forall|i: int|
                0 <= i < found.len() ==> {
                    &&& (#[trigger] found[i]).rank == i
                    &&& found[i].limit == limit
                    &&& found[i].file_name == rows[i].file_name
                    &&& found[i].chunk_index == rows[i].chunk_index
                    &&& Some(found[i].chunk_text) == readable_text(
                        rows[i].chunk_text,
                        encrypted,
                        password,
                    )
                }
        },
{
}

/// Makes hits of the rows that the index ranked best first, as
/// `search_outcome` says.
pub fn rank_results(
    encryption: &EncryptionService,
    candidates: &Vec<DocumentChunk>,
    limit: usize,
    encrypted: bool,
    password: Option<&str>,
) -> (r: Result<Vec<SearchResult>, AppError>)
    ensures
        results_view(r) == search_outcome(
            candidates.deep_view(),
            limit as nat,
            encrypted,
            password_view(password),
        ),
{
    let ghost rows = candidates.deep_view();
    let ghost pw = password_view(password);
    let n = if candidates.len() <= limit {
        candidates.len()
    } else {
        limit
    };
    if n > 0 && encrypted && password.is_none() {
        return Err(AppError::MissingPassword);
    }
    let mut results: Vec<SearchResult> = Vec::new();
    let mut i: usize = 0;
    while i < n
        invariant
            i <= n <= candidates.len(),
            n == hits(rows.len(), limit as nat),
            rows == candidates.deep_view(),
            pw == password_view(password),
            encrypted && n > 0 ==> password is Some,
            results.len() == i,
            forall|k: int|
                0 <= k < i ==> readable_text(#[trigger] rows[k].chunk_text, encrypted, pw) is Some,
            forall|k: int|
                0 <= k < i ==> (#[trigger] results[k])@ == hit_at(
                    rows,
                    k,
                    limit as nat,
                    readable_text(rows[k].chunk_text, encrypted, pw)->0,
                ),
        decreases n - i,
    {
        let row = &candidates[i];
        let text = if encrypted {
            match encryption.decrypt(row.chunk_text.as_str(), password.unwrap()) {
                Ok(text) => text,
                Err(_) => {
                    assert(readable_text(rows[i as int].chunk_text, encrypted, pw) is None);
                    return Err(AppError::DecryptionFailed);
                },
            }
        } else {
            row.chunk_text.clone()
        };
        results.push(
            SearchResult {
                chunk_text: text,
                rank: i,
                limit,
                file_name: row.file_name.clone(),
                chunk_index: row.chunk_index,
            },
        );
        i += 1;
    }
    proof {
        let expected = Seq::new(
            n as nat,
            |i: int|
                hit_at(rows, i, limit as nat, readable_text(rows[i].chunk_text, encrypted, pw)->0),
        );
        assert(results.deep_view() =~= expected);
    }
    Ok(results)
}

/// What separates two hits in a context.
pub open spec fn context_separator() -> Seq<char> {
    "\n\n---\n\n"@
}

/// One hit as it stands in a context: `From <file> (chunk <n>):`, a line
/// feed, and the text.
pub open spec fn context_block(hit: ResultSpec) -> Seq<char> {
    "From "@ + hit.file_name + " (chunk "@ + decimal(hit.chunk_index) + "):\n"@ + hit.chunk_text
}

/// The context made of some hits: their blocks in order, with the separator
/// between two of them; empty without hits.
pub open spec fn context_text(results: Seq<ResultSpec>) -> Seq<char>
    decreases results.len(),
{
    if results.len() == 0 {
        Seq::empty()
    } else if results.len() == 1 {
        context_block(results[0])
    } else {
        context_text(results.drop_last()) + context_separator() + context_block(results.last())
    }
}

/// Appends the block of one hit to `out`.
fn push_block(out: &mut Vec<char>, hit: &SearchResult)
    ensures
        final(out)@ == old(out)@ + context_block(hit@),
{
    push_str_chars(out, "From ");
    push_str_chars(out, hit.file_name.as_str());
    push_str_chars(out, " (chunk ");
    let number = decimal_chars(hit.chunk_index as i64);
    push_chars(out, &number);
    push_str_chars(out, "):\n");
    push_str_chars(out, hit.chunk_text.as_str());
}

/// Renders hits as one text for a prompt, as `context_text` says.
pub fn format_context(results: &Vec<SearchResult>) -> (context: String)
    ensures
        context@ == context_text(results.deep_view()),
{
    let ghost hits = results.deep_view();
    let mut out: Vec<char> = Vec::new();
    let mut i: usize = 0;
    while i < results.len()
        invariant
            i <= results.len(),
            hits == results.deep_view(),
            out@ == context_text(hits.take(i as int)),
        decreases results.len() - i,
    {
        assert(hits.take(i + 1).drop_last() =~= hits.take(i as int));
        if i > 0 {
            push_str_chars(&mut out, "\n\n---\n\n");
        }
        push_block(&mut out, &results[i]);
        i += 1;
    }
    assert(hits.take(results.len() as int) =~= hits);
    string_from_chars(&out)
}

} // verus!

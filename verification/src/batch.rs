//! Admission of a batch of chunks and vectors to a collection: what a batch
//! must be like, why it is refused if it is, and what is stored for it.

use vstd::prelude::*;
use crate::encryption::{opened_text, sealable, sealed_len, sealing_can_fail};
use crate::error::AppError;
use crate::lancedb::{CollectionSpec, RowSpec};

verus! {

/// The lengths of the vectors of a batch.
pub open spec fn lengths<T>(vectors: Seq<Vec<T>>) -> Seq<nat> {
    Seq::new(vectors.len(), |i: int| vectors[i]@.len())
}

/// The components of the vectors of a batch, one vector after the other.
pub open spec fn flat<T>(vectors: Seq<Vec<T>>) -> Seq<T> {
    vectors.map_values(|v: Vec<T>| v@).flatten()
}

/// The dimension that the vectors of a batch must have: that of the
/// collection where it exists, else the length of the first vector.
pub open spec fn expected_dimension(
    state: Map<Seq<char>, CollectionSpec>,
    model_id: Seq<char>,
    lens: Seq<nat>,
) -> nat {
    if state.contains_key(model_id) {
        state[model_id].dimension
    } else {
        lens[0]
    }
}

/// The first position at which a length differs from `expected`.
pub open spec fn first_mismatch(lens: Seq<nat>, expected: nat) -> Option<nat>
    decreases lens.len(),
{
    if lens.len() == 0 {
        None
    } else {
        match first_mismatch(lens.drop_last(), expected) {
            Some(i) => Some(i),
            None => if lens.last() != expected {
                Some((lens.len() - 1) as nat)
            } else {
                None
            },
        }
    }
}

/// Why an insert is refused before anything is prepared, if it is: the
/// numbers of chunks and vectors differ; a vector has the wrong dimension;
/// encryption is asked for without a password. An empty batch is never
/// refused.
pub open spec fn insert_rejection(
    state: Map<Seq<char>, CollectionSpec>,
    model_id: Seq<char>,
    chunks: nat,
    lens: Seq<nat>,
    encrypt: bool,
    has_password: bool,
) -> Option<AppError> {
    if chunks != lens.len() {
        Some(AppError::InputMismatch { chunks: chunks as usize, vectors: lens.len() as usize })
    } else if chunks == 0 {
        None
    } else {
        let expected = expected_dimension(state, model_id, lens);
        match first_mismatch(lens, expected) {
            Some(i) => Some(
                AppError::DimensionMismatch {
                    index: i as usize,
                    expected: expected as usize,
                    actual: lens[i as int] as usize,
                },
            ),
            None => if encrypt && !has_password {
                Some(AppError::MissingPassword)
            } else {
                None
            },
        }
    }
}

/// The rows that a collection holds after `added` more, where that number
/// still fits the machine.
pub open spec fn rows_after(
    state: Map<Seq<char>, CollectionSpec>,
    model_id: Seq<char>,
    added: nat,
) -> nat {
    if state.contains_key(model_id) {
        state[model_id].rows + added
    } else {
        added
    }
}

/// Whether `row` is what is stored for `chunk`: the same but for the text.
/// Where encryption is on, the stored text is the sealed form of the chunk's
/// text: it has the length of a sealed form, it is not the chunk's text, and
/// it opens to the chunk's text under the password.
pub open spec fn row_stores(
    row: RowSpec,
    chunk: RowSpec,
    encrypt: bool,
    password: Option<Seq<char>>,
) -> bool {
    &&& row.id == chunk.id
    &&& row.model_id == chunk.model_id
    &&& row.chunk_index == chunk.chunk_index
    &&& row.file_name == chunk.file_name
    &&& if encrypt {
        &&& password matches Some(p) && opened_text(row.chunk_text, p) == Some(chunk.chunk_text)
        &&& row.chunk_text.len() == sealed_len(chunk.chunk_text)
        &&& row.chunk_text != chunk.chunk_text
    } else {
        row.chunk_text == chunk.chunk_text
    }
}

/// Whether there is a password and every one of `texts` is within what the
/// primitives take under it.
pub open spec fn all_sealable(texts: Seq<Seq<char>>, password: Option<Seq<char>>) -> bool {
    password matches Some(p) && forall|i: int|
        0 <= i < texts.len() ==> sealable(#[trigger] texts[i], p)
}

/// Whether sealing fails for the text of one of `texts` under `password`.
pub open spec fn some_sealing_can_fail(texts: Seq<Seq<char>>, password: Option<Seq<char>>) -> bool {
    password matches Some(p) && exists|i: int|
        0 <= i < texts.len() && sealing_can_fail(#[trigger] texts[i], p)
}

/// What is known of a first mismatch: it lies in the batch, differs from
/// the expected dimension, and nothing before it does; without one, every
/// length is the expected one.
pub proof fn lemma_first_mismatch(lens: Seq<nat>, expected: nat)
    ensures
        match first_mismatch(lens, expected) {
            Some(i) => i < lens.len() && lens[i as int] != expected && forall|k: int|
                0 <= k < i ==> lens[k] == expected,
            None => forall|k: int| 0 <= k < lens.len() ==> lens[k] == expected,
        },
    decreases lens.len(),
{
    if lens.len() > 0 {
        lemma_first_mismatch(lens.drop_last(), expected);
        match first_mismatch(lens.drop_last(), expected) {
            Some(i) => {
                assert forall|k: int| 0 <= k < i implies lens[k] == expected by {
                    assert(lens.drop_last()[k] == lens[k]);
                }
            },
            None => {
                assert forall|k: int| 0 <= k < lens.len() - 1 implies lens[k] == expected by {
                    assert(lens.drop_last()[k] == lens[k]);
                }
            },
        }
    }
}

/// A mismatch found in the first `n` lengths is the first mismatch of all.
proof fn lemma_mismatch_in_prefix(lens: Seq<nat>, expected: nat, n: int)
    requires
        0 <= n <= lens.len(),
        first_mismatch(lens.take(n), expected) is Some,
    ensures
        first_mismatch(lens, expected) == first_mismatch(lens.take(n), expected),
    decreases lens.len() - n,
{
    if n < lens.len() {
        assert(lens.take(n + 1).drop_last() =~= lens.take(n));
        lemma_mismatch_in_prefix(lens, expected, n + 1);
    } else {
        assert(lens.take(n) =~= lens);
    }
}

/// A batch for a collection that exists is refused as soon as one of its
/// vectors has another dimension than the collection, whatever else holds
/// of it; the refusal names the first such vector.
pub proof fn mismatched_dimension_is_refused(
    state: Map<Seq<char>, CollectionSpec>,
    model_id: Seq<char>,
    lens: Seq<nat>,
    encrypt: bool,
    has_password: bool,
    at: int,
)
    requires
        state.contains_key(model_id),
        0 <= at < lens.len(),
        lens[at] != state[model_id].dimension,
    ensures
        first_mismatch(lens, state[model_id].dimension) matches Some(i) && i <= at && lens[i as int]
            != state[model_id].dimension && insert_rejection(
            state,
            model_id,
            lens.len(),
            lens,
            encrypt,
            has_password,
        ) == Some(
            AppError::DimensionMismatch {
                index: i as usize,
                expected: state[model_id].dimension as usize,
                actual: lens[i as int] as usize,
            },
        ),
{
    lemma_first_mismatch(lens, state[model_id].dimension);
}

/// Looks for the first vector whose length is not `expected`.
pub fn find_mismatch<T>(vectors: &Vec<Vec<T>>, expected: usize) -> (at: Option<usize>)
    ensures
        match at {
            Some(i) => first_mismatch(lengths(vectors@), expected as nat) == Some(i as nat) && i
                < vectors.len(),
            None => first_mismatch(lengths(vectors@), expected as nat) is None,
        },
{
    let ghost lens = lengths(vectors@);
    let mut i: usize = 0;
    while i < vectors.len()
        invariant
            i <= vectors.len(),
            lens == lengths(vectors@),
            first_mismatch(lens.take(i as int), expected as nat) is None,
        decreases vectors.len() - i,
    {
        assert(lens.take(i + 1).drop_last() =~= lens.take(i as int));
        if vectors[i].len() != expected {
            proof {
                lemma_mismatch_in_prefix(lens, expected as nat, i + 1);
            }
            return Some(i);
        }
        i += 1;
    }
    assert(lens.take(vectors.len() as int) =~= lens);
    None
}

/// Lays the components of the vectors of a batch out one vector after the
/// other.
pub fn flatten<T: Copy>(vectors: &Vec<Vec<T>>) -> (out: Vec<T>)
    ensures
        out@ == flat(vectors@),
{
    let mut out: Vec<T> = Vec::new();
    let mut i: usize = 0;
    while i < vectors.len()
        invariant
            i <= vectors.len(),
            out@ == flat(vectors@.take(i as int)),
        decreases vectors.len() - i,
    {
        let ghost before = out@;
        let v = &vectors[i];
        let mut j: usize = 0;
        while j < v.len()
            invariant
                j <= v.len(),
                out@ == before + v@.take(j as int),
            decreases v.len() - j,
        {
            out.push(v[j]);
            j += 1;
        }
        proof {
            let f = |v: Vec<T>| v@;
            let head = vectors@.take(i as int).map_values(f);
            assert(vectors@.take(i + 1).map_values(f) =~= head.push(v@));
            head.lemma_flatten_push(v@);
        }
        i += 1;
    }
    assert(vectors@.take(vectors.len() as int) =~= vectors@);
    out
}

} // verus!

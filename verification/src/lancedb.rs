//! The vector store's catalog and its operations.
//!
//! The rows themselves live in tables that the caller reads and writes; the
//! store here holds what is known of each collection (the dimension fixed at
//! its creation and the number of rows written), decides whether an
//! operation is admitted, and prepares what is written and what is handed
//! back.

use vstd::prelude::*;
use std::path::PathBuf;
use crate::batch::{
    expected_dimension, find_mismatch, flat, flatten, insert_rejection, lengths, row_stores,
    rows_after, some_sealing_can_fail, all_sealable,
};
use crate::encryption::{sealed_text_is_longer, EncryptionService};
use crate::error::AppError;
use crate::search::{context_text, format_context, rank_results, results_view, search_outcome};
use crate::table_name::{
    model_id_of, model_id_of_table, table_name, table_name_of, table_name_round_trip,
};

verus! {

/// Makes `std::path::PathBuf` known as a type; nothing is assumed of its
/// values.
#[verifier::external_type_specification]
#[verifier::external_body]
pub struct ExPathBuf(std::path::PathBuf);

/// What the catalog knows of one collection.
pub struct CollectionSpec {
    pub dimension: nat,
    pub rows: nat,
}

/// One entry of the catalog.
struct Collection {
    id: String,
    dimension: usize,
    rows: usize,
}

impl Collection {
    spec fn spec(&self) -> CollectionSpec {
        CollectionSpec { dimension: self.dimension as nat, rows: self.rows as nat }
    }
}

/// A chunk as it is handed to the store and as the store hands it back:
/// the id of the row, the collection, the text, the number of the chunk in
/// its document and the name of the file it came from.
#[derive(Debug, Clone)]
pub struct DocumentChunk {
    pub id: String,
    pub model_id: String,
    pub chunk_text: String,
    pub chunk_index: i32,
    pub file_name: String,
}

/// The mathematical content of a `DocumentChunk`.
pub struct RowSpec {
    pub id: Seq<char>,
    pub model_id: Seq<char>,
    pub chunk_text: Seq<char>,
    pub chunk_index: int,
    pub file_name: Seq<char>,
}

impl View for DocumentChunk {
    type V = RowSpec;

    open spec fn view(&self) -> RowSpec {
        RowSpec {
            id: self.id@,
            model_id: self.model_id@,
            chunk_text: self.chunk_text@,
            chunk_index: self.chunk_index as int,
            file_name: self.file_name@,
        }
    }
}

impl DeepView for DocumentChunk {
    type V = RowSpec;

    open spec fn deep_view(&self) -> RowSpec {
        self@
    }
}

/// One hit of a search: the readable text of the chunk, its file and chunk
/// number, and its place among the hits. `rank` counts from 0, the best hit
/// first; `limit` is the number of hits that were asked for. The similarity
/// of a hit is `(limit - rank) / limit`, an approximation by rank of which
/// only the order is meant.
#[derive(Debug, Clone)]
pub struct SearchResult {
    pub chunk_text: String,
    pub rank: usize,
    pub limit: usize,
    pub file_name: String,
    pub chunk_index: i32,
}

/// The mathematical content of a `SearchResult`.
pub struct ResultSpec {
    pub chunk_text: Seq<char>,
    pub rank: nat,
    pub limit: nat,
    pub file_name: Seq<char>,
    pub chunk_index: int,
}

impl View for SearchResult {
    type V = ResultSpec;

    open spec fn view(&self) -> ResultSpec {
        ResultSpec {
            chunk_text: self.chunk_text@,
            rank: self.rank as nat,
            limit: self.limit as nat,
            file_name: self.file_name@,
            chunk_index: self.chunk_index as int,
        }
    }
}

impl DeepView for SearchResult {
    type V = ResultSpec;

    open spec fn deep_view(&self) -> ResultSpec {
        self@
    }
}

impl SearchResult {
    /// Numerator and denominator of the similarity.
    pub fn similarity_parts(&self) -> (parts: (usize, usize))
        ensures
            parts.1 == self.limit,
            self.rank <= self.limit ==> parts.0 == self.limit - self.rank,
            self.rank > self.limit ==> parts.0 == 0,
    {
        if self.rank <= self.limit {
            (self.limit - self.rank, self.limit)
        } else {
            (0, self.limit)
        }
    }
}

/// What has to be written for one insert: the table, whether it has to be
/// created first and with which dimension, the rows, and the components of
/// their vectors one vector after the other.
pub struct InsertBatch<T> {
    pub table_name: String,
    pub dimension: usize,
    pub create_table: bool,
    pub rows: Vec<DocumentChunk>,
    pub vectors: Vec<T>,
}

/// The texts of some chunks, in order.
pub open spec fn chunk_texts(chunks: Seq<DocumentChunk>) -> Seq<Seq<char>> {
    Seq::new(chunks.len(), |i: int| chunks[i].chunk_text@)
}

/// A password by its characters.
pub open spec fn password_view(password: Option<&str>) -> Option<Seq<char>> {
    match password {
        Some(p) => Some(p@),
        None => None,
    }
}

/// The catalog after collection `model_id` was made sure of with
/// `dimension`: a new collection without rows, or the catalog as it was.
pub open spec fn ensured(
    state: Map<Seq<char>, CollectionSpec>,
    model_id: Seq<char>,
    dimension: nat,
) -> Map<Seq<char>, CollectionSpec> {
    if state.contains_key(model_id) {
        state
    } else {
        state.insert(model_id, CollectionSpec { dimension, rows: 0 })
    }
}

/// To make sure of a collection twice is to make sure of it once: the
/// second time changes nothing, whatever dimension it names, and the
/// dimension stays the one that was in force first.
pub proof fn ensuring_is_idempotent(
    state: Map<Seq<char>, CollectionSpec>,
    model_id: Seq<char>,
    first: nat,
    second: nat,
)
    ensures
        ensured(ensured(state, model_id, first), model_id, second) == ensured(
            state,
            model_id,
            first,
        ),
        state.contains_key(model_id) ==> ensured(state, model_id, first)[model_id].dimension
            == state[model_id].dimension,
        !state.contains_key(model_id) ==> ensured(state, model_id, first)[model_id].dimension
            == first,
{
}

/// Figures about one collection. The size is an estimate of ten kilobytes
/// for every row, the number of files one of ten rows for every file.
#[derive(Debug, Clone, Copy, PartialEq, Eq)]
pub struct ModelStats {
    pub total_chunks: usize,
    pub total_files: usize,
    pub table_size_kb: u128,
}

/// Whether `stats` are the figures for a collection of `rows` rows: as many
/// chunks, a file for every ten rows or part of ten, and ten kilobytes for
/// every row.
pub open spec fn stats_show(stats: ModelStats, rows: nat) -> bool {
    &&& stats.total_chunks == rows
    &&& stats.total_files == (rows + 9) / 10
    &&& stats.table_size_kb == rows * 10
}

/// The vector store: a catalog of collections by id.
pub struct LanceDBService {
    db_path: PathBuf,
    encryption: EncryptionService,
    collections: Vec<Collection>,
    state: Ghost<Map<Seq<char>, CollectionSpec>>,
}

impl View for LanceDBService {
    type V = Map<Seq<char>, CollectionSpec>;

    /// The collections that exist, by id.
    closed spec fn view(&self) -> Map<Seq<char>, CollectionSpec> {
        self.state@
    }
}

impl LanceDBService {
    /// The catalog entries and the map of collections say the same, and no
    /// id occurs twice.
    pub closed spec fn wf(&self) -> bool {
        &&& forall|i: int|
            0 <= i < self.collections.len() ==> self.state@.contains_key(
                (#[trigger] self.collections[i]).id@,
            ) && self.state@[self.collections[i].id@] == self.collections[i].spec()
        &&& forall|id: Seq<char>| #[trigger]
            self.state@.contains_key(id) ==> exists|i: int|
                0 <= i < self.collections.len() && (#[trigger] self.collections[i]).id@ == id
        &&& forall|i: int, j: int|
            0 <= i < j < self.collections.len() ==> (#[trigger] self.collections[i]).id@ != (
            #[trigger] self.collections[j]).id@
    }

    /// The path that the store was made with. No operation changes it.
    pub closed spec fn path(&self) -> PathBuf {
        self.db_path
    }

    /// What the catalog holds of a collection fits the machine's numbers.
    pub proof fn figures_fit(&self, model_id: Seq<char>)
        requires
            self.wf(),
            self@.contains_key(model_id),
        ensures
            self@[model_id].dimension <= usize::MAX,
            self@[model_id].rows <= usize::MAX,
    {
        let i = choose|i: int|
            0 <= i < self.collections.len() && (#[trigger] self.collections[i]).id@ == model_id;
        assert(self@[model_id] == self.collections[i].spec());
    }

    /// A store at `db_path` of which no collection is known yet.
    pub fn new(db_path: PathBuf) -> (s: Self)
        ensures
            s.wf(),
            s@ == Map::<Seq<char>, CollectionSpec>::empty(),
            s.path() == db_path,
    {
        LanceDBService {
            db_path,
            encryption: EncryptionService::new(),
            collections: Vec::new(),
            state: Ghost(Map::empty()),
        }
    }

    /// Where the tables are kept: the path that the store was made with.
    pub fn db_path(&self) -> (p: &PathBuf)
        ensures
            *p == self.path(),
    {
        &self.db_path
    }

    /// The position of collection `model_id` in the catalog.
    fn find(&self, model_id: &str) -> (at: Option<usize>)
        requires
            self.wf(),
        ensures
            match at {
                Some(i) => i < self.collections.len() && self.collections[i as int].id@
                    == model_id@ && self@.contains_key(model_id@) && self@[model_id@]
                    == self.collections[i as int].spec(),
                None => !self@.contains_key(model_id@),
            },
    {
        let mut i: usize = 0;
        while i < self.collections.len()
            invariant
                self.wf(),
                i <= self.collections.len(),
                forall|k: int| 0 <= k < i ==> (#[trigger] self.collections[k]).id@ != model_id@,
            decreases self.collections.len() - i,
        {
            if str_eq(self.collections[i].id.as_str(), model_id) {
                return Some(i);
            }
            i += 1;
        }
        None
    }

    /// Makes sure that collection `model_id` exists. A new collection gets
    /// `dimension` and no rows; one that exists keeps its dimension, whatever
    /// `dimension` says. Tells whether the collection is new, that is whether
    /// its table has yet to be created.
    pub fn ensure_collection(&mut self, model_id: &str, dimension: usize) -> (created: bool)
        requires
            old(self).wf(),
        ensures
            final(self).wf(),
            final(self).path() == old(self).path(),
            created == !old(self)@.contains_key(model_id@),
            final(self)@ == ensured(old(self)@, model_id@, dimension as nat),
    {
        match self.find(model_id) {
            Some(_) => false,
            None => {
                self.add(String::from_str(model_id), dimension, 0);
                true
            },
        }
    }

    /// Adds an entry for a collection that the catalog does not hold.
    fn add(&mut self, id: String, dimension: usize, rows: usize)
        requires
            old(self).wf(),
            !old(self)@.contains_key(id@),
        ensures
            final(self).wf(),
            final(self).path() == old(self).path(),
            final(self)@ == old(self)@.insert(
                id@,
                CollectionSpec { dimension: dimension as nat, rows: rows as nat },
            ),
    {
        let ghost key = id@;
        let ghost entries = self.collections@;
        let entry = Collection { id, dimension, rows };
        proof {
            self.state@ = self.state@.insert(key, entry.spec());
        }
        self.collections.push(entry);
        proof {
            assert forall|id: Seq<char>| #[trigger]
                self.state@.contains_key(id) implies exists|i: int|
                0 <= i < self.collections.len() && (#[trigger] self.collections[i]).id@ == id by {
                if id == key {
                    assert(self.collections[entries.len() as int].id@ == id);
                } else {
                    let i = choose|i: int| 0 <= i < entries.len() && (#[trigger] entries[i]).id@ == id;
                    assert(self.collections[i].id@ == id);
                }
            }
        }
    }

    /// Takes the entry at `at` out of the catalog.
    fn take_out(&mut self, at: usize) -> (entry: Collection)
        requires
            old(self).wf(),
            at < old(self).collections.len(),
        ensures
            final(self).wf(),
            final(self).path() == old(self).path(),
            entry == old(self).collections[at as int],
            final(self)@ == old(self)@.remove(entry.id@),
    {
        let ghost entries = self.collections@;
        let entry = self.collections.remove(at);
        proof {
            self.state@ = self.state@.remove(entry.id@);
            assert forall|id: Seq<char>| #[trigger]
                self.state@.contains_key(id) implies exists|i: int|
                0 <= i < self.collections.len() && (#[trigger] self.collections[i]).id@ == id by {
                let k = choose|k: int| 0 <= k < entries.len() && (#[trigger] entries[k]).id@ == id;
                if k < at {
                    assert(self.collections[k].id@ == id);
                } else {
                    assert(self.collections[k - 1] == entries[k]);
                }
            }
        }
        entry
    }

    /// Prepares the rows that are stored for `chunks`: copies, with the text
    /// sealed under the password where encryption is on.
    fn seal_rows(&self, chunks: &Vec<DocumentChunk>, encrypt: bool, password: Option<&str>) -> (r:
        Result<Vec<DocumentChunk>, AppError>)
        requires
            encrypt ==> password is Some,
        ensures
            match r {
                Ok(rows) => rows.len() == chunks.len() && forall|i: int|
                    0 <= i < rows.len() ==> row_stores(
                        (#[trigger] rows[i])@,
                        chunks[i]@,
                        encrypt,
                        password_view(password),
                    ),
                Err(e) => encrypt && e == AppError::EncryptionFailed && some_sealing_can_fail(
                    chunk_texts(chunks@),
                    password_view(password),
                ),
            },
            !encrypt ==> r is Ok,
            all_sealable(chunk_texts(chunks@), password_view(password)) ==> r is Ok,
    {
        let mut rows: Vec<DocumentChunk> = Vec::new();
        let mut i: usize = 0;
        while i < chunks.len()
            invariant
                i <= chunks.len(),
                rows.len() == i,
                encrypt ==> password is Some,
                forall|k: int|
                    0 <= k < i ==> row_stores(
                        (#[trigger] rows[k])@,
                        chunks[k]@,
                        encrypt,
                        password_view(password),
                    ),
            decreases chunks.len() - i,
        {
            let chunk = &chunks[i];
            let text = if encrypt {
                match self.encryption.encrypt(chunk.chunk_text.as_str(), password.unwrap()) {
                    Ok(sealed) => {
                        proof {
                            sealed_text_is_longer(chunk.chunk_text@);
                        }
                        sealed
                    },
                    Err(_) => {
                        assert(chunk_texts(chunks@)[i as int] == chunk.chunk_text@);
                        return Err(AppError::EncryptionFailed);
                    },
                }
            } else {
                chunk.chunk_text.clone()
            };
            rows.push(
                DocumentChunk {
                    id: chunk.id.clone(),
                    model_id: chunk.model_id.clone(),
                    chunk_text: text,
                    chunk_index: chunk.chunk_index,
                    file_name: chunk.file_name.clone(),
                },
            );
            i += 1;
        }
        Ok(rows)
    }

    /// Admits a batch of chunks with their vectors to collection `model_id`
    /// and prepares what has to be written for it.
    ///
    /// The batch is refused as `insert_rejection` says. An empty batch is
    /// admitted and changes nothing. Otherwise the collection is created if
    /// need be, with the dimension of the batch, and its rows are counted.
    /// Where the batch is not admitted, nothing changes.
    pub fn store_embeddings<T: Copy>(
        &mut self,
        model_id: &str,
        chunks: Vec<DocumentChunk>,
        embeddings: Vec<Vec<T>>,
        encrypt: bool,
        password: Option<&str>,
    ) -> (r: Result<InsertBatch<T>, AppError>)
        requires
            old(self).wf(),
        ensures
            final(self).wf(),
            final(self).path() == old(self).path(),
            r is Err ==> final(self)@ == old(self)@,
            match insert_rejection(
                old(self)@,
                model_id@,
                chunks@.len(),
                lengths(embeddings@),
                encrypt,
                password is Some,
            ) {
                Some(e) => r matches Err(f) && f == e,
                None => if rows_after(old(self)@, model_id@, chunks@.len()) > usize::MAX {
                    r matches Err(AppError::StorageError(_))
                } else {
                    &&& !encrypt ==> r is Ok
                    &&& all_sealable(chunk_texts(chunks@), password_view(password)) ==> r is Ok
                    &&& r matches Err(e) ==> e == AppError::EncryptionFailed
                        && some_sealing_can_fail(chunk_texts(chunks@), password_view(password))
                },
            },
            r matches Ok(batch) ==> {
                &&& batch.table_name@ == table_name_of(model_id@)
                &&& batch.rows.len() == chunks.len()
                &&& forall|i: int|
                    0 <= i < batch.rows.len() ==> row_stores(
                        (#[trigger] batch.rows[i])@,
                        chunks[i]@,
                        encrypt,
                        password_view(password),
                    )
                &&& batch.vectors@ == flat(embeddings@)
                &&& chunks.len() == 0 ==> !batch.create_table && final(self)@ == old(self)@
                &&& chunks.len() > 0 ==> {
                    &&& batch.dimension == expected_dimension(
                        old(self)@,
                        model_id@,
                        lengths(embeddings@),
                    )
                    &&& batch.create_table == !old(self)@.contains_key(model_id@)
                    &&& final(self)@ == old(self)@.insert(
                        model_id@,
                        CollectionSpec {
                            dimension: batch.dimension as nat,
                            rows: rows_after(old(self)@, model_id@, chunks@.len()),
                        },
                    )
                }
            },
    {
        if chunks.len() != embeddings.len() {
            return Err(
                AppError::InputMismatch { chunks: chunks.len(), vectors: embeddings.len() },
            );
        }
        let count = chunks.len();
        if count == 0 {
            return Ok(
                InsertBatch {
                    table_name: table_name(model_id),
                    dimension: 0,
                    create_table: false,
                    rows: Vec::new(),
                    vectors: flatten(&embeddings),
                },
            );
        }
        let found = self.find(model_id);
        let dimension = match found {
            Some(at) => self.collections[at].dimension,
            None => embeddings[0].len(),
        };
        match find_mismatch(&embeddings, dimension) {
            Some(index) => {
                return Err(
                    AppError::DimensionMismatch {
                        index,
                        expected: dimension,
                        actual: embeddings[index].len(),
                    },
                );
            },
            None => {},
        }
        if encrypt && password.is_none() {
            return Err(AppError::MissingPassword);
        }
        let known = match found {
            Some(at) => self.collections[at].rows,
            None => 0,
        };
        let total = match known.checked_add(count) {
            Some(total) => total,
            None => {
                return Err(
                    AppError::StorageError(String::from_str("the collection cannot hold more rows")),
                );
            },
        };
        let rows = match self.seal_rows(&chunks, encrypt, password) {
            Ok(rows) => rows,
            Err(e) => {
                return Err(e);
            },
        };
        let vectors = flatten(&embeddings);
        let name = table_name(model_id);
        match found {
            Some(at) => {
                let entry = self.take_out(at);
                self.add(entry.id, dimension, total);
            },
            None => {
                self.add(String::from_str(model_id), dimension, total);
            },
        }
        Ok(InsertBatch { table_name: name, dimension, create_table: found.is_none(), rows, vectors })
    }

    /// Makes hits of the rows that the index found nearest to a query in
    /// collection `model_id`, best first. A collection that was never
    /// created is an error of its own, not an empty result.
    pub fn search_similar(
        &self,
        model_id: &str,
        candidates: &Vec<DocumentChunk>,
        limit: usize,
        encrypted: bool,
        password: Option<&str>,
    ) -> (r: Result<Vec<SearchResult>, AppError>)
        requires
            self.wf(),
        ensures
            if self@.contains_key(model_id@) {
                results_view(r) == search_outcome(
                    candidates.deep_view(),
                    limit as nat,
                    encrypted,
                    password_view(password),
                )
            } else {
                r matches Err(AppError::CollectionNotFound(id)) && id@ == model_id@
            },
    {
        match self.find(model_id) {
            Some(_) => rank_results(&self.encryption, candidates, limit, encrypted, password),
            None => Err(AppError::CollectionNotFound(String::from_str(model_id))),
        }
    }

    /// Searches as `search_similar` does and renders the hits as one text.
    pub fn get_context(
        &self,
        model_id: &str,
        candidates: &Vec<DocumentChunk>,
        max_chunks: usize,
        encrypted: bool,
        password: Option<&str>,
    ) -> (r: Result<String, AppError>)
        requires
            self.wf(),
        ensures
            if self@.contains_key(model_id@) {
                match search_outcome(
                    candidates.deep_view(),
                    max_chunks as nat,
                    encrypted,
                    password_view(password),
                ) {
                    Ok(hits) => r matches Ok(context) && context@ == context_text(hits),
                    Err(e) => r matches Err(f) && f == e,
                }
            } else {
                r matches Err(AppError::CollectionNotFound(id)) && id@ == model_id@
            },
    {
        match self.search_similar(model_id, candidates, max_chunks, encrypted, password) {
            Ok(results) => Ok(format_context(&results)),
            Err(e) => Err(e),
        }
    }

    /// Forgets collection `model_id` and all its rows. Tells whether there
    /// was such a collection, that is whether its table has to be dropped.
    pub fn delete_model_data(&mut self, model_id: &str) -> (dropped: bool)
        requires
            old(self).wf(),
        ensures
            final(self).wf(),
            final(self).path() == old(self).path(),
            dropped == old(self)@.contains_key(model_id@),
            final(self)@ == old(self)@.remove(model_id@),
    {
        match self.find(model_id) {
            Some(at) => {
                let _ = self.take_out(at);
                true
            },
            None => {
                false
            },
        }
    }

    /// The figures for collection `model_id`; all zero where there is no
    /// such collection.
    pub fn get_stats(&self, model_id: &str) -> (stats: ModelStats)
        requires
            self.wf(),
        ensures
            stats_show(
                stats,
                if self@.contains_key(model_id@) {
                    self@[model_id@].rows
                } else {
                    0
                },
            ),
    {
        match self.find(model_id) {
            Some(at) => {
                let rows = self.collections[at].rows;
                ModelStats {
                    total_chunks: rows,
                    total_files: rows / 10 + if rows % 10 == 0 {
                        0
                    } else {
                        1
                    },
                    table_size_kb: (rows as u128) * 10,
                }
            },
            None => ModelStats { total_chunks: 0, total_files: 0, table_size_kb: 0 },
        }
    }

    /// The ids of the collections that exist, each once.
    pub fn list_models(&self) -> (ids: Vec<String>)
        requires
            self.wf(),
        ensures
            ids.deep_view().no_duplicates(),
            forall|id: Seq<char>| self@.contains_key(id) <==> ids.deep_view().contains(id),
    {
        let mut ids: Vec<String> = Vec::new();
        let mut i: usize = 0;
        while i < self.collections.len()
            invariant
                self.wf(),
                i <= self.collections.len(),
                ids.len() == i,
                forall|k: int| 0 <= k < i ==> (#[trigger] ids[k])@ == self.collections[k].id@,
            decreases self.collections.len() - i,
        {
            ids.push(self.collections[i].id.clone());
            i += 1;
        }
        proof {
            let d = ids.deep_view();
            assert forall|id: Seq<char>| self@.contains_key(id) <==> d.contains(id) by {
                if self@.contains_key(id) {
                    let k = choose|k: int|
                        0 <= k < self.collections.len() && (#[trigger] self.collections[k]).id@
                            == id;
                    assert(d[k] == id);
                }
            }
        }
        ids
    }

    /// Forgets every collection. Hands out the names of their tables, which
    /// have to be dropped.
    pub fn clear_all(&mut self) -> (tables: Vec<String>)
        requires
            old(self).wf(),
        ensures
            final(self).wf(),
            final(self).path() == old(self).path(),
            final(self)@ == Map::<Seq<char>, CollectionSpec>::empty(),
            forall|id: Seq<char>|
                old(self)@.contains_key(id) ==> tables.deep_view().contains(
                    #[trigger] table_name_of(id),
                ),
            forall|k: int|
                0 <= k < tables.len() ==> match model_id_of((#[trigger] tables[k])@) {
                    Some(id) => old(self)@.contains_key(id),
                    None => false,
                },
    {
        let mut tables: Vec<String> = Vec::new();
        let mut i: usize = 0;
        while i < self.collections.len()
            invariant
                self.wf(),
                *self == *old(self),
                i <= self.collections.len(),
                tables.len() == i,
                forall|k: int|
                    0 <= k < i ==> (#[trigger] tables[k])@ == table_name_of(
                        self.collections[k].id@,
                    ),
            decreases self.collections.len() - i,
        {
            tables.push(table_name(self.collections[i].id.as_str()));
            i += 1;
        }
        proof {
            let d = tables.deep_view();
            assert forall|id: Seq<char>| self@.contains_key(id) implies d.contains(
                #[trigger] table_name_of(id),
            ) by {
                let k = choose|k: int|
                    0 <= k < self.collections.len() && (#[trigger] self.collections[k]).id@ == id;
                assert(d[k] == tables[k]@);
            }
            assert forall|k: int| 0 <= k < tables.len() implies match model_id_of(
                (#[trigger] tables[k])@,
            ) {
                Some(id) => self@.contains_key(id),
                None => false,
            } by {
                let id = self.collections[k].id@;
                table_name_round_trip(id);
            }
        }
        self.collections = Vec::new();
        proof {
            self.state@ = Map::empty();
        }
        tables
    }

    /// Takes note of a table that was found in the store, with the dimension
    /// of its vectors and the number of its rows. Tables that hold no
    /// collection, and collections that are known already, are passed over.
    /// Tells whether the table was taken in.
    pub fn register_table(&mut self, table: &str, dimension: usize, rows: usize) -> (taken: bool)
        requires
            old(self).wf(),
        ensures
            final(self).wf(),
            final(self).path() == old(self).path(),
            match model_id_of(table@) {
                Some(id) => {
                    &&& taken == !old(self)@.contains_key(id)
                    &&& taken ==> final(self)@ == old(self)@.insert(
                        id,
                        CollectionSpec { dimension: dimension as nat, rows: rows as nat },
                    )
                },
                None => !taken,
            },
            !taken ==> final(self)@ == old(self)@,
    {
        match model_id_of_table(table) {
            Some(id) => match self.find(id.as_str()) {
                Some(_) => false,
                None => {
                    self.add(id, dimension, rows);
                    true
                },
            },
            None => false,
        }
    }
}

/// Whether two strings hold the same characters.
fn str_eq(a: &str, b: &str) -> (same: bool)
    ensures
        same == (a@ == b@),
{
    let x = String::from_str(a);
    let y = String::from_str(b);
    x == y
}

} // verus!

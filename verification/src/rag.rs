//! Ingestion of a document into a collection, in the two steps that lie
//! before and after the embedding of its chunks.
//!
//! `begin_ingest` extracts and chunks; the caller has the chunk texts
//! embedded; `finish_ingest` gives every chunk a fresh id and admits the
//! batch to the store. A step that fails ends the ingestion; nothing is
//! admitted before the last step succeeds.

use vstd::prelude::*;
use vstd::string::StringExecFns;
use vstd::utf8::encode_utf8;
use crate::chunking::chunks_of;
use crate::error::AppError;
use crate::fresh::new_id;
use crate::docx::BodyPiece;
use crate::file_processor::{
    body_view, docx_text_result, file_type_of, grapheme_clusters, is_pdf_outcome,
    plain_text_result, text_or_failure, FileProcessor, FileType, TextChunk,
};
use crate::batch::{
    all_sealable, expected_dimension, flat, insert_rejection, lengths, row_stores, rows_after,
    some_sealing_can_fail,
};
use crate::lancedb::{
    chunk_texts, password_view, CollectionSpec, DocumentChunk, InsertBatch, LanceDBService, RowSpec,
};
use crate::table_name::table_name_of;
use crate::text::is_blank;

verus! {

/// What an ingestion did: the chunks made of the document, the rows admitted
/// to the store, and the length of the extracted text in bytes of UTF-8.
#[derive(Debug, Clone, Copy, PartialEq, Eq)]
pub struct ProcessResult {
    pub chunks_processed: usize,
    pub chunks_stored: usize,
    pub total_chars: usize,
}

/// A document that was extracted and chunked and waits for its embeddings.
pub struct IngestJob {
    pub text: String,
    pub chunks: Vec<TextChunk>,
}

/// The row that stands for `chunk` of file `file_name` in collection
/// `model_id` under row id `id`.
pub open spec fn row_of(
    id: Seq<char>,
    model_id: Seq<char>,
    file_name: Seq<char>,
    chunk: TextChunk,
) -> RowSpec {
    RowSpec {
        id,
        model_id,
        chunk_text: chunk.text@,
        chunk_index: chunk.index as int,
        file_name,
    }
}

/// Whether the number of every chunk fits a row, which holds it in 32 bits.
pub open spec fn chunk_numbers_fit(chunks: Seq<TextChunk>) -> bool {
    forall|i: int| 0 <= i < chunks.len() ==> (#[trigger] chunks[i]).index <= i32::MAX
}

/// The texts of some chunks, in order.
pub open spec fn job_texts(chunks: Seq<TextChunk>) -> Seq<Seq<char>> {
    Seq::new(chunks.len(), |i: int| chunks[i].text@)
}

impl IngestJob {
    /// The texts of the chunks, in order: what is to be embedded.
    pub fn texts(&self) -> (texts: Vec<String>)
        ensures
            texts.len() == self.chunks.len(),
            forall|i: int| 0 <= i < texts.len() ==> (#[trigger] texts[i])@ == self.chunks[i].text@,
    {
        let mut texts: Vec<String> = Vec::new();
        let mut i: usize = 0;
        while i < self.chunks.len()
            invariant
                i <= self.chunks.len(),
                texts.len() == i,
                forall|k: int| 0 <= k < i ==> (#[trigger] texts[k])@ == self.chunks[k].text@,
            decreases self.chunks.len() - i,
        {
            texts.push(self.chunks[i].text.clone());
            i += 1;
        }
        texts
    }
}

/// Extracts the text of a file, as `FileProcessor::extract_text` does, and
/// chunks it. A text that holds nothing but whitespace ends the ingestion
/// here, whatever the format.
pub fn begin_ingest(
    processor: &FileProcessor,
    extension: Option<&str>,
    data: &[u8],
    docx: Option<&Vec<BodyPiece>>,
    chunk_size: usize,
    overlap: usize,
) -> (r: Result<IngestJob, AppError>)
    ensures
        r matches Ok(job) ==> !is_blank(job.text@) && job.chunks.deep_view() == chunks_of(
            grapheme_clusters(job.text@),
            chunk_size as nat,
            overlap as nat,
        ),
        match extension {
            None => r matches Err(AppError::UnsupportedFormat(e)) && e@.len() == 0,
            Some(ext) => match file_type_of(ext@) {
                None => r matches Err(AppError::UnsupportedFormat(e)) && e@ == ext@,
                Some(FileType::Docx) => match docx_text_result(body_view(docx)) {
                    Ok(text) => r matches Ok(job) && job.text@ == text,
                    Err(e) => r matches Err(f) && f == e,
                },
                Some(FileType::Pdf) => is_pdf_outcome(
                    match r {
                        Ok(job) => Ok(job.text@),
                        Err(e) => Err(e),
                    },
                ),
                Some(_) => match plain_text_result(data@) {
                    Some(text) => match text_or_failure(text) {
                        Ok(t) => r matches Ok(job) && job.text@ == t,
                        Err(e) => r matches Err(f) && f == e,
                    },
                    None => r matches Err(AppError::IOError(_)),
                },
            },
        },
{
    let text = match processor.extract_text(extension, data, docx) {
        Ok(text) => text,
        Err(e) => {
            return Err(e);
        },
    };
    let text = match processor.require_text(text) {
        Ok(text) => text,
        Err(e) => {
            return Err(e);
        },
    };
    let chunks = processor.chunk_text(text.as_str(), chunk_size, overlap);
    Ok(IngestJob { text, chunks })
}

/// Makes the rows for the chunks of a file: each with a fresh id, the
/// collection, the file name, and the text and number of its chunk. Fails
/// with `StorageError` if a chunk number is beyond what a row can hold.
pub fn document_chunks(model_id: &str, file_name: &str, chunks: &Vec<TextChunk>) -> (r: Result<
    Vec<DocumentChunk>,
    AppError,
>)
    ensures
        match r {
            Ok(rows) => rows.len() == chunks.len() && forall|i: int|
                0 <= i < rows.len() ==> (#[trigger] rows[i])@ == row_of(
                    rows[i].id@,
                    model_id@,
                    file_name@,
                    chunks[i],
                ),
            Err(e) => e matches AppError::StorageError(_),
        },
        r is Ok <==> chunk_numbers_fit(chunks@),
{
    let mut rows: Vec<DocumentChunk> = Vec::new();
    let mut i: usize = 0;
    while i < chunks.len()
        invariant
            i <= chunks.len(),
            rows.len() == i,
            forall|k: int| 0 <= k < i ==> (#[trigger] chunks[k]).index <= i32::MAX,
            forall|k: int|
                0 <= k < i ==> (#[trigger] rows[k])@ == row_of(
                    rows[k].id@,
                    model_id@,
                    file_name@,
                    chunks[k],
                ),
        decreases chunks.len() - i,
    {
        let chunk = &chunks[i];
        if chunk.index > 2147483647 {
            return Err(
                AppError::StorageError(String::from_str("a chunk number does not fit a row")),
            );
        }
        rows.push(
            DocumentChunk {
                id: new_id(),
                model_id: String::from_str(model_id),
                chunk_text: chunk.text.clone(),
                chunk_index: chunk.index as i32,
                file_name: String::from_str(file_name),
            },
        );
        i += 1;
    }
    Ok(rows)
}

/// Admits the chunks of a document with their embeddings to collection
/// `model_id`. Hands out what has to be written and the account of the
/// ingestion. A chunk number that does not fit a row is a `StorageError`;
/// otherwise the batch is admitted or refused as the store decides. Where it
/// fails, the store is as it was.
pub fn finish_ingest<T: Copy>(
    store: &mut LanceDBService,
    job: &IngestJob,
    model_id: &str,
    file_name: &str,
    embeddings: Vec<Vec<T>>,
    encrypt: bool,
    password: Option<&str>,
) -> (r: Result<(InsertBatch<T>, ProcessResult), AppError>)
    requires
        old(store).wf(),
    ensures
        final(store).wf(),
        final(store).path() == old(store).path(),
        r is Err ==> final(store)@ == old(store)@,
        !chunk_numbers_fit(job.chunks@) ==> r matches Err(AppError::StorageError(_)),
        chunk_numbers_fit(job.chunks@) ==> match insert_rejection(
            old(store)@,
            model_id@,
            job.chunks@.len(),
            lengths(embeddings@),
            encrypt,
            password is Some,
        ) {
            Some(e) => r matches Err(f) && f == e,
            None => if rows_after(old(store)@, model_id@, job.chunks@.len()) > usize::MAX {
                r matches Err(AppError::StorageError(_))
            } else {
                &&& !encrypt ==> r is Ok
                &&& all_sealable(job_texts(job.chunks@), password_view(password)) ==> r is Ok
                &&& r matches Err(e) ==> e == AppError::EncryptionFailed && some_sealing_can_fail(
                    job_texts(job.chunks@),
                    password_view(password),
                )
            },
        },
        r matches Ok(done) ==> {
            let batch = done.0;
            &&& done.1 == ProcessResult {
                chunks_processed: job.chunks.len(),
                chunks_stored: batch.rows.len(),
                total_chars: encode_utf8(job.text@).len() as usize,
            }
            &&& batch.table_name@ == table_name_of(model_id@)
            &&& batch.rows.len() == job.chunks.len()
            &&& forall|i: int|
                0 <= i < batch.rows.len() ==> row_stores(
                    (#[trigger] batch.rows[i])@,
                    row_of(batch.rows[i].id@, model_id@, file_name@, job.chunks[i]),
                    encrypt,
                    password_view(password),
                )
            &&& batch.vectors@ == flat(embeddings@)
            &&& job.chunks.len() == 0 ==> !batch.create_table && final(store)@ == old(store)@
            &&& job.chunks.len() > 0 ==> {
                &&& batch.dimension == expected_dimension(
                    old(store)@,
                    model_id@,
                    lengths(embeddings@),
                )
                &&& batch.create_table == !old(store)@.contains_key(model_id@)
                &&& final(store)@ == old(store)@.insert(
                    model_id@,
                    CollectionSpec {
                        dimension: batch.dimension as nat,
                        rows: rows_after(old(store)@, model_id@, job.chunks@.len()),
                    },
                )
            }
        },
{
    let rows = match document_chunks(model_id, file_name, &job.chunks) {
        Ok(rows) => rows,
        Err(e) => {
            return Err(e);
        },
    };
    assert(chunk_texts(rows@) =~= job_texts(job.chunks@));
    let batch = match store.store_embeddings(model_id, rows, embeddings, encrypt, password) {
        Ok(batch) => batch,
        Err(e) => {
            return Err(e);
        },
    };
    let result = ProcessResult {
        chunks_processed: job.chunks.len(),
        chunks_stored: batch.rows.len(),
        total_chars: job.text.as_str().len(),
    };
    Ok((batch, result))
}

} // verus!

use mydistinctai::error::AppError;
use mydistinctai::file_processor::{FileProcessor, TextChunk};
use mydistinctai::lancedb::LanceDBService;
use mydistinctai::docx::{BodyPiece, ParagraphPiece, RunPiece};
use mydistinctai::rag::{begin_ingest, document_chunks, finish_ingest, IngestJob, ProcessResult};
use std::path::PathBuf;

#[test]
fn ingesting_a_text_file_stores_its_chunks() {
    let processor = FileProcessor::new();
    let mut store = LanceDBService::new(PathBuf::from("/tmp/ingest"));
    let job = begin_ingest(&processor, Some("txt"), "héllo wörld, again".as_bytes(), None, 8, 2).unwrap();
    assert_eq!(job.text, "héllo wörld, again");
    assert_eq!(job.texts(), vec!["héllo wö", "wörld, a", " again"]);

    let embeddings = vec![vec![0.0f32; 3]; 3];
    let (batch, result) = finish_ingest(&mut store, &job, "kb-1", "hello.txt", embeddings, false, None).unwrap();
    assert_eq!(
        result,
        ProcessResult { chunks_processed: 3, chunks_stored: 3, total_chars: "héllo wörld, again".len() }
    );
    assert_eq!(result.total_chars, 20);
    assert_eq!(batch.table_name, "embeddings_kb_1");
    assert!(batch.create_table);
    assert_eq!(batch.dimension, 3);
    assert_eq!(batch.vectors.len(), 9);
    for (i, row) in batch.rows.iter().enumerate() {
        assert_eq!(row.model_id, "kb-1");
        assert_eq!(row.file_name, "hello.txt");
        assert_eq!(row.chunk_index, i as i32);
        assert_eq!(row.chunk_text, job.chunks[i].text);
        assert_eq!(row.id.len(), 36);
    }
    assert_ne!(batch.rows[0].id, batch.rows[1].id);
    assert_ne!(batch.rows[1].id, batch.rows[2].id);
    assert_eq!(store.get_stats("kb-1").total_chunks, 3);
}

#[test]
fn whitespace_only_file_fails_before_the_store_is_touched() {
    let processor = FileProcessor::new();
    assert_eq!(
        begin_ingest(&processor, Some("txt"), b" \n\t \r\n", None, 10, 2).err(),
        Some(AppError::ExtractionFailed)
    );
    assert_eq!(begin_ingest(&processor, Some("md"), b"", None, 10, 2).err(), Some(AppError::ExtractionFailed));
}

#[test]
fn ingestion_ends_where_extraction_fails() {
    let processor = FileProcessor::new();
    assert_eq!(
        begin_ingest(&processor, Some("rtf"), b"text", None, 10, 2).err(),
        Some(AppError::UnsupportedFormat("rtf".to_string()))
    );
    assert_eq!(
        begin_ingest(&processor, None, b"text", None, 10, 2).err(),
        Some(AppError::UnsupportedFormat(String::new()))
    );
    assert!(matches!(begin_ingest(&processor, Some("txt"), &[0xff], None, 10, 2), Err(AppError::IOError(_))));
    assert_eq!(begin_ingest(&processor, Some("pdf"), b"junk", None, 10, 2).err(), Some(AppError::ExtractionFailed));
    assert_eq!(begin_ingest(&processor, Some("docx"), b"junk", None, 10, 2).err(), Some(AppError::ExtractionFailed));
}

#[test]
fn a_failing_last_step_leaves_the_store_as_it_was() {
    let processor = FileProcessor::new();
    let mut store = LanceDBService::new(PathBuf::from("/tmp/ingest"));
    let job = begin_ingest(&processor, Some("txt"), b"abcdefgh", None, 4, 0).unwrap();
    assert_eq!(job.chunks.len(), 2);

    // one embedding is missing
    let r = finish_ingest(&mut store, &job, "kb", "f.txt", vec![vec![1.0f32]], false, None);
    assert_eq!(r.err(), Some(AppError::InputMismatch { chunks: 2, vectors: 1 }));
    // the embeddings disagree
    let r = finish_ingest(&mut store, &job, "kb", "f.txt", vec![vec![1.0f32], vec![1.0, 2.0]], false, None);
    assert_eq!(r.err(), Some(AppError::DimensionMismatch { index: 1, expected: 1, actual: 2 }));
    // no password
    let r = finish_ingest(&mut store, &job, "kb", "f.txt", vec![vec![1.0f32], vec![2.0]], true, None);
    assert_eq!(r.err(), Some(AppError::MissingPassword));
    assert!(store.list_models().is_empty());

    let (batch, result) =
        finish_ingest(&mut store, &job, "kb", "f.txt", vec![vec![1.0f32], vec![2.0]], true, Some("pw")).unwrap();
    assert_eq!(result, ProcessResult { chunks_processed: 2, chunks_stored: 2, total_chars: 8 });
    assert_ne!(batch.rows[0].chunk_text, "abcd");
    let hits = store.search_similar("kb", &batch.rows, 2, true, Some("pw")).unwrap();
    assert_eq!(hits[0].chunk_text, "abcd");
    assert_eq!(hits[1].chunk_text, "efgh");
}

#[test]
fn chunk_numbers_must_fit_a_row() {
    let chunks = vec![TextChunk { text: "t".to_string(), index: i32::MAX as usize, char_start: 0, char_end: 1 }];
    let rows = document_chunks("m", "f", &chunks).unwrap();
    assert_eq!(rows[0].chunk_index, i32::MAX);
    let chunks = vec![TextChunk { text: "t".to_string(), index: i32::MAX as usize + 1, char_start: 0, char_end: 1 }];
    assert!(matches!(document_chunks("m", "f", &chunks), Err(AppError::StorageError(_))));
    assert!(document_chunks("m", "f", &Vec::new()).unwrap().is_empty());
}

#[test]
fn ingesting_a_docx_file_goes_by_the_body_that_was_read() {
    let processor = FileProcessor::new();
    let body = vec![
        BodyPiece::Paragraph(vec![ParagraphPiece::Run(vec![RunPiece::Text("first".to_string())])]),
        BodyPiece::Other,
        BodyPiece::Paragraph(vec![ParagraphPiece::Run(vec![RunPiece::Text("second".to_string())])]),
    ];
    let job = begin_ingest(&processor, Some("docx"), b"bytes", Some(&body), 100, 0).unwrap();
    assert_eq!(job.text, "first\nsecond\n");
    assert_eq!(job.texts(), vec!["first\nsecond\n"]);
    let blank = vec![BodyPiece::Paragraph(vec![])];
    assert_eq!(
        begin_ingest(&processor, Some("docx"), b"bytes", Some(&blank), 100, 0).err(),
        Some(AppError::ExtractionFailed)
    );
}

#[test]
fn a_chunk_number_that_does_not_fit_ends_the_ingestion() {
    let mut store = LanceDBService::new(PathBuf::from("/tmp/ingest"));
    let job = IngestJob {
        text: "t".to_string(),
        chunks: vec![TextChunk { text: "t".to_string(), index: 3000000000, char_start: 0, char_end: 1 }],
    };
    let r = finish_ingest(&mut store, &job, "kb", "f.txt", vec![vec![1.0f32]], false, None);
    assert!(matches!(r, Err(AppError::StorageError(_))));
    // the number is looked at before the batch
    let r = finish_ingest(&mut store, &job, "kb", "f.txt", Vec::<Vec<f32>>::new(), false, None);
    assert!(matches!(r, Err(AppError::StorageError(_))));
    assert!(store.list_models().is_empty());
}

use mydistinctai::encryption::EncryptionService;
use mydistinctai::error::AppError;
use mydistinctai::batch::{find_mismatch, flatten};
use mydistinctai::lancedb::{DocumentChunk, LanceDBService, ModelStats, SearchResult};
use mydistinctai::search::{format_context, rank_results};
use mydistinctai::table_name::{model_id_of_table, table_name};
use std::path::PathBuf;

fn chunk(id: &str, model_id: &str, text: &str, index: i32, file: &str) -> DocumentChunk {
    DocumentChunk {
        id: id.to_string(),
        model_id: model_id.to_string(),
        chunk_text: text.to_string(),
        chunk_index: index,
        file_name: file.to_string(),
    }
}

fn store() -> LanceDBService {
    LanceDBService::new(PathBuf::from("/tmp/mydistinctai_lancedb_test"))
}

#[test]
fn test_store_and_search_embeddings() {
    let mut service = LanceDBService::new(PathBuf::from("/tmp/mydistinctai_lancedb_test_2"));

    let model_id = "test_model";
    let chunks = vec![chunk("7c9e6679-7425-40de-944b-e07fc1f90ae7", model_id, "This is a test chunk", 0, "test.txt")];

    let embeddings = vec![vec![0.1f32; 1536]]; // Mock 1536-dimension embedding

    let result = service.store_embeddings(model_id, chunks, embeddings, false, None);
    assert!(result.is_ok());
    let batch = result.unwrap();
    assert_eq!(batch.rows.len(), 1);

    assert_eq!(service.get_stats(model_id).total_chunks, 1);

    // Search: the index hands back the one row that was written
    let search_results = service.search_similar(model_id, &batch.rows, 5, false, None);
    assert!(search_results.is_ok());
    let search_results = search_results.unwrap();
    assert!(!search_results.is_empty());
    assert_eq!(search_results.len(), 1);
    assert_eq!(search_results[0].chunk_text, "This is a test chunk");

    // Cleanup
    assert!(service.delete_model_data(model_id));
}

#[test]
fn first_insert_creates_the_collection_with_the_dimension_of_the_batch() {
    let mut service = store();
    let batch = service
        .store_embeddings(
            "m-1",
            vec![chunk("a", "m-1", "one", 0, "f.txt"), chunk("b", "m-1", "two", 1, "f.txt")],
            vec![vec![1u32, 2, 3], vec![4, 5, 6]],
            false,
            None,
        )
        .unwrap();
    assert_eq!(batch.table_name, "embeddings_m_1");
    assert_eq!(batch.dimension, 3);
    assert!(batch.create_table);
    assert_eq!(batch.vectors, vec![1, 2, 3, 4, 5, 6]);
    assert_eq!(batch.rows.len(), 2);
    assert_eq!(batch.rows[1].id, "b");
    assert_eq!(batch.rows[1].model_id, "m-1");
    assert_eq!(batch.rows[1].chunk_text, "two");
    assert_eq!(batch.rows[1].chunk_index, 1);
    assert_eq!(batch.rows[1].file_name, "f.txt");
    assert_eq!(service.list_models(), vec!["m-1".to_string()]);

    let batch = service
        .store_embeddings("m-1", vec![chunk("c", "m-1", "three", 2, "f.txt")], vec![vec![7u32, 8, 9]], false, None)
        .unwrap();
    assert!(!batch.create_table);
    assert_eq!(batch.dimension, 3);
    assert_eq!(service.get_stats("m-1").total_chunks, 3);
}

#[test]
fn numbers_of_chunks_and_vectors_must_agree() {
    let mut service = store();
    let r = service.store_embeddings("m", vec![chunk("a", "m", "t", 0, "f")], Vec::<Vec<f32>>::new(), false, None);
    assert_eq!(r.err(), Some(AppError::InputMismatch { chunks: 1, vectors: 0 }));
    let r = service.store_embeddings("m", Vec::new(), vec![vec![1.0f32], vec![2.0]], false, None);
    assert_eq!(r.err(), Some(AppError::InputMismatch { chunks: 0, vectors: 2 }));
    assert!(service.list_models().is_empty());
}

#[test]
fn empty_batch_changes_nothing() {
    let mut service = store();
    let batch = service.store_embeddings("m", Vec::new(), Vec::<Vec<f32>>::new(), true, None).unwrap();
    assert_eq!(batch.rows.len(), 0);
    assert!(batch.vectors.is_empty());
    assert!(!batch.create_table);
    assert!(service.list_models().is_empty());
    assert_eq!(
        service.search_similar("m", &Vec::new(), 5, false, None).err(),
        Some(AppError::CollectionNotFound("m".to_string()))
    );
}

#[test]
fn vectors_of_one_batch_must_share_the_dimension_of_the_first() {
    let mut service = store();
    let r = service.store_embeddings(
        "m",
        vec![chunk("a", "m", "t", 0, "f"), chunk("b", "m", "u", 1, "f"), chunk("c", "m", "v", 2, "f")],
        vec![vec![1u8, 2], vec![3], vec![]],
        false,
        None,
    );
    assert_eq!(r.err(), Some(AppError::DimensionMismatch { index: 1, expected: 2, actual: 1 }));
    assert!(service.list_models().is_empty());
    assert_eq!(service.get_stats("m"), ModelStats { total_chunks: 0, total_files: 0, table_size_kb: 0 });
}

#[test]
fn mismatched_dimension_leaves_an_existing_collection_as_it_was() {
    let mut service = store();
    service
        .store_embeddings("m", vec![chunk("a", "m", "t", 0, "f")], vec![vec![0.5f32; 4]], false, None)
        .unwrap();
    let before = service.get_stats("m");
    assert_eq!(before.total_chunks, 1);

    // the first vector already disagrees with the collection
    let r = service.store_embeddings("m", vec![chunk("b", "m", "u", 1, "f")], vec![vec![0.5f32; 3]], false, None);
    assert_eq!(r.err(), Some(AppError::DimensionMismatch { index: 0, expected: 4, actual: 3 }));
    assert_eq!(service.get_stats("m"), before);

    // a later one does
    let r = service.store_embeddings(
        "m",
        vec![chunk("b", "m", "u", 1, "f"), chunk("c", "m", "v", 2, "f")],
        vec![vec![0.5f32; 4], vec![0.5f32; 5]],
        false,
        None,
    );
    assert_eq!(r.err(), Some(AppError::DimensionMismatch { index: 1, expected: 4, actual: 5 }));
    assert_eq!(service.get_stats("m"), before);
    assert_eq!(service.list_models(), vec!["m".to_string()]);
}

#[test]
fn encryption_needs_a_password() {
    let mut service = store();
    let r = service.store_embeddings("m", vec![chunk("a", "m", "t", 0, "f")], vec![vec![1i64]], true, None);
    assert_eq!(r.err(), Some(AppError::MissingPassword));
    assert!(service.list_models().is_empty());
    // the dimension is looked at first
    let r = service.store_embeddings(
        "m",
        vec![chunk("a", "m", "t", 0, "f"), chunk("b", "m", "u", 1, "f")],
        vec![vec![1i64], vec![]],
        true,
        None,
    );
    assert_eq!(r.err(), Some(AppError::DimensionMismatch { index: 1, expected: 1, actual: 0 }));
}

#[test]
fn encrypted_rows_open_under_the_password_only() {
    let mut service = store();
    let batch = service
        .store_embeddings("m", vec![chunk("a", "m", "top secret", 3, "f.pdf")], vec![vec![1.0f64, 2.0]], true, Some("pw"))
        .unwrap();
    assert_ne!(batch.rows[0].chunk_text, "top secret");
    assert_eq!(batch.rows[0].chunk_text.len(), 2 * (16 + 12 + "top secret".len() + 16));
    assert_eq!(batch.rows[0].id, "a");
    assert_eq!(batch.rows[0].chunk_index, 3);
    assert_eq!(EncryptionService::new().decrypt(&batch.rows[0].chunk_text, "pw").unwrap(), "top secret");

    let hits = service.search_similar("m", &batch.rows, 5, true, Some("pw")).unwrap();
    assert_eq!(hits.len(), 1);
    assert_eq!(hits[0].chunk_text, "top secret");
    assert_eq!(hits[0].file_name, "f.pdf");
    assert_eq!(hits[0].chunk_index, 3);

    assert_eq!(service.search_similar("m", &batch.rows, 5, true, None).err(), Some(AppError::MissingPassword));
    assert_eq!(
        service.search_similar("m", &batch.rows, 5, true, Some("other")).err(),
        Some(AppError::DecryptionFailed)
    );
    // read as plain rows, the sealed text comes back as it is stored
    let hits = service.search_similar("m", &batch.rows, 5, false, None).unwrap();
    assert_eq!(hits[0].chunk_text, batch.rows[0].chunk_text);
}

#[test]
fn one_row_that_does_not_open_fails_the_whole_search() {
    let encryption = EncryptionService::new();
    let good = encryption.encrypt("fine", "pw").unwrap();
    let rows = vec![chunk("a", "m", &good, 0, "f"), chunk("b", "m", "not sealed", 1, "f")];
    assert_eq!(rank_results(&encryption, &rows, 5, true, Some("pw")).err(), Some(AppError::DecryptionFailed));
    // a row beyond the limit is not looked at
    let hits = rank_results(&encryption, &rows, 1, true, Some("pw")).unwrap();
    assert_eq!(hits.len(), 1);
    assert_eq!(hits[0].chunk_text, "fine");
    // without rows to read there is nothing to fail on
    assert!(rank_results(&encryption, &Vec::new(), 5, true, None).unwrap().is_empty());
    assert!(rank_results(&encryption, &rows, 0, true, None).unwrap().is_empty());
}

#[test]
fn search_on_a_collection_that_was_never_written_is_an_error() {
    let mut service = store();
    assert_eq!(
        service.search_similar("ghost", &Vec::new(), 5, false, None).err(),
        Some(AppError::CollectionNotFound("ghost".to_string()))
    );
    assert_eq!(
        service.get_context("ghost", &Vec::new(), 5, false, None),
        Err(AppError::CollectionNotFound("ghost".to_string()))
    );
    // a collection that exists and has no match is an empty success
    assert!(service.ensure_collection("real", 8));
    assert!(service.search_similar("real", &Vec::new(), 5, false, None).unwrap().is_empty());
    assert_eq!(service.get_context("real", &Vec::new(), 5, false, None), Ok(String::new()));
}

#[test]
fn hits_keep_the_order_of_the_index_and_stop_at_the_limit() {
    let mut service = store();
    service.ensure_collection("m", 2);
    let rows = vec![
        chunk("a", "m", "first", 4, "a.txt"),
        chunk("b", "m", "second", 0, "b.txt"),
        chunk("c", "m", "third", 9, "a.txt"),
    ];
    let hits = service.search_similar("m", &rows, 2, false, None).unwrap();
    assert_eq!(hits.len(), 2);
    assert_eq!((hits[0].chunk_text.as_str(), hits[0].rank, hits[0].limit), ("first", 0, 2));
    assert_eq!((hits[1].chunk_text.as_str(), hits[1].rank, hits[1].limit), ("second", 1, 2));
    assert_eq!(hits[0].similarity_parts(), (2, 2));
    assert_eq!(hits[1].similarity_parts(), (1, 2));
    assert!(service.search_similar("m", &rows, 0, false, None).unwrap().is_empty());
    let hits = service.search_similar("m", &rows, 10, false, None).unwrap();
    assert_eq!(hits.len(), 3);
    assert_eq!(hits[2].similarity_parts(), (8, 10));
}

#[test]
fn context_is_blocks_with_a_rule_between_them() {
    let mut service = store();
    service.ensure_collection("m", 2);
    let rows = vec![chunk("a", "m", "alpha\nbeta", 0, "notes.md"), chunk("b", "m", "gamma", 12, "book.pdf")];
    assert_eq!(
        service.get_context("m", &rows, 5, false, None).unwrap(),
        "From notes.md (chunk 0):\nalpha\nbeta\n\n---\n\nFrom book.pdf (chunk 12):\ngamma"
    );
    assert_eq!(
        service.get_context("m", &rows, 1, false, None).unwrap(),
        "From notes.md (chunk 0):\nalpha\nbeta"
    );
    assert_eq!(service.get_context("m", &rows, 0, false, None).unwrap(), "");
}

#[test]
fn chunk_numbers_are_written_in_decimal() {
    let hit = |n: i32| SearchResult {
        chunk_text: "t".to_string(),
        rank: 0,
        limit: 1,
        file_name: "f".to_string(),
        chunk_index: n,
    };
    assert_eq!(format_context(&vec![hit(-7)]), "From f (chunk -7):\nt");
    assert_eq!(format_context(&vec![hit(i32::MAX)]), "From f (chunk 2147483647):\nt");
    assert_eq!(format_context(&vec![hit(i32::MIN)]), "From f (chunk -2147483648):\nt");
    assert_eq!(format_context(&vec![hit(10), hit(100)]), "From f (chunk 10):\nt\n\n---\n\nFrom f (chunk 100):\nt");
    assert_eq!(format_context(&Vec::new()), "");
}

#[test]
fn ensure_collection_is_idempotent_and_keeps_the_first_dimension() {
    let mut service = store();
    assert!(service.ensure_collection("m", 4));
    assert!(!service.ensure_collection("m", 8));
    assert!(!service.ensure_collection("m", 4));
    assert_eq!(service.list_models(), vec!["m".to_string()]);
    let r = service.store_embeddings("m", vec![chunk("a", "m", "t", 0, "f")], vec![vec![0u8; 8]], false, None);
    assert_eq!(r.err(), Some(AppError::DimensionMismatch { index: 0, expected: 4, actual: 8 }));
    assert!(service.store_embeddings("m", vec![chunk("a", "m", "t", 0, "f")], vec![vec![0u8; 4]], false, None).is_ok());
}

#[test]
fn stats_estimate_files_and_size_from_the_rows() {
    let mut service = store();
    assert_eq!(service.get_stats("m"), ModelStats { total_chunks: 0, total_files: 0, table_size_kb: 0 });
    assert!(service.register_table("embeddings_m", 3, 25));
    assert_eq!(service.get_stats("m"), ModelStats { total_chunks: 25, total_files: 3, table_size_kb: 250 });
    assert!(service.register_table("embeddings_n", 3, 30));
    assert_eq!(service.get_stats("n"), ModelStats { total_chunks: 30, total_files: 3, table_size_kb: 300 });
    assert!(service.register_table("embeddings_o", 3, 1));
    assert_eq!(service.get_stats("o"), ModelStats { total_chunks: 1, total_files: 1, table_size_kb: 10 });
    assert!(service.register_table("embeddings_e", 3, 0));
    assert_eq!(service.get_stats("e"), ModelStats { total_chunks: 0, total_files: 0, table_size_kb: 0 });
    assert!(service.register_table("embeddings_x", 3, usize::MAX));
    assert_eq!(service.get_stats("x").total_files, usize::MAX / 10 + 1);
    assert_eq!(service.get_stats("x").table_size_kb, usize::MAX as u128 * 10);
}

#[test]
fn rows_beyond_what_can_be_counted_are_refused() {
    let mut service = store();
    assert!(service.register_table("embeddings_m", 1, usize::MAX));
    let r = service.store_embeddings("m", vec![chunk("a", "m", "t", 0, "f")], vec![vec![0u8]], false, None);
    assert!(matches!(r, Err(AppError::StorageError(_))));
    assert_eq!(service.get_stats("m").total_chunks, usize::MAX);
}

#[test]
fn only_tables_of_collections_are_registered_and_each_once() {
    let mut service = store();
    assert!(!service.register_table("other_table", 3, 5));
    assert!(!service.register_table("embeddings", 3, 5));
    assert!(service.register_table("embeddings_a_b-c", 3, 5));
    assert!(!service.register_table("embeddings_a_b-c", 4, 6));
    assert!(service.register_table("embeddings_", 3, 5));
    assert_eq!(service.list_models(), vec!["a-b_c".to_string(), String::new()]);
    assert_eq!(service.get_stats("a-b_c").total_chunks, 5);
}

#[test]
fn deleting_removes_one_collection_and_clearing_all_of_them() {
    let mut service = store();
    service.ensure_collection("a", 1);
    service.ensure_collection("b-1", 1);
    service.ensure_collection("c_2", 1);
    assert!(service.delete_model_data("b-1"));
    assert!(!service.delete_model_data("b-1"));
    assert!(!service.delete_model_data("never"));
    assert_eq!(service.list_models(), vec!["a".to_string(), "c_2".to_string()]);
    assert_eq!(service.clear_all(), vec!["embeddings_a".to_string(), "embeddings_c-2".to_string()]);
    assert!(service.list_models().is_empty());
    assert!(service.clear_all().is_empty());
    assert_eq!(
        service.search_similar("a", &Vec::new(), 1, false, None).err(),
        Some(AppError::CollectionNotFound("a".to_string()))
    );
}

#[test]
fn table_names_swap_the_separators_and_can_be_undone() {
    assert_eq!(table_name("test_model"), "embeddings_test-model");
    assert_eq!(table_name("7c9e6679-7425-40de"), "embeddings_7c9e6679_7425_40de");
    assert_eq!(table_name(""), "embeddings_");
    for id in ["test_model", "a-b_c", "", "--__", "embeddings_x", "ünï-cödé_"] {
        assert_eq!(model_id_of_table(&table_name(id)), Some(id.to_string()));
    }
    assert_eq!(model_id_of_table("embeddings_a_b"), Some("a-b".to_string()));
    assert_eq!(model_id_of_table("embedding_a"), None);
    assert_eq!(model_id_of_table("Embeddings_a"), None);
    assert_eq!(model_id_of_table(""), None);
}

#[test]
fn the_store_remembers_its_path() {
    assert_eq!(store().db_path(), &PathBuf::from("/tmp/mydistinctai_lancedb_test"));
}

#[test]
fn vectors_are_laid_out_one_after_the_other() {
    assert_eq!(flatten(&vec![vec![1.5f32, 2.5], vec![], vec![3.5]]), vec![1.5, 2.5, 3.5]);
    assert!(flatten(&Vec::<Vec<f32>>::new()).is_empty());
    assert_eq!(find_mismatch(&vec![vec![1, 2], vec![3, 4]], 2), None);
    assert_eq!(find_mismatch(&vec![vec![1, 2], vec![3], vec![]], 2), Some(1));
    assert_eq!(find_mismatch(&vec![vec![1, 2]], 3), Some(0));
    assert_eq!(find_mismatch(&Vec::<Vec<u8>>::new(), 3), None);
}

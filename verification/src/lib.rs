//! Local-first retrieval engine for a desktop assistant.
//!
//! Documents are turned into text (`file_processor`, `docx`, `pdf`), cut
//! into chunks along grapheme clusters (`chunking`), and admitted with their
//! embedding vectors to per-collection tables (`lancedb`, `batch`,
//! `table_name`), optionally with their text encrypted under a password
//! (`encryption`, `hex_codec`). A search hands back the rows nearest to a
//! query as ranked hits or as one context text (`search`); `rag` joins the
//! steps of an ingestion. `storage`, `ollama` and `database` hold the rules
//! of the key-value store, of the generation model and of the relational
//! records.
//!
//! Nothing here touches a file, a socket or a table: callers read and write,
//! and hand over bytes and rows.

pub mod error;
pub mod text;
pub mod chunking;
pub mod file_processor;
pub mod docx;
pub mod pdf;
pub mod hex_codec;
pub mod encryption;
pub mod table_name;
pub mod lancedb;
pub mod batch;
pub mod search;
pub mod rag;
pub mod storage;
pub mod ollama;
mod fresh;
pub mod database;

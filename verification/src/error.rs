//! The failures the engine reports.

use vstd::prelude::*;
use crate::text::{decimal_digits, push_decimal_digits, push_str_chars, string_from_chars};

verus! {

/// Everything that can go wrong in the engine, by cause.
#[derive(Debug, Clone, PartialEq, Eq)]
pub enum AppError {
    /// The file extension names no supported document format.
    UnsupportedFormat(String),
    /// A document was read but held no text beyond whitespace.
    ExtractionFailed,
    /// A batch with a different number of chunks and vectors.
    InputMismatch { chunks: usize, vectors: usize },
    /// A vector whose length differs from the dimension that is in force.
    DimensionMismatch { index: usize, expected: usize, actual: usize },
    /// Encryption or decryption was asked for without a password.
    MissingPassword,
    /// The payload could not be protected.
    EncryptionFailed,
    /// The payload is corrupt or the password is wrong.
    DecryptionFailed,
    /// The collection was never created.
    CollectionNotFound(String),
    /// The embedding provider answered with an error.
    ProviderError(String),
    /// The storage layer failed.
    StorageError(String),
    /// Bytes could not be read as the text they were meant to be.
    IOError(String),
}

/// What an error says in words.
pub open spec fn message_of(e: AppError) -> Seq<char> {
    match e {
        AppError::UnsupportedFormat(ext) => "Unsupported file type: "@ + ext@,
        AppError::ExtractionFailed => "No text could be extracted"@,
        AppError::InputMismatch { chunks, vectors } => "Chunks and embeddings length mismatch: "@
            + decimal_digits(chunks as nat) + " chunks, "@ + decimal_digits(vectors as nat)
            + " embeddings"@,
        AppError::DimensionMismatch { index, expected, actual } =>
            "Embedding dimension mismatch at index "@ + decimal_digits(index as nat)
                + ": expected "@ + decimal_digits(expected as nat) + ", got "@ + decimal_digits(
                actual as nat,
            ),
        AppError::MissingPassword => "Password required"@,
        AppError::EncryptionFailed => "Encryption failed"@,
        AppError::DecryptionFailed => "Decryption failed"@,
        AppError::CollectionNotFound(id) => "Collection not found: "@ + id@,
        AppError::ProviderError(m) => "Provider error: "@ + m@,
        AppError::StorageError(m) => "Storage error: "@ + m@,
        AppError::IOError(m) => "IO error: "@ + m@,
    }
}

impl AppError {
    /// The error in words.
    pub fn message(&self) -> (text: String)
        ensures
            text@ == message_of(*self),
    {
        let mut out: Vec<char> = Vec::new();
        match self {
            AppError::UnsupportedFormat(ext) => {
                push_str_chars(&mut out, "Unsupported file type: ");
                push_str_chars(&mut out, ext.as_str());
            },
            AppError::ExtractionFailed => {
                push_str_chars(&mut out, "No text could be extracted");
            },
            AppError::InputMismatch { chunks, vectors } => {
                push_str_chars(&mut out, "Chunks and embeddings length mismatch: ");
                push_decimal_digits(&mut out, *chunks as u64);
                push_str_chars(&mut out, " chunks, ");
                push_decimal_digits(&mut out, *vectors as u64);
                push_str_chars(&mut out, " embeddings");
            },
            AppError::DimensionMismatch { index, expected, actual } => {
                push_str_chars(&mut out, "Embedding dimension mismatch at index ");
                push_decimal_digits(&mut out, *index as u64);
                push_str_chars(&mut out, ": expected ");
                push_decimal_digits(&mut out, *expected as u64);
                push_str_chars(&mut out, ", got ");
                push_decimal_digits(&mut out, *actual as u64);
            },
            AppError::MissingPassword => {
                push_str_chars(&mut out, "Password required");
            },
            AppError::EncryptionFailed => {
                push_str_chars(&mut out, "Encryption failed");
            },
            AppError::DecryptionFailed => {
                push_str_chars(&mut out, "Decryption failed");
            },
            AppError::CollectionNotFound(id) => {
                push_str_chars(&mut out, "Collection not found: ");
                push_str_chars(&mut out, id.as_str());
            },
            AppError::ProviderError(m) => {
                push_str_chars(&mut out, "Provider error: ");
                push_str_chars(&mut out, m.as_str());
            },
            AppError::StorageError(m) => {
                push_str_chars(&mut out, "Storage error: ");
                push_str_chars(&mut out, m.as_str());
            },
            AppError::IOError(m) => {
                push_str_chars(&mut out, "IO error: ");
                push_str_chars(&mut out, m.as_str());
            },
        }
        string_from_chars(&out)
    }
}

} // verus!

//! Turning documents into chunks: format detection, text extraction and the
//! grapheme-aware chunker.

use vstd::prelude::*;
use vstd::string::StringExecFns;
use unicode_segmentation::UnicodeSegmentation;
use vstd::slice::slice_to_vec;
use vstd::utf8::{decode_utf8, valid_utf8};
use crate::chunking::{
    blank_text_has_no_chunks, chunks_of, emitted, stride, window_text, windows, windows_from,
    ChunkSpec,
};
use crate::docx::{body_text, text_of_body, BodyPiece};
use crate::error::AppError;
use crate::pdf::{document_pages, document_text, joined_text, load_pdf};
use crate::text::{
    ascii_lowercase, is_blank, str_is_blank, string_from_utf8, to_ascii_lowercase,
};

verus! {

/// The document formats that text can be extracted from.
#[derive(Debug, Clone, Copy, PartialEq, Eq)]
pub enum FileType {
    Pdf,
    Docx,
    Txt,
    Md,
    Csv,
}

/// The format that a file extension stands for, whatever the case of its
/// ASCII letters.
pub open spec fn file_type_of(ext: Seq<char>) -> Option<FileType> {
    let e = ascii_lowercase(ext);
    if e == "pdf"@ {
        Some(FileType::Pdf)
    } else if e == "docx"@ {
        Some(FileType::Docx)
    } else if e == "txt"@ {
        Some(FileType::Txt)
    } else if e == "md"@ {
        Some(FileType::Md)
    } else if e == "csv"@ {
        Some(FileType::Csv)
    } else {
        None
    }
}

impl FileType {
    /// Detects the format from a file extension, given without its dot.
    pub fn from_extension(ext: &str) -> (r: Result<FileType, AppError>)
        ensures
            match file_type_of(ext@) {
                Some(t) => r == Ok::<FileType, AppError>(t),
                None => r matches Err(AppError::UnsupportedFormat(e)) && e@ == ext@,
            },
    {
        let lower = to_ascii_lowercase(ext);
        if lower == String::from_str("pdf") {
            Ok(FileType::Pdf)
        } else if lower == String::from_str("docx") {
            Ok(FileType::Docx)
        } else if lower == String::from_str("txt") {
            Ok(FileType::Txt)
        } else if lower == String::from_str("md") {
            Ok(FileType::Md)
        } else if lower == String::from_str("csv") {
            Ok(FileType::Csv)
        } else {
            Err(AppError::UnsupportedFormat(String::from_str(ext)))
        }
    }
}

/// What extraction yields from a text that was read: the text itself, unless
/// it is blank.
pub open spec fn text_or_failure(text: Seq<char>) -> Result<Seq<char>, AppError> {
    if is_blank(text) {
        Err(AppError::ExtractionFailed)
    } else {
        Ok(text)
    }
}

/// A text result by the characters it holds.
pub open spec fn text_result(r: Result<String, AppError>) -> Result<Seq<char>, AppError> {
    match r {
        Ok(t) => Ok(t@),
        Err(e) => Err(e),
    }
}

/// The body of a DOCX file as its reader made it, or nothing where the
/// reader rejected the file.
pub open spec fn body_view(docx: Option<&Vec<BodyPiece>>) -> Option<Seq<BodyPiece>> {
    match docx {
        Some(body) => Some(body@),
        None => None,
    }
}

/// What extraction yields from a DOCX file: the text of its body, unless the
/// file was rejected or the text is blank.
pub open spec fn docx_text_result(docx: Option<Seq<BodyPiece>>) -> Result<Seq<char>, AppError> {
    match docx {
        Some(body) => text_or_failure(body_text(body)),
        None => Err(AppError::ExtractionFailed),
    }
}

/// What extraction yields from a PDF document that was read: the text of
/// its pages, unless that is blank.
pub open spec fn pdf_text_result(doc: lopdf::Document) -> Result<Seq<char>, AppError> {
    text_or_failure(joined_text(document_pages(doc)))
}

/// Whether `r` is what extraction can yield from the bytes of a PDF file:
/// the failure to read them as a document, or what some document yields.
/// Which document the bytes are read as is the reader's answer.
pub open spec fn is_pdf_outcome(r: Result<Seq<char>, AppError>) -> bool {
    r == Err::<Seq<char>, AppError>(AppError::ExtractionFailed) || exists|doc: lopdf::Document|
        r == #[trigger] pdf_text_result(doc)
}

/// What reading a plain text file yields: its characters, if the bytes are
/// UTF-8.
pub open spec fn plain_text_result(data: Seq<u8>) -> Option<Seq<char>> {
    if valid_utf8(data) {
        Some(decode_utf8(data))
    } else {
        None
    }
}

/// What is known of a file before it is read: its name, its format and its
/// size in bytes.
#[derive(Debug, Clone)]
pub struct FileInfo {
    pub name: String,
    pub file_type: FileType,
    pub size_bytes: u64,
}

/// A piece of a document: its text, its number among the chunks of the
/// document, and the grapheme clusters `[char_start, char_end)` it spans.
#[derive(Debug, Clone)]
pub struct TextChunk {
    pub text: String,
    pub index: usize,
    pub char_start: usize,
    pub char_end: usize,
}

impl View for TextChunk {
    type V = ChunkSpec;

    open spec fn view(&self) -> ChunkSpec {
        ChunkSpec {
            text: self.text@,
            index: self.index as nat,
            char_start: self.char_start as nat,
            char_end: self.char_end as nat,
        }
    }
}

impl DeepView for TextChunk {
    type V = ChunkSpec;

    open spec fn deep_view(&self) -> ChunkSpec {
        self@
    }
}

/// The extended grapheme clusters of a text, in order, as
/// `unicode_segmentation` cuts them.
pub uninterp spec fn grapheme_clusters(text: Seq<char>) -> Seq<Seq<char>>;

/// Calls `UnicodeSegmentation::graphemes` with extended clusters and copies
/// each cluster into a `String`. Trusted: the result is the segmentation
/// named by `grapheme_clusters`; the clusters are slices of the text that
/// follow one another from its start to its end, so none is empty and
/// together they spell the text.
#[verifier::external_body]
fn split_graphemes(text: &str) -> (out: Vec<String>)
    ensures
        out.deep_view() == grapheme_clusters(text@),
        out.deep_view().flatten() == text@,
        forall|i: int| 0 <= i < out.len() ==> (#[trigger] out[i])@.len() > 0,
{
    text.graphemes(true).map(|g| g.to_string()).collect()
}

/// Concatenates `parts[start..end]`.
fn join_range(parts: &Vec<String>, start: usize, end: usize) -> (out: String)
    requires
        start <= end <= parts.len(),
    ensures
        out@ == window_text(parts.deep_view(), (start as nat, end as nat)),
{
    let mut out = String::new();
    let mut i = start;
    while i < end
        invariant
            start <= i <= end <= parts.len(),
            out@ == parts.deep_view().subrange(start as int, i as int).flatten(),
        decreases end - i,
    {
        proof {
            let d = parts.deep_view();
            assert(d.subrange(start as int, i + 1) =~= d.subrange(start as int, i as int).push(
                d[i as int],
            ));
            d.subrange(start as int, i as int).lemma_flatten_push(d[i as int]);
        }
        out.append(parts[i].as_str());
        i += 1;
    }
    out
}

/// The document processor: extraction of text from files and chunking.
pub struct FileProcessor;

impl FileProcessor {
    pub fn new() -> (p: Self) {
        FileProcessor
    }

    /// Passes a text on unless it is blank.
    pub fn require_text(&self, text: String) -> (r: Result<String, AppError>)
        ensures
            text_result(r) == text_or_failure(text@),
    {
        if str_is_blank(text.as_str()) {
            Err(AppError::ExtractionFailed)
        } else {
            Ok(text)
        }
    }

    /// Reads the bytes of a text, markdown or CSV file as UTF-8.
    pub fn extract_plain_text(&self, data: &[u8]) -> (r: Result<String, AppError>)
        ensures
            match plain_text_result(data@) {
                Some(text) => r matches Ok(t) && t@ == text,
                None => r matches Err(AppError::IOError(_)),
            },
    {
        match string_from_utf8(slice_to_vec(data)) {
            Some(text) => Ok(text),
            None => Err(AppError::IOError(String::from_str("stream did not contain valid UTF-8"))),
        }
    }

    /// Extracts the text of a DOCX file from the body that its reader made:
    /// the text of each paragraph of the body followed by a line feed. Fails
    /// if the reader rejected the file, or if the body holds no text beyond
    /// whitespace.
    pub fn extract_docx(&self, docx: Option<&Vec<BodyPiece>>) -> (r: Result<String, AppError>)
        ensures
            text_result(r) == docx_text_result(body_view(docx)),
    {
        match docx {
            Some(body) => {
                let text = text_of_body(body);
                self.require_text(text)
            },
            None => Err(AppError::ExtractionFailed),
        }
    }

    /// Extracts the text of a PDF document that was read: the text of each
    /// page that can be read, in page order, each followed by a line feed.
    /// Fails if that holds no text beyond whitespace.
    pub fn extract_pdf_document(&self, doc: &lopdf::Document) -> (r: Result<String, AppError>)
        ensures
            text_result(r) == pdf_text_result(*doc),
    {
        let text = document_text(doc);
        self.require_text(text)
    }

    /// Extracts the text of a PDF file: what `extract_pdf_document` yields
    /// for the document that the bytes are read as. Fails if they cannot be
    /// read as PDF.
    pub fn extract_pdf(&self, data: &[u8]) -> (r: Result<String, AppError>)
        ensures
            is_pdf_outcome(text_result(r)),
    {
        match load_pdf(data) {
            Some(doc) => self.extract_pdf_document(&doc),
            None => Err(AppError::ExtractionFailed),
        }
    }

    /// Extracts the text of a file, by the format that its extension names:
    /// from its bytes, or, for a DOCX file, from the body `docx` that its
    /// reader made of them. A missing or unknown extension is refused before
    /// either is looked at.
    pub fn extract_text(
        &self,
        extension: Option<&str>,
        data: &[u8],
        docx: Option<&Vec<BodyPiece>>,
    ) -> (r: Result<String, AppError>)
        ensures
            match extension {
                None => r matches Err(AppError::UnsupportedFormat(e)) && e@.len() == 0,
                Some(ext) => match file_type_of(ext@) {
                    None => r matches Err(AppError::UnsupportedFormat(e)) && e@ == ext@,
                    Some(FileType::Docx) => text_result(r) == docx_text_result(body_view(docx)),
                    Some(FileType::Pdf) => is_pdf_outcome(text_result(r)),
                    Some(_) => match plain_text_result(data@) {
                        Some(text) => r matches Ok(t) && t@ == text,
                        None => r matches Err(AppError::IOError(_)),
                    },
                },
            },
    {
        match extension {
            None => Err(AppError::UnsupportedFormat(String::new())),
            Some(ext) => match FileType::from_extension(ext) {
                Err(e) => Err(e),
                Ok(FileType::Pdf) => self.extract_pdf(data),
                Ok(FileType::Docx) => self.extract_docx(docx),
                Ok(_) => self.extract_plain_text(data),
            },
        }
    }

    /// Extracts the text of a file as `extract_text` does and chunks it.
    pub fn process_file(
        &self,
        extension: Option<&str>,
        data: &[u8],
        docx: Option<&Vec<BodyPiece>>,
        chunk_size: usize,
        overlap: usize,
    ) -> (r: Result<(String, Vec<TextChunk>), AppError>)
        ensures
            r matches Ok(p) ==> p.1.deep_view() == chunks_of(
                grapheme_clusters(p.0@),
                chunk_size as nat,
                overlap as nat,
            ),
            match extension {
                None => r matches Err(AppError::UnsupportedFormat(e)) && e@.len() == 0,
                Some(ext) => match file_type_of(ext@) {
                    None => r matches Err(AppError::UnsupportedFormat(e)) && e@ == ext@,
                    Some(FileType::Docx) => match docx_text_result(body_view(docx)) {
                        Ok(text) => r matches Ok(p) && p.0@ == text,
                        Err(e) => r matches Err(f) && f == e,
                    },
                    Some(FileType::Pdf) => is_pdf_outcome(
                        match r {
                            Ok(p) => Ok(p.0@),
                            Err(e) => Err(e),
                        },
                    ),
                    Some(_) => match plain_text_result(data@) {
                        Some(text) => r matches Ok(p) && p.0@ == text,
                        None => r matches Err(AppError::IOError(_)),
                    },
                },
            },
    {
        match self.extract_text(extension, data, docx) {
            Ok(text) => {
                let chunks = self.chunk_text(text.as_str(), chunk_size, overlap);
                Ok((text, chunks))
            },
            Err(e) => Err(e),
        }
    }

    /// Describes a file by its name, the format that its extension names and
    /// its size. A file whose name cannot be told is called `unknown`.
    pub fn get_file_info(
        &self,
        file_name: Option<&str>,
        extension: Option<&str>,
        size_bytes: u64,
    ) -> (r: Result<FileInfo, AppError>)
        ensures
            match extension {
                None => r matches Err(AppError::UnsupportedFormat(e)) && e@.len() == 0,
                Some(ext) => match file_type_of(ext@) {
                    None => r matches Err(AppError::UnsupportedFormat(e)) && e@ == ext@,
                    Some(t) => r matches Ok(info) && info.file_type == t && info.size_bytes
                        == size_bytes && info.name@ == match file_name {
                        Some(name) => name@,
                        None => "unknown"@,
                    },
                },
            },
    {
        let ext = match extension {
            Some(ext) => ext,
            None => {
                return Err(AppError::UnsupportedFormat(String::new()));
            },
        };
        let file_type = match FileType::from_extension(ext) {
            Ok(t) => t,
            Err(e) => {
                return Err(e);
            },
        };
        let name = match file_name {
            Some(name) => String::from_str(name),
            None => String::from_str("unknown"),
        };
        Ok(FileInfo { name, file_type, size_bytes })
    }

    /// Whether a file of `size_bytes` bytes is within a limit given in
    /// mebibytes.
    pub fn validate_file_size(&self, size_bytes: u64, max_size_mb: u64) -> (ok: bool)
        ensures
            ok == (size_bytes <= max_size_mb * 1024 * 1024),
    {
        let limit: u128 = (max_size_mb as u128) * 1024 * 1024;
        (size_bytes as u128) <= limit
    }

    /// Chunks a text that is already cut into grapheme clusters.
    ///
    /// Windows of `chunk_size` clusters are taken `stride(chunk_size, overlap)`
    /// apart until one reaches the end of the text; those that are not blank
    /// become the chunks, numbered from 0 in order.
    pub fn chunk_graphemes(&self, graphemes: &Vec<String>, chunk_size: usize, overlap: usize) -> (chunks:
        Vec<TextChunk>)
        ensures
            chunks.deep_view() == chunks_of(
                graphemes.deep_view(),
                chunk_size as nat,
                overlap as nat,
            ),
    {
        let total = graphemes.len();
        let step = if chunk_size > overlap {
            chunk_size - overlap
        } else {
            1
        };
        let ghost g = graphemes.deep_view();
        let ghost all = windows(total as nat, chunk_size as nat, overlap as nat);
        let ghost mut visited: Seq<(nat, nat)> = Seq::empty();
        let mut chunks: Vec<TextChunk> = Vec::new();
        let mut start: usize = 0;
        while start < total
            invariant
                start <= total,
                total == graphemes.len(),
                g == graphemes.deep_view(),
                step == stride(chunk_size as nat, overlap as nat),
                all == visited + windows_from(
                    total as nat,
                    chunk_size as nat,
                    step as nat,
                    start as nat,
                ),
                chunks.deep_view() == emitted(g, visited),
            decreases total - start,
        {
            let end = if chunk_size >= total - start {
                total
            } else {
                start + chunk_size
            };
            let text = join_range(graphemes, start, end);
            let ghost w = (start as nat, end as nat);
            if !str_is_blank(text.as_str()) {
                let index = chunks.len();
                chunks.push(TextChunk { text, index, char_start: start, char_end: end });
            }
            proof {
                assert(visited.push(w).drop_last() =~= visited);
                visited = visited.push(w);
            }
            if end >= total {
                start = total;
            } else {
                start = start + step;
            }
        }
        chunks
    }

    /// Chunks a text by grapheme clusters, so that no cluster is split. The
    /// clusters spell the text; a text that holds nothing but whitespace,
    /// the empty text among them, has no chunks.
    pub fn chunk_text(&self, text: &str, chunk_size: usize, overlap: usize) -> (chunks: Vec<
        TextChunk,
    >)
        ensures
            chunks.deep_view() == chunks_of(
                grapheme_clusters(text@),
                chunk_size as nat,
                overlap as nat,
            ),
            grapheme_clusters(text@).flatten() == text@,
            forall|i: int|
                0 <= i < grapheme_clusters(text@).len() ==> (#[trigger] grapheme_clusters(
                    text@,
                )[i]).len() > 0,
            is_blank(text@) ==> chunks.len() == 0,
    {
        let graphemes = split_graphemes(text);
        let chunks = self.chunk_graphemes(&graphemes, chunk_size, overlap);
        proof {
            if is_blank(text@) {
                blank_text_has_no_chunks(graphemes.deep_view(), chunk_size as nat, overlap as nat);
            }
        }
        assert(chunks.deep_view().len() == chunks.len());
        assert forall|i: int| 0 <= i < grapheme_clusters(text@).len() implies (
        #[trigger] grapheme_clusters(text@)[i]).len() > 0 by {
            assert(graphemes.deep_view()[i] == graphemes[i]@);
        }
        chunks
    }
}

} // verus!

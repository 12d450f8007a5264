use mydistinctai::file_processor::{FileProcessor, TextChunk};

fn spans(chunks: &[TextChunk]) -> Vec<(usize, usize)> {
    chunks.iter().map(|c| (c.char_start, c.char_end)).collect()
}

#[test]
fn test_chunk_text() {
    let processor = FileProcessor::new();
    let text = "This is a test. This is only a test. We are testing text chunking.";

    let chunks = processor.chunk_text(text, 20, 5);

    assert!(!chunks.is_empty());
    assert_eq!(chunks[0].index, 0);
}

#[test]
fn sample_text_is_cut_into_windows_fifteen_apart() {
    let processor = FileProcessor::new();
    let text = "This is a test. This is only a test. We are testing text chunking.";
    let chunks = processor.chunk_text(text, 20, 5);

    assert_eq!(spans(&chunks), vec![(0, 20), (15, 35), (30, 50), (45, 65), (60, 66)]);
    let texts: Vec<&str> = chunks.iter().map(|c| c.text.as_str()).collect();
    assert_eq!(
        texts,
        vec![
            "This is a test. This",
            " This is only a test",
            " test. We are testin",
            "esting text chunking",
            "nking.",
        ]
    );
    for (i, c) in chunks.iter().enumerate() {
        assert_eq!(c.index, i);
        assert!(c.char_end - c.char_start <= 20);
        assert_eq!(c.char_start, 15 * i);
    }
}

#[test]
fn empty_text_has_no_chunks() {
    let processor = FileProcessor::new();
    assert!(processor.chunk_text("", 20, 5).is_empty());
    assert!(processor.chunk_text("", 0, 0).is_empty());
}

#[test]
fn text_shorter_than_a_chunk_is_one_chunk() {
    let processor = FileProcessor::new();
    let chunks = processor.chunk_text("short", 20, 5);
    assert_eq!(chunks.len(), 1);
    assert_eq!(chunks[0].text, "short");
    assert_eq!((chunks[0].index, chunks[0].char_start, chunks[0].char_end), (0, 0, 5));
}

#[test]
fn text_of_exactly_one_chunk_is_not_cut_again() {
    let processor = FileProcessor::new();
    let chunks = processor.chunk_text("abcde", 5, 2);
    assert_eq!(spans(&chunks), vec![(0, 5)]);
}

#[test]
fn blank_windows_are_dropped_and_numbers_stay_contiguous() {
    let processor = FileProcessor::new();
    // windows of 4, no overlap: "aaaa", "    ", "bbbb", " \t\n ", "cc"
    let chunks = processor.chunk_text("aaaa    bbbb \t\n cc", 4, 0);
    assert_eq!(spans(&chunks), vec![(0, 4), (8, 12), (16, 18)]);
    let indices: Vec<usize> = chunks.iter().map(|c| c.index).collect();
    assert_eq!(indices, vec![0, 1, 2]);
    assert_eq!(chunks[1].text, "bbbb");
    assert_eq!(chunks[2].text, "cc");
}

#[test]
fn whitespace_only_text_has_no_chunks() {
    let processor = FileProcessor::new();
    assert!(processor.chunk_text("   \n\t  \u{3000}\u{a0} ", 3, 1).is_empty());
}

#[test]
fn every_grapheme_is_covered_or_lies_in_a_blank_window() {
    let processor = FileProcessor::new();
    let text = "ab  cd      ef gh";
    let size = 4;
    let overlap = 1;
    let chunks = processor.chunk_text(text, size, overlap);
    let total = text.chars().count();
    let step = size - overlap;
    for p in 0..total {
        let covered = chunks.iter().any(|c| c.char_start <= p && p < c.char_end);
        let in_blank_window = (0..total).step_by(step).any(|s| {
            let e = usize::min(s + size, total);
            s <= p && p < e && text[s..e].trim().is_empty()
        });
        assert!(covered || in_blank_window, "grapheme {} is lost", p);
    }
}

#[test]
fn grapheme_clusters_are_never_split() {
    let processor = FileProcessor::new();
    // "e" + combining acute, a flag of two regional indicators, CR LF
    let text = "e\u{301}a\u{1F1F7}\u{1F1FA}\r\nb";
    let chunks = processor.chunk_text(text, 1, 0);
    let texts: Vec<&str> = chunks.iter().map(|c| c.text.as_str()).collect();
    assert_eq!(texts, vec!["e\u{301}", "a", "\u{1F1F7}\u{1F1FA}", "b"]);
    assert_eq!(spans(&chunks), vec![(0, 1), (1, 2), (2, 3), (4, 5)]);

    let chunks = processor.chunk_text(text, 2, 1);
    assert_eq!(chunks[0].text, "e\u{301}a");
    assert_eq!(chunks[1].text, "a\u{1F1F7}\u{1F1FA}");
}

#[test]
fn overlap_not_below_chunk_size_advances_by_one() {
    let processor = FileProcessor::new();
    let chunks = processor.chunk_text("abcdef", 3, 3);
    assert_eq!(spans(&chunks), vec![(0, 3), (1, 4), (2, 5), (3, 6)]);
    let chunks = processor.chunk_text("abcdef", 3, 10);
    assert_eq!(spans(&chunks), vec![(0, 3), (1, 4), (2, 5), (3, 6)]);
}

#[test]
fn chunk_size_zero_yields_nothing() {
    let processor = FileProcessor::new();
    assert!(processor.chunk_text("abcdef", 0, 0).is_empty());
    assert!(processor.chunk_text("abcdef", 0, 3).is_empty());
}

#[test]
fn huge_chunk_size_does_not_overflow() {
    let processor = FileProcessor::new();
    let chunks = processor.chunk_text("abc", usize::MAX, 0);
    assert_eq!(spans(&chunks), vec![(0, 3)]);
    let chunks = processor.chunk_text("abc", usize::MAX, usize::MAX);
    assert_eq!(spans(&chunks), vec![(0, 3)]);
}

#[test]
fn chunking_graphemes_directly_matches_chunking_text() {
    let processor = FileProcessor::new();
    let graphemes: Vec<String> = "hello world".chars().map(|c| c.to_string()).collect();
    let a = processor.chunk_graphemes(&graphemes, 4, 2);
    let b = processor.chunk_text("hello world", 4, 2);
    assert_eq!(a.len(), b.len());
    for (x, y) in a.iter().zip(b.iter()) {
        assert_eq!(x.text, y.text);
        assert_eq!((x.index, x.char_start, x.char_end), (y.index, y.char_start, y.char_end));
    }
}

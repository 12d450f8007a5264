//! The text of a DOCX document body.
//!
//! The body comes as the reader of the file format made it, reduced to what
//! carries text: paragraphs, the runs inside them and the text inside runs.
//! Every other element stands as `Other` and contributes nothing.

use vstd::prelude::*;
use vstd::string::StringExecFns;

verus! {

/// A child of a run.
#[derive(Debug, Clone)]
pub enum RunPiece {
    Text(String),
    Other,
}

/// A child of a paragraph.
#[derive(Debug, Clone)]
pub enum ParagraphPiece {
    Run(Vec<RunPiece>),
    Other,
}

/// A child of the document body.
#[derive(Debug, Clone)]
pub enum BodyPiece {
    Paragraph(Vec<ParagraphPiece>),
    Other,
}

/// The text of a run: its text pieces, one after the other.
pub open spec fn run_text(run: Seq<RunPiece>) -> Seq<char>
    decreases run.len(),
{
    if run.len() == 0 {
        Seq::empty()
    } else {
        run_text(run.drop_last()) + match run.last() {
            RunPiece::Text(t) => t@,
            RunPiece::Other => Seq::empty(),
        }
    }
}

/// The text of a paragraph: the text of its runs, one after the other.
pub open spec fn paragraph_text(paragraph: Seq<ParagraphPiece>) -> Seq<char>
    decreases paragraph.len(),
{
    if paragraph.len() == 0 {
        Seq::empty()
    } else {
        paragraph_text(paragraph.drop_last()) + match paragraph.last() {
            ParagraphPiece::Run(run) => run_text(run@),
            ParagraphPiece::Other => Seq::empty(),
        }
    }
}

/// The text of a body: each paragraph's text followed by a line feed.
pub open spec fn body_text(body: Seq<BodyPiece>) -> Seq<char>
    decreases body.len(),
{
    if body.len() == 0 {
        Seq::empty()
    } else {
        body_text(body.drop_last()) + match body.last() {
            BodyPiece::Paragraph(p) => paragraph_text(p@).push('\n'),
            BodyPiece::Other => Seq::empty(),
        }
    }
}

/// Appends the text of `run` to `out`.
fn append_run(out: &mut String, run: &Vec<RunPiece>)
    ensures
        final(out)@ == old(out)@ + run_text(run@),
{
    let mut i: usize = 0;
    while i < run.len()
        invariant
            i <= run.len(),
            out@ == old(out)@ + run_text(run@.take(i as int)),
        decreases run.len() - i,
    {
        assert(run@.take(i + 1).drop_last() =~= run@.take(i as int));
        match &run[i] {
            RunPiece::Text(t) => {
                out.append(t.as_str());
            },
            RunPiece::Other => {},
        }
        i += 1;
    }
    assert(run@.take(run.len() as int) =~= run@);
}

/// Appends the text of `paragraph` to `out`.
fn append_paragraph(out: &mut String, paragraph: &Vec<ParagraphPiece>)
    ensures
        final(out)@ == old(out)@ + paragraph_text(paragraph@),
{
    let mut i: usize = 0;
    while i < paragraph.len()
        invariant
            i <= paragraph.len(),
            out@ == old(out)@ + paragraph_text(paragraph@.take(i as int)),
        decreases paragraph.len() - i,
    {
        assert(paragraph@.take(i + 1).drop_last() =~= paragraph@.take(i as int));
        match &paragraph[i] {
            ParagraphPiece::Run(run) => {
                append_run(out, run);
            },
            ParagraphPiece::Other => {},
        }
        i += 1;
    }
    assert(paragraph@.take(paragraph.len() as int) =~= paragraph@);
}

/// Collects the text of a document body.
pub fn text_of_body(body: &Vec<BodyPiece>) -> (text: String)
    ensures
        text@ == body_text(body@),
{
    let mut out = String::new();
    let mut i: usize = 0;
    while i < body.len()
        invariant
            i <= body.len(),
            out@ == body_text(body@.take(i as int)),
        decreases body.len() - i,
    {
        assert(body@.take(i + 1).drop_last() =~= body@.take(i as int));
        match &body[i] {
            BodyPiece::Paragraph(p) => {
                append_paragraph(&mut out, p);
                proof {
                    reveal_strlit("\n");
                }
                out.append("\n");
            },
            BodyPiece::Other => {},
        }
        i += 1;
    }
    assert(body@.take(body.len() as int) =~= body@);
    out
}

} // verus!

//! # Writing a finished scan down
//!
//! Five formats, all of them the engine's own work. What this adds is the name
//! the schema gives each one and the decision that a caller who named none gets
//! JSON, that being the only format carrying everything a scan found.
//!
//! Every one of them is text, so a document crosses the wire as a string rather
//! than as something a client has to decode first. The engine writes bytes;
//! this crate checks they are text before it hands them on.

use vstd::prelude::*;
use vstd::utf8::{decode_utf8, valid_utf8};

use crate::error::Error;
use crate::schema::{DiffFormat, ExportFormat};

verus! {

/// Which of the engine's writers a report goes through.
#[derive(Debug, Clone, Copy, PartialEq, Eq)]
pub enum Writer {
    /// Indented JSON, the whole report as one document.
    Json,
    /// One JSON document per host, a line each.
    JsonLines,
    /// One row per port.
    Csv,
    /// A page a person reads.
    Html,
    /// What nmap itself writes, for the tools that read that.
    NmapXml,
}

/// Which of the engine's writers a comparison goes through.
#[derive(Debug, Clone, Copy, PartialEq, Eq)]
pub enum DiffWriter {
    /// The comparison as one JSON document.
    Json,
    /// A page a person reads.
    Html,
}

impl Writer {
    /// The writer's own name for the format it writes, in capitals with its
    /// words joined by `_`.
    pub open spec fn word(self) -> Seq<char> {
        match self {
            Writer::Json => "JSON"@,
            Writer::JsonLines => "JSONL"@,
            Writer::Csv => "CSV"@,
            Writer::Html => "HTML"@,
            Writer::NmapXml => "NMAP_XML"@,
        }
    }
}

impl DiffWriter {
    /// The writer's own name for the format it writes.
    pub open spec fn word(self) -> Seq<char> {
        match self {
            DiffWriter::Json => "JSON"@,
            DiffWriter::Html => "HTML"@,
        }
    }
}

/// The writer a format is written by. A format left unspecified is JSON.
pub open spec fn writer_for_spec(format: ExportFormat) -> Writer {
    match format {
        ExportFormat::Unspecified | ExportFormat::Json => Writer::Json,
        ExportFormat::Jsonl => Writer::JsonLines,
        ExportFormat::Csv => Writer::Csv,
        ExportFormat::Html => Writer::Html,
        ExportFormat::NmapXml => Writer::NmapXml,
    }
}

/// The writer a comparison format is written by. Left unspecified it is JSON.
pub open spec fn diff_writer_for_spec(format: DiffFormat) -> DiffWriter {
    match format {
        DiffFormat::Unspecified | DiffFormat::Json => DiffWriter::Json,
        DiffFormat::Html => DiffWriter::Html,
    }
}

/// The format a raw number on the wire resolves to: the one it names, or JSON
/// where it names none or names no format at all.
pub open spec fn named_spec(raw: i32) -> ExportFormat {
    match ExportFormat::numbered(raw) {
        Some(ExportFormat::Unspecified) | None => ExportFormat::Json,
        Some(format) => format,
    }
}

/// The comparison format a raw number resolves to, JSON where it names none.
pub open spec fn compared_spec(raw: i32) -> DiffFormat {
    match DiffFormat::numbered(raw) {
        Some(DiffFormat::Unspecified) | None => DiffFormat::Json,
        Some(format) => format,
    }
}

/// What a writer's bytes come to: the text they spell, or the error that
/// stopped them, where a failure is the engine's code and words, and bytes that
/// are not text are refused as `export.not_text` in the words `not_text`.
pub open spec fn text_outcome(
    written: Result<Seq<u8>, (Seq<char>, Seq<char>)>,
    not_text: Seq<char>,
) -> Result<Seq<char>, (Seq<char>, Seq<char>)> {
    match written {
        Err(failure) => Err(failure),
        Ok(bytes) => if valid_utf8(bytes) {
            Ok(decode_utf8(bytes))
        } else {
            Err(("export.not_text"@, not_text))
        },
    }
}

/// A written document or the error that took its place, as plain values.
pub open spec fn outcome_view(r: Result<String, Error>) -> Result<Seq<char>, (Seq<char>, Seq<char>)> {
    match r {
        Ok(text) => Ok(text@),
        Err(e) => Err((e.code_text(), e.message_text())),
    }
}

/// What a writer handed back, as plain values.
pub open spec fn written_view(w: Result<Vec<u8>, (String, String)>) -> Result<Seq<u8>, (Seq<char>, Seq<char>)> {
    match w {
        Ok(bytes) => Ok(bytes@),
        Err(failure) => Err((failure.0@, failure.1@)),
    }
}

/// The words a report that is not text is refused with.
pub open spec fn document_not_text() -> Seq<char> {
    "the engine wrote a document that is not text, which should not happen"@
}

/// The words a comparison that is not text is refused with.
pub open spec fn comparison_not_text() -> Seq<char> {
    "the engine wrote a comparison that is not text, which should not happen"@
}

/// The writer a format is written by.
pub fn writer_for(format: ExportFormat) -> (r: Writer)
    ensures
        r == writer_for_spec(format),
{
    match format {
        ExportFormat::Unspecified | ExportFormat::Json => Writer::Json,
        ExportFormat::Jsonl => Writer::JsonLines,
        ExportFormat::Csv => Writer::Csv,
        ExportFormat::Html => Writer::Html,
        ExportFormat::NmapXml => Writer::NmapXml,
    }
}

/// The writer a comparison format is written by.
pub fn diff_writer_for(format: DiffFormat) -> (r: DiffWriter)
    ensures
        r == diff_writer_for_spec(format),
{
    match format {
        DiffFormat::Unspecified | DiffFormat::Json => DiffWriter::Json,
        DiffFormat::Html => DiffWriter::Html,
    }
}

/// The format a caller asked for, resolved to the one that will actually be
/// written.
///
/// A request naming none is answered in JSON, so this says JSON. Leaving it
/// unresolved would have the answer echo `UNSPECIFIED` beside a document that
/// is definitely something, which is the answer lying about itself.
pub fn named(raw: i32) -> (r: ExportFormat)
    ensures
        r == named_spec(raw),
        r != ExportFormat::Unspecified,
{
    match ExportFormat::from_number(raw) {
        Some(ExportFormat::Unspecified) | None => ExportFormat::Json,
        Some(format) => format,
    }
}

/// The comparison format a caller asked for, resolved to the one that will be
/// written.
pub fn compared(raw: i32) -> (r: DiffFormat)
    ensures
        r == compared_spec(raw),
        r != DiffFormat::Unspecified,
{
    match DiffFormat::from_number(raw) {
        Some(DiffFormat::Unspecified) | None => DiffFormat::Json,
        Some(format) => format,
    }
}

/// What the bytes spell, where they are UTF-8.
///
/// `String::from_utf8` from std, which its documentation says hands the bytes
/// back as a string when they are valid UTF-8 and refuses them otherwise.
#[verifier::external_body]
fn utf8_text(bytes: Vec<u8>) -> (r: Option<String>)
    ensures
        r.is_some() == valid_utf8(bytes@),
        r matches Some(text) ==> text@ == decode_utf8(bytes@),
{
    String::from_utf8(bytes).ok()
}

/// A writer's bytes as text, or why there is none.
///
/// The engine's own code and words where it failed, and `export.not_text` in
/// the words `not_text` where what it wrote is not UTF-8.
pub fn as_text(written: Result<Vec<u8>, (String, String)>, not_text: &str) -> (r: Result<String, Error>)
    ensures
        outcome_view(r) == text_outcome(written_view(written), not_text@),
{
    match written {
        Err(failure) => Err(Error::engine(failure.0.as_str(), failure.1)),
        Ok(bytes) => match utf8_text(bytes) {
            Some(text) => Ok(text),
            None => Err(Error::new("export.not_text", String::from_str(not_text))),
        },
    }
}

/// A report the engine wrote, as text, or why there is none.
pub fn document_text(written: Result<Vec<u8>, (String, String)>) -> (r: Result<String, Error>)
    ensures
        outcome_view(r) == text_outcome(written_view(written), document_not_text()),
{
    let r = as_text(written, "the engine wrote a document that is not text, which should not happen");
    proof {
        reveal_strlit("the engine wrote a document that is not text, which should not happen");
    }
    r
}

/// A comparison the engine wrote, as text, or why there is none.
pub fn comparison_text(written: Result<Vec<u8>, (String, String)>) -> (r: Result<String, Error>)
    ensures
        outcome_view(r) == text_outcome(written_view(written), comparison_not_text()),
{
    let r = as_text(written, "the engine wrote a comparison that is not text, which should not happen");
    proof {
        reveal_strlit("the engine wrote a comparison that is not text, which should not happen");
    }
    r
}

/// The answer names the format whose document it carries: resolving a raw
/// format never changes which writer a request is written by.
pub proof fn lemma_named_is_what_is_written(raw: i32)
    ensures
        writer_for_spec(named_spec(raw)) == writer_for_spec(
            match ExportFormat::numbered(raw) {
                Some(format) => format,
                None => ExportFormat::Unspecified,
            },
        ),
        named_spec(named_spec(raw).number_spec()) == named_spec(raw),
{
}

/// The same for a comparison.
pub proof fn lemma_compared_is_what_is_written(raw: i32)
    ensures
        diff_writer_for_spec(compared_spec(raw)) == diff_writer_for_spec(
            match DiffFormat::numbered(raw) {
                Some(format) => format,
                None => DiffFormat::Unspecified,
            },
        ),
        compared_spec(compared_spec(raw).number_spec()) == compared_spec(raw),
{
}

/// A report is written by the writer of the very format it names: the
/// schema's name for a format is `EXPORT_FORMAT_` and its writer's own name,
/// and a format left unspecified is written as JSON.
pub proof fn lemma_a_format_is_written_by_its_own_writer(format: ExportFormat)
    ensures
        format != ExportFormat::Unspecified ==> format.name_spec() == "EXPORT_FORMAT_"@ + writer_for_spec(
            format,
        ).word(),
        format == ExportFormat::Unspecified ==> writer_for_spec(format) == Writer::Json,
{
    reveal_strlit("EXPORT_FORMAT_");
    match format {
        ExportFormat::Json => {
            reveal_strlit("JSON");
            reveal_strlit("EXPORT_FORMAT_JSON");
            assert(("EXPORT_FORMAT_"@ + "JSON"@) =~= "EXPORT_FORMAT_JSON"@);
        },
        ExportFormat::Jsonl => {
            reveal_strlit("JSONL");
            reveal_strlit("EXPORT_FORMAT_JSONL");
            assert(("EXPORT_FORMAT_"@ + "JSONL"@) =~= "EXPORT_FORMAT_JSONL"@);
        },
        ExportFormat::Csv => {
            reveal_strlit("CSV");
            reveal_strlit("EXPORT_FORMAT_CSV");
            assert(("EXPORT_FORMAT_"@ + "CSV"@) =~= "EXPORT_FORMAT_CSV"@);
        },
        ExportFormat::Html => {
            reveal_strlit("HTML");
            reveal_strlit("EXPORT_FORMAT_HTML");
            assert(("EXPORT_FORMAT_"@ + "HTML"@) =~= "EXPORT_FORMAT_HTML"@);
        },
        ExportFormat::NmapXml => {
            reveal_strlit("NMAP_XML");
            reveal_strlit("EXPORT_FORMAT_NMAP_XML");
            assert(("EXPORT_FORMAT_"@ + "NMAP_XML"@) =~= "EXPORT_FORMAT_NMAP_XML"@);
        },
        ExportFormat::Unspecified => {},
    }
}

/// A comparison is written by the writer of the very format it names, and
/// one left unspecified is written as JSON.
pub proof fn lemma_a_comparison_is_written_by_its_own_writer(format: DiffFormat)
    ensures
        format != DiffFormat::Unspecified ==> format.name_spec() == "DIFF_FORMAT_"@ + diff_writer_for_spec(
            format,
        ).word(),
        format == DiffFormat::Unspecified ==> diff_writer_for_spec(format) == DiffWriter::Json,
{
    reveal_strlit("DIFF_FORMAT_");
    match format {
        DiffFormat::Json => {
            reveal_strlit("JSON");
            reveal_strlit("DIFF_FORMAT_JSON");
            assert(("DIFF_FORMAT_"@ + "JSON"@) =~= "DIFF_FORMAT_JSON"@);
        },
        DiffFormat::Html => {
            reveal_strlit("HTML");
            reveal_strlit("DIFF_FORMAT_HTML");
            assert(("DIFF_FORMAT_"@ + "HTML"@) =~= "DIFF_FORMAT_HTML"@);
        },
        DiffFormat::Unspecified => {},
    }
}

} // verus!

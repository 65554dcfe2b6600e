use zond_daemon::export::{
    as_text, compared, comparison_text, diff_writer_for, document_text, named, writer_for,
    DiffWriter, Writer,
};
use zond_daemon::schema::{DiffFormat, ExportFormat};

#[test]
fn a_request_naming_no_format_is_answered_in_json() {
    assert_eq!(named(0), ExportFormat::Json);
    assert_eq!(named(1), ExportFormat::Json);
    assert_eq!(named(2), ExportFormat::Jsonl);
    assert_eq!(named(3), ExportFormat::Csv);
    assert_eq!(named(4), ExportFormat::Html);
    assert_eq!(named(5), ExportFormat::NmapXml);
}

#[test]
fn a_number_the_schema_does_not_name_is_answered_in_json() {
    assert_eq!(named(6), ExportFormat::Json);
    assert_eq!(named(-1), ExportFormat::Json);
    assert_eq!(named(i32::MAX), ExportFormat::Json);
}

#[test]
fn a_comparison_naming_no_format_is_answered_in_json() {
    assert_eq!(compared(0), DiffFormat::Json);
    assert_eq!(compared(1), DiffFormat::Json);
    assert_eq!(compared(2), DiffFormat::Html);
    assert_eq!(compared(3), DiffFormat::Json);
}

#[test]
fn every_format_has_its_own_writer() {
    assert_eq!(writer_for(ExportFormat::Unspecified), Writer::Json);
    assert_eq!(writer_for(ExportFormat::Json), Writer::Json);
    assert_eq!(writer_for(ExportFormat::Jsonl), Writer::JsonLines);
    assert_eq!(writer_for(ExportFormat::Csv), Writer::Csv);
    assert_eq!(writer_for(ExportFormat::Html), Writer::Html);
    assert_eq!(writer_for(ExportFormat::NmapXml), Writer::NmapXml);
    assert_eq!(diff_writer_for(DiffFormat::Unspecified), DiffWriter::Json);
    assert_eq!(diff_writer_for(DiffFormat::Html), DiffWriter::Html);
}

#[test]
fn the_answer_names_the_format_it_was_written_in() {
    for raw in -2..8 {
        let format = named(raw);
        assert_ne!(format, ExportFormat::Unspecified);
        let asked = ExportFormat::from_number(raw).unwrap_or(ExportFormat::Unspecified);
        assert_eq!(writer_for(format), writer_for(asked), "{raw}");
    }
}

#[test]
fn what_the_engine_wrote_is_handed_on_as_text() {
    assert_eq!(as_text(Ok(b"{\"hosts\":[]}".to_vec()), "not text"), Ok("{\"hosts\":[]}".to_string()));
    assert_eq!(document_text(Ok("héllo".as_bytes().to_vec())), Ok("héllo".to_string()));
}

#[test]
fn bytes_that_are_not_text_are_refused() {
    let refused = document_text(Ok(vec![0xff, 0xfe])).expect_err("not UTF-8");

    assert_eq!(refused.code(), "export.not_text");
    assert_eq!(
        refused.message(),
        "the engine wrote a document that is not text, which should not happen"
    );

    let refused = comparison_text(Ok(vec![0xc3])).expect_err("not UTF-8");
    assert_eq!(
        refused.message(),
        "the engine wrote a comparison that is not text, which should not happen"
    );
}

#[test]
fn an_engine_failure_keeps_the_engine_s_code() {
    let refused = document_text(Err(("export.io".to_string(), "writing the report failed: broken pipe".to_string())))
        .expect_err("the engine failed");

    assert_eq!(refused.code(), "export.io");
    assert_eq!(refused.message(), "writing the report failed: broken pipe");
}

use riposte_social::access_codes::{
    check_code_is_new, objects_to_remove,
    content_disposition, field_kind, is_expired, parse_expiry, process_html_template,
    use_access_code, AccessCodeForm, AccessCodeRecord, FieldKind,
};
use riposte_social::errors::AppError;

fn validation_message(r: Result<(), AppError>) -> String {
    match r {
        Err(AppError::ValidationError(m)) => m,
        other => panic!("unexpected {:?}", other),
    }
}

fn complete_form() -> AccessCodeForm {
    let mut f = AccessCodeForm::new();
    f.record_text("code", "abc-123".to_string());
    f.record_text("name", "Acme".to_string());
    f.record_file("index_html", b"<p>hi</p>".to_vec());
    f.record_file("document_docx", vec![1, 2, 3]);
    f
}

#[test]
fn html_template_gets_the_code_in_place_of_the_placeholder() {
    let out = process_html_template(b"<p>Code: {{ACCESS_CODE}}!</p>", "X7").unwrap();
    assert_eq!(out, b"<p>Code: X7!</p>".to_vec());
    let out = process_html_template(b"{{ACCESS_CODE}}{{ACCESS_CODE}}", "ab").unwrap();
    assert_eq!(out, b"abab".to_vec());
}

#[test]
fn html_template_without_placeholder_is_unchanged() {
    let out = process_html_template(b"<p>hi</p>", "ABC").unwrap();
    assert_eq!(out, b"<p>hi</p>".to_vec());
    assert_eq!(process_html_template(b"", "code").unwrap(), Vec::<u8>::new());
}

#[test]
fn html_template_must_be_utf8() {
    match process_html_template(&[0xff, 0xfe], "X") {
        Err(AppError::ValidationError(m)) => assert!(m.starts_with("Invalid UTF-8 in HTML file: ")),
        other => panic!("unexpected {:?}", other),
    }
}

#[test]
fn field_kinds() {
    assert_eq!(field_kind("code"), FieldKind::Text);
    assert_eq!(field_kind("expires_at"), FieldKind::Text);
    assert_eq!(field_kind("index_html"), FieldKind::File);
    assert_eq!(field_kind("document_docx"), FieldKind::File);
    assert_eq!(field_kind("other"), FieldKind::Unknown);
}

#[test]
fn empty_optional_fields_count_as_absent() {
    let mut f = AccessCodeForm::new();
    f.record_text("description", String::new());
    f.record_text("download_filename", "file_1".to_string());
    f.record_file("index_html", Vec::new());
    assert!(f.description.is_none());
    assert_eq!(f.download_filename.as_deref(), Some("file_1"));
    assert!(f.index_html.is_none());
    f.record_text("unknown", "ignored".to_string());
    assert_eq!(f.code, "");
}

#[test]
fn complete_form_validates() {
    assert!(complete_form().validate().is_ok());
}

#[test]
fn each_rule_has_its_message() {
    let mut f = complete_form();
    f.record_text("code", "   ".to_string());
    assert_eq!(validation_message(f.validate()), "Access code cannot be empty");

    let mut f = complete_form();
    f.record_text("code", "bad code".to_string());
    assert_eq!(
        validation_message(f.validate()),
        "Access code must contain only alphanumeric characters or hyphens"
    );

    let mut f = complete_form();
    f.record_text("name", " ".to_string());
    assert_eq!(validation_message(f.validate()), "Name cannot be empty");

    let mut f = complete_form();
    f.record_text("download_filename", "a.docx".to_string());
    assert_eq!(
        validation_message(f.validate()),
        "Download filename must contain only alphanumeric characters, hyphens, and underscores"
    );

    let mut f = AccessCodeForm::new();
    f.record_text("code", "abc".to_string());
    f.record_text("name", "n".to_string());
    f.record_file("index_html", vec![1]);
    assert_eq!(
        validation_message(f.validate()),
        "Both index.html and Document.docx files are required"
    );
}

#[test]
fn expiry_dates() {
    assert_eq!(parse_expiry(None).unwrap(), None);
    // 2024-01-02 23:59:59 UTC
    assert_eq!(parse_expiry(Some("2024-01-02")).unwrap(), Some((1704239999, 0, 0)));
    assert_eq!(
        parse_expiry(Some("2024-01-02T10:00:00+02:00")).unwrap(),
        Some((1704182400, 0, 7200))
    );
    match parse_expiry(Some("next week")) {
        Err(AppError::ValidationError(m)) => {
            assert_eq!(m, "Invalid expiration date format. Use YYYY-MM-DD")
        }
        other => panic!("unexpected {:?}", other),
    }
}

#[test]
fn expiry_comparison() {
    assert!(!is_expired(None, (0, 0)));
    assert!(is_expired(Some((10, 0, 0)), (11, 0)));
    assert!(is_expired(Some((10, 5, 0)), (10, 6)));
    assert!(!is_expired(Some((10, 5, 0)), (10, 5)));
    assert!(!is_expired(Some((12, 0, 0)), (11, 999)));
}

#[test]
fn visits_are_counted_until_expiry() {
    let mut rec = AccessCodeRecord {
        code: "abc".to_string(),
        expires_at: Some((100, 0, 0)),
        usage_count: 4,
        last_used_at: None,
        download_filename: None,
    };
    assert!(use_access_code(&mut rec, (50, 7)));
    assert_eq!(rec.usage_count, 5);
    assert_eq!(rec.last_used_at, Some((50, 7)));
    assert!(!use_access_code(&mut rec, (101, 0)));
    assert_eq!(rec.usage_count, 5);
    assert_eq!(rec.last_used_at, Some((50, 7)));
}

#[test]
fn download_names() {
    assert_eq!(content_disposition(Some("Report")), "attachment; filename=\"Report.docx\"");
    assert_eq!(
        content_disposition(None),
        "attachment; filename=\"Grant_DeFayette_Document.docx\""
    );
}

#[test]
fn an_existing_code_is_refused() {
    assert!(check_code_is_new(false).is_ok());
    match check_code_is_new(true) {
        Err(AppError::ValidationError(m)) => assert_eq!(m, "Access code already exists"),
        other => panic!("unexpected {:?}", other),
    }
}

#[test]
fn uploads_are_removed_after_a_failed_insert() {
    assert!(objects_to_remove(true).is_empty());
    assert_eq!(objects_to_remove(false), vec!["index.html".to_string(), "Document.docx".to_string()]);
}

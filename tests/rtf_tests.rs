use narrative_surgeon::error::AppError;
use narrative_surgeon::rtf::{convert_rtf_to_html, import_rtf_content, parse_rtf_content};

#[test]
fn groups_and_control_words() {
    let doc = parse_rtf_content("{\\rtf1 Hello {\\b bold} end}");
    assert_eq!(doc.plain_text, " Hello  bold end");
    assert_eq!(doc.paragraphs.len(), 1);
    assert_eq!(doc.paragraphs[0].text, "Hello  bold end");
    assert!(!doc.paragraphs[0].is_bold);
    assert!(!doc.has_complex_formatting);
    assert_eq!(convert_rtf_to_html(&doc), "<p>Hello  bold end</p>\n");
}

#[test]
fn formatting_in_force_at_the_end() {
    let doc = parse_rtf_content("{\\rtf1 {\\b Big & bold");
    assert_eq!(doc.paragraphs[0].text, "Big & bold");
    assert!(doc.paragraphs[0].is_bold);
    assert_eq!(convert_rtf_to_html(&doc), "<p><strong>Big &amp; bold</strong></p>\n");
    let doc = parse_rtf_content("{\\rtf1 {\\i \\b x");
    assert_eq!(convert_rtf_to_html(&doc), "<p><strong><em>x</em></strong></p>\n");
}

#[test]
fn escaped_backslash_is_kept() {
    let doc = parse_rtf_content("{\\rtf1 a\\\\b}");
    assert_eq!(doc.paragraphs[0].text, "a\\b");
}

#[test]
fn text_outside_groups_is_ignored() {
    let doc = parse_rtf_content("outside{\\rtf1}");
    assert!(doc.paragraphs.is_empty());
    assert_eq!(doc.plain_text, "");
    assert_eq!(convert_rtf_to_html(&doc), "");
}

#[test]
fn metadata_words_end_at_spaces() {
    let doc = parse_rtf_content("{\\rtf1 {\\author Jane}}");
    assert_eq!(doc.author, None);
    assert_eq!(doc.title, None);
    assert_eq!(doc.paragraphs[0].text, "Jane");
}

#[test]
fn import_requires_the_signature() {
    match import_rtf_content("plain text") {
        Err(AppError::Validation { message, field, value, .. }) => {
            assert_eq!(message, "Invalid RTF file: missing RTF header");
            assert_eq!(field.as_deref(), Some("rtf_content"));
            assert_eq!(value.as_deref(), Some("File does not start with RTF signature"));
        },
        _ => panic!("expected a validation error"),
    }
    let ok = import_rtf_content("{\\rtf1 <tag>}").unwrap();
    assert_eq!(ok.html, "<p>&lt;tag&gt;</p>\n");
    assert!(ok.warnings.is_empty());
}

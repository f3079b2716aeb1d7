use narrative_surgeon::error::{recent_entries, AppError, ErrorLogEntry, ErrorLogger, ErrorSeverity};
use narrative_surgeon::export::{escape_text, export_format_warning, get_export_formats, ExportFormat, ExportService, Markup};
use narrative_surgeon::text::{calculate_word_count, count_words, is_blank_text};

#[test]
fn html_escaping() {
    let s = ExportService::new();
    assert_eq!(s.escape_html("a < b & \"c\" > 'd'"), "a &lt; b &amp; &quot;c&quot; &gt; &#39;d&#39;");
    assert_eq!(s.escape_html(""), "");
}

#[test]
fn xml_escaping() {
    let s = ExportService::new();
    assert_eq!(s.escape_xml("<it's & \"q\">"), "&lt;it&apos;s &amp; &quot;q&quot;&gt;");
}

#[test]
fn latex_escaping() {
    let s = ExportService::new();
    assert_eq!(s.escape_latex("50% of $x_1 & #2"), "50\\% of \\$x\\_1 \\& \\#2");
    assert_eq!(s.escape_latex("a\\b"), "a\\textbackslash\\{\\}b");
    assert_eq!(s.escape_latex("{^~}"), "\\{\\textasciicircum{}\\textasciitilde{}\\}");
    assert_eq!(escape_text(Markup::Latex, "plain"), "plain");
}

#[test]
fn page_estimates() {
    let s = ExportService::new();
    assert_eq!(s.estimate_page_count(0), 0);
    assert_eq!(s.estimate_page_count(1), 1);
    assert_eq!(s.estimate_page_count(250), 1);
    assert_eq!(s.estimate_page_count(251), 2);
    assert_eq!(s.estimate_screenplay_pages(499), 1);
}

#[test]
fn word_counts() {
    assert_eq!(count_words(""), 0);
    assert_eq!(count_words("   "), 0);
    assert_eq!(count_words("one"), 1);
    assert_eq!(count_words("  two words\n"), 2);
    assert_eq!(calculate_word_count("a\tb\u{3000}c  d"), 4);
}

#[test]
fn blank_text() {
    assert!(is_blank_text(""));
    assert!(is_blank_text(" \n\t\u{a0}"));
    assert!(!is_blank_text(" x "));
}

#[test]
fn recent_entries_newest_first_and_skip_bad_lines() {
    let lines = vec![Some(1), None, Some(3), Some(4), None, Some(6)];
    assert_eq!(recent_entries(lines.clone(), 3), vec![6, 4]);
    assert_eq!(recent_entries(lines.clone(), 10), vec![6, 4, 3, 1]);
    assert_eq!(recent_entries(lines.clone(), 1), vec![6]);
    assert_eq!(recent_entries(lines.clone(), 2), vec![6]);
    assert_eq!(recent_entries(lines, 0), Vec::<i32>::new());
}

#[test]
fn log_entry_takes_severity_of_error() {
    let e = ErrorLogEntry::new(AppError::database("Test database error"), Some("Unit test context"), 42);
    assert_eq!(e.severity, ErrorSeverity::High);
    assert_eq!(e.timestamp, 42);
    assert_eq!(e.context.as_deref(), Some("Unit test context"));
    let logger = ErrorLogger::with_path("/tmp/errors.log".to_string());
    assert_eq!(logger.log_path, "/tmp/errors.log");
}

#[test]
fn manuscript_paragraphs_are_indented() {
    let s = ExportService::new();
    let text = "First para.\n\n  Second para.  \n\n   \n\nThird";
    let expected = "    First para.\n\n    Second para.\n\n\n\n    Third";
    assert_eq!(s.format_standard_manuscript_text(text), expected);
    assert_eq!(s.format_shunn_text(text), expected);
    assert_eq!(s.format_standard_manuscript_text(""), "");
    assert_eq!(s.format_standard_manuscript_text("a\n\n\nb"), "    a\n\n    b");
}

#[test]
fn prose_to_screenplay() {
    let s = ExportService::new();
    let text = "He walked in.\n\n\"Hello,\" she said.\n\n  ";
    assert_eq!(
        s.convert_to_screenplay(text),
        "HE WALKED IN.\n\n                    CHARACTER\n          Hello, she said.\n\n"
    );
    assert_eq!(s.convert_to_screenplay("straße"), "STRASSE\n\n");
}

#[test]
fn prose_to_stage_play() {
    let s = ExportService::new();
    let text = " He walked in. \n\n\"Hello,\" she said.";
    assert_eq!(s.convert_to_stage_play(text), "(He walked in.)\n\nCHARACTER: Hello, she said.\n\n");
    assert_eq!(s.convert_to_stage_play("\n\n"), "");
}

#[test]
fn export_formats_in_order() {
    let f = get_export_formats();
    assert_eq!(f.len(), 17);
    assert_eq!(f[0], ExportFormat::ShunnManuscript);
    assert_eq!(f[8], ExportFormat::StandardManuscript);
    assert_eq!(f[16], ExportFormat::FinalDraft);
}

#[test]
fn export_format_warnings() {
    assert_eq!(export_format_warning(ExportFormat::PDF).as_deref(), Some("PDF export may require additional setup"));
    assert_eq!(
        export_format_warning(ExportFormat::Mobi).as_deref(),
        Some("eBook formats may have limited formatting options")
    );
    assert_eq!(
        export_format_warning(ExportFormat::FinalDraft).as_deref(),
        Some("Final Draft format is optimized for screenplays")
    );
    assert_eq!(export_format_warning(ExportFormat::Markdown), None);
}

#[test]
fn scene_break_markers() {
    let yes = ["***", "  * * *  ", "\u{25ca}", "\u{a7} \u{a7} \u{a7}", "-#-", "*\u{3000}*", "#####"];
    for line in yes {
        assert!(narrative_surgeon::text::is_scene_break_marker(line), "{:?}", line);
    }
    let no = ["**", "abc", "", "   ", "\u{25ca} \u{25ca}", "* x *"];
    for line in no {
        assert!(!narrative_surgeon::text::is_scene_break_marker(line), "{:?}", line);
    }
    assert_eq!(narrative_surgeon::export::html_escape("<a href='x'>"), "&lt;a href=&#39;x&#39;&gt;");
}

//! Export formats and the text transformations the exporters share.

use vstd::prelude::*;
use vstd::string::*;
use crate::text::{
    char_vec, indent_paragraphs, indented_join, paragraphs, push_char, script_join, to_script, Script,
};

verus! {

/// The document formats a manuscript can be exported to.
#[derive(Debug, Clone, Copy, PartialEq, Eq, Structural)]
pub enum ExportFormat {
    ShunnManuscript,
    QueryPackage,
    SynopsisShort,
    SynopsisLong,
    PitchSheet,
    BookProposal,
    ScreenplayFinal,
    StagePlayStandard,
    StandardManuscript,
    Epub,
    Mobi,
    PDF,
    Docx,
    Markdown,
    LaTeX,
    Scrivener,
    FinalDraft,
}

#[derive(Debug, Clone)]
pub struct HeaderFooterOptions {
    pub header: Option<String>,
    pub footer: Option<String>,
    pub include_page_numbers: bool,
    pub include_title: bool,
    pub include_author: bool,
}

#[derive(Debug, Clone, Copy, PartialEq, Eq, Structural)]
pub enum PageOrientation {
    Portrait,
    Landscape,
}

#[derive(Debug, Clone, Copy, PartialEq, Eq, Structural)]
pub enum TextAlignment {
    Left,
    Center,
    Right,
    Justify,
}

/// What an export produced: where it went, its size and page estimate, and
/// the problems met on the way.
#[derive(Debug, Clone)]
pub struct ExportResult {
    pub success: bool,
    pub output_path: Option<String>,
    pub file_size: Option<u64>,
    pub page_count: Option<usize>,
    pub word_count: usize,
    pub errors: Vec<String>,
    pub warnings: Vec<String>,
}

/// Words on a standard manuscript page.
pub const WORDS_PER_PAGE: usize = 250;

pub open spec fn html_escape_char(c: char) -> Seq<char> {
    if c == '&' {
        "&amp;"@
    } else if c == '<' {
        "&lt;"@
    } else if c == '>' {
        "&gt;"@
    } else if c == '"' {
        "&quot;"@
    } else if c == '\'' {
        "&#39;"@
    } else {
        seq![c]
    }
}

pub open spec fn xml_escape_char(c: char) -> Seq<char> {
    if c == '\'' {
        "&apos;"@
    } else {
        html_escape_char(c)
    }
}

/// The LaTeX form of one character. The braces of `\textbackslash{}` are
/// themselves escaped, as replacing the specials one kind after another does.
pub open spec fn latex_escape_char(c: char) -> Seq<char> {
    if c == '\\' {
        "\\textbackslash\\{\\}"@
    } else if c == '{' {
        "\\{"@
    } else if c == '}' {
        "\\}"@
    } else if c == '$' {
        "\\$"@
    } else if c == '&' {
        "\\&"@
    } else if c == '%' {
        "\\%"@
    } else if c == '#' {
        "\\#"@
    } else if c == '^' {
        "\\textasciicircum{}"@
    } else if c == '_' {
        "\\_"@
    } else if c == '~' {
        "\\textasciitilde{}"@
    } else {
        seq![c]
    }
}

/// Which markup a text is escaped for.
#[derive(Debug, Clone, Copy, PartialEq, Eq, Structural)]
pub enum Markup {
    Html,
    Xml,
    Latex,
}

pub open spec fn escape_char(markup: Markup, c: char) -> Seq<char> {
    match markup {
        Markup::Html => html_escape_char(c),
        Markup::Xml => xml_escape_char(c),
        Markup::Latex => latex_escape_char(c),
    }
}

/// `s` with each character replaced by its escaped form.
pub open spec fn escaped(markup: Markup, s: Seq<char>) -> Seq<char>
    decreases s.len(),
{
    if s.len() == 0 {
        Seq::empty()
    } else {
        escaped(markup, s.drop_last()) + escape_char(markup, s.last())
    }
}

fn push_escaped_char(out: &mut String, markup: Markup, c: char)
    ensures
        final(out)@ == old(out)@ + escape_char(markup, c),
{
    match markup {
        Markup::Html | Markup::Xml => {
            if c == '&' {
                out.append("&amp;");
            } else if c == '<' {
                out.append("&lt;");
            } else if c == '>' {
                out.append("&gt;");
            } else if c == '"' {
                out.append("&quot;");
            } else if c == '\'' {
                match markup {
                    Markup::Xml => out.append("&apos;"),
                    _ => out.append("&#39;"),
                }
            } else {
                push_char(out, c);
            }
        },
        Markup::Latex => {
            if c == '\\' {
                out.append("\\textbackslash\\{\\}");
            } else if c == '{' {
                out.append("\\{");
            } else if c == '}' {
                out.append("\\}");
            } else if c == '$' {
                out.append("\\$");
            } else if c == '&' {
                out.append("\\&");
            } else if c == '%' {
                out.append("\\%");
            } else if c == '#' {
                out.append("\\#");
            } else if c == '^' {
                out.append("\\textasciicircum{}");
            } else if c == '_' {
                out.append("\\_");
            } else if c == '~' {
                out.append("\\textasciitilde{}");
            } else {
                push_char(out, c);
            }
        },
    }
}

/// `text` escaped for `markup`.
pub fn escape_text(markup: Markup, text: &str) -> (r: String)
    ensures
        r@ == escaped(markup, text@),
{
    let cs = char_vec(text);
    let mut out = String::new();
    let mut i: usize = 0;
    while i < cs.len()
        invariant
            cs@ == text@,
            i <= cs.len(),
            out@ == escaped(markup, cs@.take(i as int)),
        decreases cs.len() - i,
    {
        push_escaped_char(&mut out, markup, cs[i]);
        proof {
            assert(cs@.take(i + 1).drop_last() =~= cs@.take(i as int));
        }
        i = i + 1;
    }
    proof {
        assert(cs@.take(cs@.len() as int) =~= cs@);
    }
    out
}

/// `text` escaped for HTML.
pub fn html_escape(text: &str) -> (r: String)
    ensures
        r@ == escaped(Markup::Html, text@),
{
    escape_text(Markup::Html, text)
}

/// Builds the export documents; it holds no state.
#[derive(Debug, Clone, Copy)]
pub struct ExportService;

impl ExportService {
    pub fn new() -> (r: ExportService) {
        ExportService
    }

    pub fn escape_html(&self, text: &str) -> (r: String)
        ensures
            r@ == escaped(Markup::Html, text@),
    {
        escape_text(Markup::Html, text)
    }

    pub fn escape_xml(&self, text: &str) -> (r: String)
        ensures
            r@ == escaped(Markup::Xml, text@),
    {
        escape_text(Markup::Xml, text)
    }

    pub fn escape_latex(&self, text: &str) -> (r: String)
        ensures
            r@ == escaped(Markup::Latex, text@),
    {
        escape_text(Markup::Latex, text)
    }

    /// Body text in standard manuscript layout: each paragraph trimmed and
    /// indented, blank ones emptied.
    pub fn format_standard_manuscript_text(&self, content: &str) -> (r: String)
        ensures
            r@ == indented_join(paragraphs(content@)),
    {
        indent_paragraphs(content)
    }

    /// Body text in Shunn manuscript layout, which indents paragraphs the
    /// same way.
    pub fn format_shunn_text(&self, content: &str) -> (r: String)
        ensures
            r@ == indented_join(paragraphs(content@)),
    {
        indent_paragraphs(content)
    }

    pub fn convert_to_screenplay(&self, content: &str) -> (r: String)
        ensures
            r@ == script_join(Script::Screenplay, paragraphs(content@)),
    {
        to_script(Script::Screenplay, content)
    }

    pub fn convert_to_stage_play(&self, content: &str) -> (r: String)
        ensures
            r@ == script_join(Script::StagePlay, paragraphs(content@)),
    {
        to_script(Script::StagePlay, content)
    }

    /// Pages a text of `word_count` words fills, a part page counting whole.
    pub fn estimate_page_count(&self, word_count: usize) -> (r: usize)
        ensures
            r == (word_count as int + WORDS_PER_PAGE - 1) / WORDS_PER_PAGE as int,
    {
        word_count / WORDS_PER_PAGE + if word_count % WORDS_PER_PAGE == 0 {
            0
        } else {
            1
        }
    }

    /// Screenplay pages for `word_count` words: whole pages only.
    pub fn estimate_screenplay_pages(&self, word_count: usize) -> (r: usize)
        ensures
            r == word_count / WORDS_PER_PAGE,
    {
        word_count / WORDS_PER_PAGE
    }
}

/// Every export format, publishing formats first, in the order offered.
pub open spec fn all_formats() -> Seq<ExportFormat> {
    seq![
        ExportFormat::ShunnManuscript,
        ExportFormat::QueryPackage,
        ExportFormat::SynopsisShort,
        ExportFormat::SynopsisLong,
        ExportFormat::PitchSheet,
        ExportFormat::BookProposal,
        ExportFormat::ScreenplayFinal,
        ExportFormat::StagePlayStandard,
        ExportFormat::StandardManuscript,
        ExportFormat::Docx,
        ExportFormat::PDF,
        ExportFormat::Markdown,
        ExportFormat::LaTeX,
        ExportFormat::Epub,
        ExportFormat::Mobi,
        ExportFormat::Scrivener,
        ExportFormat::FinalDraft,
    ]
}

pub fn get_export_formats() -> (r: Vec<ExportFormat>)
    ensures
        r@ == all_formats(),
{
    let mut r: Vec<ExportFormat> = Vec::new();
    r.push(ExportFormat::ShunnManuscript);
    r.push(ExportFormat::QueryPackage);
    r.push(ExportFormat::SynopsisShort);
    r.push(ExportFormat::SynopsisLong);
    r.push(ExportFormat::PitchSheet);
    r.push(ExportFormat::BookProposal);
    r.push(ExportFormat::ScreenplayFinal);
    r.push(ExportFormat::StagePlayStandard);
    r.push(ExportFormat::StandardManuscript);
    r.push(ExportFormat::Docx);
    r.push(ExportFormat::PDF);
    r.push(ExportFormat::Markdown);
    r.push(ExportFormat::LaTeX);
    r.push(ExportFormat::Epub);
    r.push(ExportFormat::Mobi);
    r.push(ExportFormat::Scrivener);
    r.push(ExportFormat::FinalDraft);
    assert(r@ =~= all_formats());
    r
}

/// The caution that comes with a format, if it has one.
pub open spec fn format_warning(format: ExportFormat) -> Option<Seq<char>> {
    match format {
        ExportFormat::PDF => Some("PDF export may require additional setup"@),
        ExportFormat::Epub | ExportFormat::Mobi => Some("eBook formats may have limited formatting options"@),
        ExportFormat::FinalDraft => Some("Final Draft format is optimized for screenplays"@),
        _ => None,
    }
}

/// The caution to show before exporting to `format`, if any.
pub fn export_format_warning(format: ExportFormat) -> (r: Option<String>)
    ensures
        r is Some <==> format_warning(format) is Some,
        r is Some ==> r->0@ == format_warning(format)->0,
{
    match format {
        ExportFormat::PDF => Some(String::from_str("PDF export may require additional setup")),
        ExportFormat::Epub | ExportFormat::Mobi => Some(
            String::from_str("eBook formats may have limited formatting options"),
        ),
        ExportFormat::FinalDraft => Some(String::from_str("Final Draft format is optimized for screenplays")),
        _ => None,
    }
}

} // verus!

//! Reading RTF documents into text, metadata and HTML paragraphs.

use vstd::prelude::*;
use vstd::string::*;
use crate::error::AppError;
use crate::export::{escaped, escape_text, Markup};
use crate::text::{char_vec, push_char, trim_white, trim_bounds, push_range};

verus! {

/// Where a scan of RTF text stands: inside a control word or not, the control
/// word read so far, the group depth, the bold and italic switches, the author
/// and title found, and the document text gathered.
pub struct RtfScan {
    pub in_control: bool,
    pub word: Seq<char>,
    pub depth: int,
    pub bold: bool,
    pub italic: bool,
    pub author: Option<Seq<char>>,
    pub title: Option<Seq<char>>,
    pub text: Seq<char>,
}

pub open spec fn author_prefix() -> Seq<char> {
    seq!['a', 'u', 't', 'h', 'o', 'r']
}

pub open spec fn title_prefix() -> Seq<char> {
    seq!['t', 'i', 't', 'l', 'e']
}

pub open spec fn starts_with(s: Seq<char>, p: Seq<char>) -> bool {
    s.len() >= p.len() && s.take(p.len() as int) == p
}

/// The effect of a finished control word: `b`/`b0` and `i`/`i0` switch bold
/// and italic; `author <name>` and `title <name>` record metadata.
pub open spec fn apply_control(s: RtfScan, w: Seq<char>) -> RtfScan {
    if w == seq!['b'] {
        RtfScan { bold: true, ..s }
    } else if w == seq!['b', '0'] {
        RtfScan { bold: false, ..s }
    } else if w == seq!['i'] {
        RtfScan { italic: true, ..s }
    } else if w == seq!['i', '0'] {
        RtfScan { italic: false, ..s }
    } else if starts_with(w, author_prefix()) {
        if starts_with(w, author_prefix().push(' ')) {
            RtfScan { author: Some(w.skip(7)), ..s }
        } else {
            s
        }
    } else if starts_with(w, title_prefix()) {
        if starts_with(w, title_prefix().push(' ')) {
            RtfScan { title: Some(w.skip(6)), ..s }
        } else {
            s
        }
    } else {
        s
    }
}

/// The scan after one more character.
pub open spec fn rtf_step(s: RtfScan, c: char) -> RtfScan {
    if c == '\\' {
        if s.in_control {
            RtfScan { text: s.text.push('\\'), in_control: false, ..s }
        } else if s.word.len() > 0 {
            RtfScan { word: Seq::empty(), in_control: true, ..apply_control(s, s.word) }
        } else {
            RtfScan { in_control: true, ..s }
        }
    } else if c == '{' {
        RtfScan { depth: s.depth + 1, in_control: false, word: Seq::empty(), ..s }
    } else if c == '}' {
        let closed = RtfScan { depth: s.depth - 1, in_control: false, word: Seq::empty(), ..s };
        if closed.depth == 1 {
            RtfScan { bold: false, italic: false, ..closed }
        } else {
            closed
        }
    } else if c == ' ' || c == '\n' || c == '\r' {
        let ended = if s.in_control {
            RtfScan { word: Seq::empty(), in_control: false, ..apply_control(s, s.word) }
        } else {
            s
        };
        if ended.depth > 0 {
            RtfScan { text: ended.text.push(' '), ..ended }
        } else {
            ended
        }
    } else if s.in_control {
        RtfScan { word: s.word.push(c), ..s }
    } else if s.depth > 0 {
        RtfScan { text: s.text.push(c), ..s }
    } else {
        s
    }
}

pub open spec fn rtf_start() -> RtfScan {
    RtfScan {
        in_control: false,
        word: Seq::empty(),
        depth: 0,
        bold: false,
        italic: false,
        author: None,
        title: None,
        text: Seq::empty(),
    }
}

/// The scan after every character of `cs`.
pub open spec fn rtf_scan(cs: Seq<char>) -> RtfScan
    decreases cs.len(),
{
    if cs.len() == 0 {
        rtf_start()
    } else {
        rtf_step(rtf_scan(cs.drop_last()), cs.last())
    }
}

pub open spec fn opt_view(o: Option<String>) -> Option<Seq<char>> {
    match o {
        Some(s) => Some(s@),
        None => None,
    }
}

/// One paragraph of an RTF document, with its formatting.
#[derive(Debug, Clone)]
pub struct RtfParagraph {
    pub text: String,
    pub is_bold: bool,
    pub is_italic: bool,
    pub is_heading: bool,
}

/// What an RTF document yields: its text, metadata found in control words,
/// and its paragraphs.
#[derive(Debug, Clone)]
pub struct RtfDocument {
    pub plain_text: String,
    pub author: Option<String>,
    pub title: Option<String>,
    pub has_complex_formatting: bool,
    pub paragraphs: Vec<RtfParagraph>,
}

fn has_prefix(w: &Vec<char>, p: &[char]) -> (r: bool)
    ensures
        r == starts_with(w@, p@),
{
    if w.len() < p.len() {
        return false;
    }
    let mut i: usize = 0;
    while i < p.len()
        invariant
            p.len() <= w.len(),
            i <= p.len(),
            forall|j: int| 0 <= j < i ==> w@[j] == p@[j],
        decreases p.len() - i,
    {
        if w[i] != p[i] {
            assert(w@.take(p@.len() as int)[i as int] != p@[i as int]);
            return false;
        }
        i = i + 1;
    }
    assert(w@.take(p@.len() as int) =~= p@);
    true
}

fn chars_from(w: &Vec<char>, k: usize) -> (r: String)
    requires
        k <= w.len(),
    ensures
        r@ == w@.skip(k as int),
{
    let mut r = String::new();
    let mut i = k;
    while i < w.len()
        invariant
            k <= i <= w.len(),
            r@ == w@.subrange(k as int, i as int),
        decreases w.len() - i,
    {
        push_char(&mut r, w[i]);
        assert(w@.subrange(k as int, i + 1) =~= w@.subrange(k as int, i as int).push(w@[i as int]));
        i = i + 1;
    }
    assert(w@.skip(k as int) =~= w@.subrange(k as int, w.len() as int));
    r
}

/// Applies a finished control word to the formatting switches and metadata.
fn process_rtf_control_word(
    word: &Vec<char>,
    bold: &mut bool,
    italic: &mut bool,
    author: &mut Option<String>,
    title: &mut Option<String>,
    Ghost(s): Ghost<RtfScan>,
)
    requires
        s.bold == *old(bold),
        s.italic == *old(italic),
        s.author == opt_view(*old(author)),
        s.title == opt_view(*old(title)),
    ensures
        apply_control(s, word@).bold == *final(bold),
        apply_control(s, word@).italic == *final(italic),
        apply_control(s, word@).author == opt_view(*final(author)),
        apply_control(s, word@).title == opt_view(*final(title)),
{
    let author_word: [char; 7] = ['a', 'u', 't', 'h', 'o', 'r', ' '];
    let title_word: [char; 6] = ['t', 'i', 't', 'l', 'e', ' '];
    assert(author_word@ =~= author_prefix().push(' '));
    assert(title_word@ =~= title_prefix().push(' '));
    assert(author_word@.take(6) =~= author_prefix());
    assert(title_word@.take(5) =~= title_prefix());
    if word.len() == 1 && word[0] == 'b' {
        assert(word@ =~= seq!['b']);
        *bold = true;
    } else if word.len() == 2 && word[0] == 'b' && word[1] == '0' {
        assert(word@ =~= seq!['b', '0']);
        *bold = false;
    } else if word.len() == 1 && word[0] == 'i' {
        assert(word@ =~= seq!['i']);
        *italic = true;
    } else if word.len() == 2 && word[0] == 'i' && word[1] == '0' {
        assert(word@ =~= seq!['i', '0']);
        *italic = false;
    } else if has_prefix(word, &author_word[0..6]) {
        if has_prefix(word, &author_word) {
            *author = Some(chars_from(word, 7));
        }
    } else if has_prefix(word, &title_word[0..5]) {
        if has_prefix(word, &title_word) {
            *title = Some(chars_from(word, 6));
        }
    }
}

/// Reads RTF text: control words set formatting and metadata, group braces
/// nest, an escaped backslash is kept, and the characters inside groups (line
/// breaks as spaces) form the document text. The text, if not blank, is one
/// paragraph with the formatting in force at the end.
pub fn parse_rtf_content(rtf: &str) -> (r: RtfDocument)
    ensures
        opt_view(r.author) == rtf_scan(rtf@).author,
        opt_view(r.title) == rtf_scan(rtf@).title,
        !r.has_complex_formatting,
        trim_white(rtf_scan(rtf@).text).len() > 0 ==> r.plain_text@ == rtf_scan(rtf@).text
            && r.paragraphs.len() == 1 && r.paragraphs[0].text@ == trim_white(rtf_scan(rtf@).text)
            && r.paragraphs[0].is_bold == rtf_scan(rtf@).bold && r.paragraphs[0].is_italic == rtf_scan(
            rtf@,
        ).italic && !r.paragraphs[0].is_heading,
        trim_white(rtf_scan(rtf@).text).len() == 0 ==> r.plain_text@.len() == 0 && r.paragraphs.len() == 0,
{
    let cs = char_vec(rtf);
    let mut in_control = false;
    let mut word: Vec<char> = Vec::new();
    let mut depth: i128 = 0;
    let mut bold = false;
    let mut italic = false;
    let mut author: Option<String> = None;
    let mut title: Option<String> = None;
    let mut text = String::new();
    let mut i: usize = 0;
    assert(cs@.take(0) =~= Seq::<char>::empty());
    while i < cs.len()
        invariant
            cs@ == rtf@,
            i <= cs.len(),
            -(i as int) <= depth <= i,
            rtf_scan(cs@.take(i as int)) == (RtfScan {
                in_control,
                word: word@,
                depth: depth as int,
                bold,
                italic,
                author: opt_view(author),
                title: opt_view(title),
                text: text@,
            }),
        decreases cs.len() - i,
    {
        let ghost s = rtf_scan(cs@.take(i as int));
        let c = cs[i];
        if c == '\\' {
            if in_control {
                push_char(&mut text, '\\');
                in_control = false;
            } else {
                if word.len() > 0 {
                    process_rtf_control_word(&word, &mut bold, &mut italic, &mut author, &mut title, Ghost(s));
                    word = Vec::new();
                }
                in_control = true;
            }
        } else if c == '{' {
            depth = depth + 1;
            in_control = false;
            word = Vec::new();
        } else if c == '}' {
            depth = depth - 1;
            in_control = false;
            word = Vec::new();
            if depth == 1 {
                bold = false;
                italic = false;
            }
        } else if c == ' ' || c == '\n' || c == '\r' {
            if in_control {
                process_rtf_control_word(&word, &mut bold, &mut italic, &mut author, &mut title, Ghost(s));
                word = Vec::new();
                in_control = false;
            }
            if depth > 0 {
                push_char(&mut text, ' ');
            }
        } else if in_control {
            word.push(c);
        } else if depth > 0 {
            push_char(&mut text, c);
        }
        proof {
            assert(cs@.take(i + 1).drop_last() =~= cs@.take(i as int));
            assert(cs@.take(i + 1).last() == c);
            assert(word@ =~= rtf_step(s, c).word);
            assert(text@ =~= rtf_step(s, c).text);
        }
        i = i + 1;
    }
    proof {
        assert(cs@.take(cs@.len() as int) =~= cs@);
    }
    let tv = char_vec(text.as_str());
    let (lo, hi) = trim_bounds(&tv, 0, tv.len());
    assert(tv@.subrange(0, tv@.len() as int) =~= tv@);
    let mut paragraphs: Vec<RtfParagraph> = Vec::new();
    let plain_text = if lo < hi {
        let mut t = String::new();
        push_range(&mut t, &tv, lo, hi);
        paragraphs.push(RtfParagraph { text: t, is_bold: bold, is_italic: italic, is_heading: false });
        text
    } else {
        String::new()
    };
    RtfDocument { plain_text, author, title, has_complex_formatting: false, paragraphs }
}

/// The HTML of one RTF paragraph: escaped text in a `<p>`, inside `<strong>`
/// and `<em>` as its formatting says.
pub open spec fn rtf_paragraph_html(text: Seq<char>, bold: bool, italic: bool) -> Seq<char> {
    "<p>"@ + (if bold {
        "<strong>"@
    } else {
        Seq::empty()
    }) + (if italic {
        "<em>"@
    } else {
        Seq::empty()
    }) + escaped(Markup::Html, text) + (if italic {
        "</em>"@
    } else {
        Seq::empty()
    }) + (if bold {
        "</strong>"@
    } else {
        Seq::empty()
    }) + "</p>\n"@
}

pub open spec fn rtf_html_of(ps: Seq<RtfParagraph>) -> Seq<char>
    decreases ps.len(),
{
    if ps.len() == 0 {
        Seq::empty()
    } else {
        rtf_html_of(ps.drop_last()) + rtf_paragraph_html(ps.last().text@, ps.last().is_bold, ps.last().is_italic)
    }
}

/// The HTML of an RTF document's paragraphs, one `<p>` each. A document
/// without paragraphs has no text, and gives no HTML.
pub fn convert_rtf_to_html(document: &RtfDocument) -> (r: String)
    ensures
        r@ == rtf_html_of(document.paragraphs@),
{
    let ps = &document.paragraphs;
    let mut html = String::new();
    let mut k: usize = 0;
    while k < ps.len()
        invariant
            k <= ps.len(),
            html@ == rtf_html_of(ps@.take(k as int)),
        decreases ps.len() - k,
    {
        let p = &ps[k];
        let ghost before = html@;
        html.append("<p>");
        if p.is_bold {
            html.append("<strong>");
        }
        if p.is_italic {
            html.append("<em>");
        }
        let body = escape_text(Markup::Html, p.text.as_str());
        html.append(body.as_str());
        if p.is_italic {
            html.append("</em>");
        }
        if p.is_bold {
            html.append("</strong>");
        }
        html.append("</p>\n");
        proof {
            assert(html@ =~= before + rtf_paragraph_html(p.text@, p.is_bold, p.is_italic));
            assert(ps@.take(k + 1).drop_last() =~= ps@.take(k as int));
        }
        k = k + 1;
    }
    assert(ps@.take(ps@.len() as int) =~= ps@);
    html
}

/// What an RTF file yields on import: its HTML, author, title and warnings.
#[derive(Debug, Clone)]
pub struct RtfImport {
    pub html: String,
    pub author: Option<String>,
    pub title: Option<String>,
    pub warnings: Vec<String>,
}

pub open spec fn rtf_header() -> Seq<char> {
    seq!['{', '\\', 'r', 't', 'f']
}

/// Imports the text of an RTF file: it must start with the RTF signature;
/// then it is read and its paragraphs become HTML.
pub fn import_rtf_content(rtf: &str) -> (r: Result<RtfImport, AppError>)
    ensures
        !starts_with(rtf@, rtf_header()) ==> r is Err && (r->Err_0 matches AppError::Validation {
            message,
            field,
            value,
            ..
        } && message@ == "Invalid RTF file: missing RTF header"@ && field is Some && field->0@
            == "rtf_content"@ && value is Some && value->0@ == "File does not start with RTF signature"@),
        starts_with(rtf@, rtf_header()) ==> r is Ok && opt_view(r->Ok_0.author) == rtf_scan(rtf@).author
            && opt_view(r->Ok_0.title) == rtf_scan(rtf@).title && r->Ok_0.warnings.len() == 0 && r->Ok_0.html@
            == (if trim_white(rtf_scan(rtf@).text).len() > 0 {
            rtf_paragraph_html(trim_white(rtf_scan(rtf@).text), rtf_scan(rtf@).bold, rtf_scan(rtf@).italic)
        } else {
            Seq::empty()
        }),
{
    let cs = char_vec(rtf);
    let header: [char; 5] = ['{', '\\', 'r', 't', 'f'];
    assert(header@ =~= rtf_header());
    if !has_prefix(&cs, &header) {
        return Err(
            AppError::validation_field(
                "Invalid RTF file: missing RTF header",
                "rtf_content",
                "File does not start with RTF signature",
            ),
        );
    }
    let document = parse_rtf_content(rtf);
    let html = convert_rtf_to_html(&document);
    proof {
        assert(rtf_html_of(Seq::<RtfParagraph>::empty()) == Seq::<char>::empty());
        if document.paragraphs.len() == 1 {
            assert(document.paragraphs@.drop_last() =~= Seq::<RtfParagraph>::empty());
            assert(document.paragraphs@.last() == document.paragraphs@[0]);
            assert(html@ =~= rtf_paragraph_html(
                document.paragraphs@[0].text@,
                document.paragraphs@[0].is_bold,
                document.paragraphs@[0].is_italic,
            ));
        } else {
            assert(document.paragraphs@ =~= Seq::<RtfParagraph>::empty());
        }
    }
    Ok(RtfImport { html, author: document.author, title: document.title, warnings: Vec::new() })
}

} // verus!

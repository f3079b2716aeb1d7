//! Text helpers: white space, words, decimal numbers, paragraphs and the
//! script layouts of prose.

use vstd::prelude::*;
use vstd::string::*;
use vstd::utf8::encode_utf8;

verus! {

/// The characters of `s`, in order.
pub(crate) fn char_vec(s: &str) -> (r: Vec<char>)
    ensures
        r@ == s@,
{
    let mut r: Vec<char> = Vec::new();
    for c in it: s.chars()
        invariant
            it.seq() == s@,
            r@ == s@.take(it.index() as int),
    {
        r.push(c);
        assert(r@ =~= s@.take(it.index() + 1));
    }
    assert(s@.take(s@.len() as int) =~= s@);
    r
}

/// Relies on String::push: appends one character.
#[verifier::external_body]
pub(crate) fn push_char(s: &mut String, c: char)
    ensures
        final(s)@ == old(s)@.push(c),
{
    s.push(c)
}

/// The characters with the Unicode White_Space property.
pub open spec fn is_white_space(c: char) -> bool {
    let u = c as u32;
    (0x09 <= u <= 0x0d) || u == 0x20 || u == 0x85 || u == 0xa0 || u == 0x1680 || (0x2000 <= u
        <= 0x200a) || u == 0x2028 || u == 0x2029 || u == 0x202f || u == 0x205f || u == 0x3000
}

pub fn white_space(c: char) -> (r: bool)
    ensures
        r == is_white_space(c),
{
    let u = c as u32;
    (0x09 <= u && u <= 0x0d) || u == 0x20 || u == 0x85 || u == 0xa0 || u == 0x1680 || (0x2000 <= u
        && u <= 0x200a) || u == 0x2028 || u == 0x2029 || u == 0x202f || u == 0x205f || u == 0x3000
}

/// Every character of `s` is white space (so `s` trims to nothing).
pub open spec fn all_white(s: Seq<char>) -> bool {
    forall|i: int| 0 <= i < s.len() ==> is_white_space(#[trigger] s[i])
}

/// A word starts at `i`: a non-space character first or after a space.
pub open spec fn word_starts_at(s: Seq<char>, i: int) -> bool {
    0 <= i < s.len() && !is_white_space(s[i]) && (i == 0 || is_white_space(s[i - 1]))
}

/// The number of words of `s`: maximal runs of characters that are not white
/// space.
pub open spec fn word_count(s: Seq<char>) -> nat
    decreases s.len(),
{
    if s.len() == 0 {
        0
    } else {
        word_count(s.drop_last()) + if word_starts_at(s, s.len() - 1) {
            1nat
        } else {
            0nat
        }
    }
}

proof fn lemma_word_count_prefix(s: Seq<char>, i: int)
    requires
        0 <= i < s.len(),
    ensures
        word_count(s.take(i + 1)) == word_count(s.take(i)) + if word_starts_at(s, i) {
            1nat
        } else {
            0nat
        },
{
    let t = s.take(i + 1);
    assert(t.drop_last() =~= s.take(i));
    assert(word_starts_at(t, i) == word_starts_at(s, i));
}

proof fn lemma_word_count_bound(s: Seq<char>)
    ensures
        word_count(s) <= s.len(),
    decreases s.len(),
{
    if s.len() > 0 {
        lemma_word_count_bound(s.drop_last());
    }
}

pub fn is_blank_text(text: &str) -> (r: bool)
    ensures
        r == all_white(text@),
{
    let cs = char_vec(text);
    let mut i: usize = 0;
    while i < cs.len()
        invariant
            cs@ == text@,
            i <= cs.len(),
            forall|j: int| 0 <= j < i ==> is_white_space(#[trigger] cs@[j]),
        decreases cs.len() - i,
    {
        if !white_space(cs[i]) {
            return false;
        }
        i = i + 1;
    }
    true
}

/// The number of words in `text`.
pub fn count_words(text: &str) -> (r: usize)
    ensures
        r == word_count(text@),
{
    let cs = char_vec(text);
    let mut n: usize = 0;
    let mut i: usize = 0;
    while i < cs.len()
        invariant
            cs@ == text@,
            i <= cs.len(),
            n == word_count(cs@.take(i as int)),
        decreases cs.len() - i,
    {
        proof {
            lemma_word_count_prefix(cs@, i as int);
            lemma_word_count_bound(cs@.take(i as int));
        }
        if !white_space(cs[i]) && (i == 0 || white_space(cs[i - 1])) {
            n = n + 1;
        }
        i = i + 1;
    }
    proof {
        assert(cs@.take(cs@.len() as int) =~= cs@);
    }
    n
}

/// The number of words in `text`, as the 32-bit count the records store
/// (wrapping past `u32::MAX`).
pub fn calculate_word_count(text: &str) -> (r: u32)
    ensures
        r == word_count(text@) as u32,
{
    count_words(text) as u32
}

pub open spec fn digit_char(d: nat) -> char {
    if d == 0 {
        '0'
    } else if d == 1 {
        '1'
    } else if d == 2 {
        '2'
    } else if d == 3 {
        '3'
    } else if d == 4 {
        '4'
    } else if d == 5 {
        '5'
    } else if d == 6 {
        '6'
    } else if d == 7 {
        '7'
    } else if d == 8 {
        '8'
    } else {
        '9'
    }
}

/// `n` written in decimal, without leading zeros.
pub open spec fn decimal(n: nat) -> Seq<char>
    decreases n,
{
    if n < 10 {
        seq![digit_char(n)]
    } else {
        decimal(n / 10).push(digit_char(n % 10))
    }
}

fn digit(d: u64) -> (c: char)
    requires
        d < 10,
    ensures
        c == digit_char(d as nat),
{
    if d == 0 {
        '0'
    } else if d == 1 {
        '1'
    } else if d == 2 {
        '2'
    } else if d == 3 {
        '3'
    } else if d == 4 {
        '4'
    } else if d == 5 {
        '5'
    } else if d == 6 {
        '6'
    } else if d == 7 {
        '7'
    } else if d == 8 {
        '8'
    } else {
        '9'
    }
}

/// Appends `n` in decimal.
pub fn push_decimal(s: &mut String, n: u64)
    ensures
        final(s)@ == old(s)@ + decimal(n as nat),
    decreases n,
{
    if n >= 10 {
        push_decimal(s, n / 10);
    }
    push_char(s, digit(n % 10));
}

/// `n` written in decimal, with a minus sign when negative.
pub open spec fn signed_decimal(n: int) -> Seq<char> {
    if n < 0 {
        seq!['-'] + decimal((-n) as nat)
    } else {
        decimal(n as nat)
    }
}

/// Appends `n` in decimal, with a minus sign when negative.
pub fn push_signed_decimal(s: &mut String, n: i64)
    ensures
        final(s)@ == old(s)@ + signed_decimal(n as int),
{
    if n < 0 {
        push_char(s, '-');
        let m: u64 = if n == i64::MIN {
            0x8000_0000_0000_0000u64
        } else {
            (-n) as u64
        };
        push_decimal(s, m);
        assert(final(s)@ =~= old(s)@ + signed_decimal(n as int));
    } else {
        push_decimal(s, n as u64);
    }
}

/// The pieces of `s` between blank lines (two line feeds), found left to
/// right; `start` is where the current piece began and `i` where the scan is.
pub open spec fn split_from(s: Seq<char>, start: int, i: int) -> Seq<Seq<char>>
    decreases s.len() - i,
{
    if 0 <= i && i + 1 < s.len() {
        if s[i] == '\n' && s[i + 1] == '\n' {
            seq![s.subrange(start, i)] + split_from(s, i + 2, i + 2)
        } else {
            split_from(s, start, i + 1)
        }
    } else {
        seq![s.subrange(start, s.len() as int)]
    }
}

/// The paragraphs of `s`: its pieces between blank lines. There is always at
/// least one, possibly empty.
pub open spec fn paragraphs(s: Seq<char>) -> Seq<Seq<char>> {
    split_from(s, 0, 0)
}

pub open spec fn trim_start_white(s: Seq<char>) -> Seq<char>
    decreases s.len(),
{
    if s.len() > 0 && is_white_space(s[0]) {
        trim_start_white(s.drop_first())
    } else {
        s
    }
}

pub open spec fn trim_end_white(s: Seq<char>) -> Seq<char>
    decreases s.len(),
{
    if s.len() > 0 && is_white_space(s.last()) {
        trim_end_white(s.drop_last())
    } else {
        s
    }
}

/// `s` without leading and trailing white space.
pub open spec fn trim_white(s: Seq<char>) -> Seq<char> {
    trim_end_white(trim_start_white(s))
}

/// Each pair of `r` bounds a part of `cs`, and the parts are `ps`, in order.
pub open spec fn bounds_match(cs: Seq<char>, r: Seq<(usize, usize)>, ps: Seq<Seq<char>>) -> bool {
    r.len() == ps.len() && forall|k: int|
        0 <= k < r.len() ==> (#[trigger] r[k]).0 <= r[k].1 <= cs.len() && ps[k] == cs.subrange(
            r[k].0 as int,
            r[k].1 as int,
        )
}

/// The start and end of each paragraph of `cs`, in order.
pub fn paragraph_bounds(cs: &Vec<char>) -> (r: Vec<(usize, usize)>)
    ensures
        bounds_match(cs@, r@, paragraphs(cs@)),
{
    let mut r: Vec<(usize, usize)> = Vec::new();
    let ghost mut pieces: Seq<Seq<char>> = Seq::empty();
    let mut start: usize = 0;
    let mut i: usize = 0;
    while cs.len() - i >= 2
        invariant
            start <= i <= cs.len(),
            pieces + split_from(cs@, start as int, i as int) == paragraphs(cs@),
            bounds_match(cs@, r@, pieces),
        decreases cs.len() - i,
    {
        if cs[i] == '\n' && cs[i + 1] == '\n' {
            let ghost rest = split_from(cs@, i + 2, i + 2);
            assert(pieces + split_from(cs@, start as int, i as int) =~= pieces.push(
                cs@.subrange(start as int, i as int),
            ) + rest);
            let ghost old_r = r@;
            r.push((start, i));
            proof {
                pieces = pieces.push(cs@.subrange(start as int, i as int));
                assert forall|k: int| 0 <= k < r@.len() implies (#[trigger] r@[k]).0 <= r@[k].1 <= cs.len()
                    && pieces[k] == cs@.subrange(r@[k].0 as int, r@[k].1 as int) by {
                    if k < r@.len() - 1 {
                        assert(r@[k] == old_r[k]);
                    }
                }
            }
            i = i + 2;
            start = i;
        } else {
            i = i + 1;
        }
    }
    assert(pieces + split_from(cs@, start as int, i as int) =~= pieces.push(
        cs@.subrange(start as int, cs.len() as int),
    ));
    let ghost old_r = r@;
    r.push((start, cs.len()));
    proof {
        pieces = pieces.push(cs@.subrange(start as int, cs.len() as int));
        assert forall|k: int| 0 <= k < r@.len() implies (#[trigger] r@[k]).0 <= r@[k].1 <= cs.len()
            && pieces[k] == cs@.subrange(r@[k].0 as int, r@[k].1 as int) by {
            if k < r@.len() - 1 {
                assert(r@[k] == old_r[k]);
            }
        }
    }
    r
}

/// The part of `cs[a..b]` left after trimming white space.
pub fn trim_bounds(cs: &Vec<char>, a: usize, b: usize) -> (r: (usize, usize))
    requires
        a <= b <= cs.len(),
    ensures
        a <= r.0 <= r.1 <= b,
        cs@.subrange(r.0 as int, r.1 as int) == trim_white(cs@.subrange(a as int, b as int)),
{
    let mut lo = a;
    assert(cs@.subrange(a as int, b as int) == cs@.subrange(lo as int, b as int));
    while lo < b && white_space(cs[lo])
        invariant
            a <= lo <= b <= cs.len(),
            trim_start_white(cs@.subrange(a as int, b as int)) == trim_start_white(
                cs@.subrange(lo as int, b as int),
            ),
        decreases b - lo,
    {
        assert(cs@.subrange(lo as int, b as int).drop_first() =~= cs@.subrange(lo + 1, b as int));
        lo = lo + 1;
    }
    let ghost front = cs@.subrange(lo as int, b as int);
    assert(trim_start_white(front) == front) by {
        if front.len() > 0 {
            assert(front[0] == cs@[lo as int]);
        }
    }
    let mut hi = b;
    while hi > lo && white_space(cs[hi - 1])
        invariant
            a <= lo <= hi <= b <= cs.len(),
            trim_end_white(front) == trim_end_white(cs@.subrange(lo as int, hi as int)),
        decreases hi - lo,
    {
        assert(cs@.subrange(lo as int, hi as int).drop_last() =~= cs@.subrange(lo as int, hi - 1));
        hi = hi - 1;
    }
    let ghost t = cs@.subrange(lo as int, hi as int);
    assert(trim_end_white(t) == t) by {
        if t.len() > 0 {
            assert(t.last() == cs@[hi - 1]);
        }
    }
    (lo, hi)
}

/// Appends `cs[a..b]`.
pub fn push_range(out: &mut String, cs: &Vec<char>, a: usize, b: usize)
    requires
        a <= b <= cs.len(),
    ensures
        final(out)@ == old(out)@ + cs@.subrange(a as int, b as int),
{
    let mut i = a;
    while i < b
        invariant
            a <= i <= b <= cs.len(),
            out@ == old(out)@ + cs@.subrange(a as int, i as int),
        decreases b - i,
    {
        push_char(out, cs[i]);
        assert(cs@.subrange(a as int, i + 1) =~= cs@.subrange(a as int, i as int).push(cs@[i as int]));
        i = i + 1;
    }
}

/// A paragraph as a manuscript page sets it: trimmed and indented by four
/// spaces, or nothing at all if it is blank.
pub open spec fn indented_paragraph(p: Seq<char>) -> Seq<char> {
    if trim_white(p).len() == 0 {
        Seq::empty()
    } else {
        "    "@ + trim_white(p)
    }
}

/// The paragraphs, each indented, separated by blank lines.
pub open spec fn indented_join(ps: Seq<Seq<char>>) -> Seq<char>
    decreases ps.len(),
{
    if ps.len() == 0 {
        Seq::empty()
    } else if ps.len() == 1 {
        indented_paragraph(ps[0])
    } else {
        indented_join(ps.drop_last()) + "\n\n"@ + indented_paragraph(ps.last())
    }
}

/// Text laid out as a manuscript: every paragraph trimmed and indented, blank
/// ones emptied, paragraphs still separated by blank lines.
pub fn indent_paragraphs(content: &str) -> (r: String)
    ensures
        r@ == indented_join(paragraphs(content@)),
{
    let cs = char_vec(content);
    let bounds = paragraph_bounds(&cs);
    let mut out = String::new();
    let mut k: usize = 0;
    while k < bounds.len()
        invariant
            cs@ == content@,
            bounds_match(cs@, bounds@, paragraphs(cs@)),
            k <= bounds.len(),
            out@ == indented_join(paragraphs(cs@).take(k as int)),
        decreases bounds.len() - k,
    {
        let (a, b) = bounds[k];
        assert(bounds@[k as int] == (a, b));
        assert(paragraphs(cs@)[k as int] == cs@.subrange(a as int, b as int));
        if k > 0 {
            out.append("\n\n");
        }
        let (lo, hi) = trim_bounds(&cs, a, b);
        if lo < hi {
            out.append("    ");
            push_range(&mut out, &cs, lo, hi);
        }
        proof {
            let t = paragraphs(cs@).take(k + 1);
            assert(t.drop_last() =~= paragraphs(cs@).take(k as int));
            assert(t.last() == paragraphs(cs@)[k as int]);
            if k == 0 {
                assert(paragraphs(cs@).take(0) =~= Seq::<Seq<char>>::empty());
            }
            assert(out@ =~= indented_join(t));
        }
        k = k + 1;
    }
    assert(paragraphs(cs@).take(paragraphs(cs@).len() as int) =~= paragraphs(cs@));
    out
}

/// The upper-case form of a text, as std's Unicode case mapping gives it.
pub uninterp spec fn upper_of(s: Seq<char>) -> Seq<char>;

/// Relies on str::to_uppercase: the upper-case form of `s`, which depends on
/// the characters of `s` alone.
#[verifier::external_body]
pub(crate) fn uppercase(s: &str) -> (r: String)
    ensures
        r@ == upper_of(s@),
{
    s.to_uppercase()
}

/// `s` with every double quote removed.
pub open spec fn without_quotes(s: Seq<char>) -> Seq<char>
    decreases s.len(),
{
    if s.len() == 0 {
        Seq::empty()
    } else {
        without_quotes(s.drop_last()) + if s.last() == '"' {
            Seq::empty()
        } else {
            seq![s.last()]
        }
    }
}

/// The script forms prose can be turned into.
#[derive(Debug, Clone, Copy, PartialEq, Eq, Structural)]
pub enum Script {
    Screenplay,
    StagePlay,
}

/// One paragraph of prose in script form. Blank paragraphs vanish; one with a
/// double quote is dialogue, given to a placeholder character without its
/// quotes; any other is action (screenplay, in capitals) or a stage direction
/// (stage play, in parentheses).
pub open spec fn script_paragraph(script: Script, p: Seq<char>) -> Seq<char> {
    if trim_white(p).len() == 0 {
        Seq::empty()
    } else if p.contains('"') {
        match script {
            Script::Screenplay => "                    CHARACTER\n"@ + "          "@ + trim_white(
                without_quotes(p),
            ) + "\n\n"@,
            Script::StagePlay => "CHARACTER: "@ + trim_white(without_quotes(p)) + "\n\n"@,
        }
    } else {
        match script {
            Script::Screenplay => upper_of(p) + "\n\n"@,
            Script::StagePlay => "("@ + trim_white(p) + ")\n\n"@,
        }
    }
}

pub open spec fn script_join(script: Script, ps: Seq<Seq<char>>) -> Seq<char>
    decreases ps.len(),
{
    if ps.len() == 0 {
        Seq::empty()
    } else {
        script_join(script, ps.drop_last()) + script_paragraph(script, ps.last())
    }
}

fn has_quote(cs: &Vec<char>, a: usize, b: usize) -> (r: bool)
    requires
        a <= b <= cs.len(),
    ensures
        r == cs@.subrange(a as int, b as int).contains('"'),
{
    let ghost p = cs@.subrange(a as int, b as int);
    let mut i = a;
    while i < b
        invariant
            a <= i <= b <= cs.len(),
            p == cs@.subrange(a as int, b as int),
            forall|j: int| a <= j < i ==> cs@[j] != '"',
        decreases b - i,
    {
        if cs[i] == '"' {
            assert(p[i - a] == '"');
            return true;
        }
        i = i + 1;
    }
    assert forall|j: int| 0 <= j < p.len() implies p[j] != '"' by {
        assert(p[j] == cs@[a + j]);
    }
    false
}

fn unquoted(cs: &Vec<char>, a: usize, b: usize) -> (r: Vec<char>)
    requires
        a <= b <= cs.len(),
    ensures
        r@ == without_quotes(cs@.subrange(a as int, b as int)),
{
    let mut r: Vec<char> = Vec::new();
    let mut i = a;
    while i < b
        invariant
            a <= i <= b <= cs.len(),
            r@ == without_quotes(cs@.subrange(a as int, i as int)),
        decreases b - i,
    {
        let ghost t = cs@.subrange(a as int, i + 1);
        assert(t.drop_last() =~= cs@.subrange(a as int, i as int));
        assert(t.last() == cs@[i as int]);
        if cs[i] != '"' {
            r.push(cs[i]);
        }
        assert(r@ =~= without_quotes(t));
        i = i + 1;
    }
    r
}

/// Prose turned into script form, paragraph by paragraph.
pub fn to_script(script: Script, content: &str) -> (r: String)
    ensures
        r@ == script_join(script, paragraphs(content@)),
{
    let cs = char_vec(content);
    let bounds = paragraph_bounds(&cs);
    let mut out = String::new();
    let mut k: usize = 0;
    while k < bounds.len()
        invariant
            cs@ == content@,
            bounds_match(cs@, bounds@, paragraphs(cs@)),
            k <= bounds.len(),
            out@ == script_join(script, paragraphs(cs@).take(k as int)),
        decreases bounds.len() - k,
    {
        let (a, b) = bounds[k];
        assert(bounds@[k as int] == (a, b));
        let ghost p = paragraphs(cs@)[k as int];
        assert(p == cs@.subrange(a as int, b as int));
        let (lo, hi) = trim_bounds(&cs, a, b);
        let ghost before = out@;
        if lo < hi {
            if has_quote(&cs, a, b) {
                let u = unquoted(&cs, a, b);
                let (ulo, uhi) = trim_bounds(&u, 0, u.len());
                assert(u@.subrange(0, u@.len() as int) =~= u@);
                match script {
                    Script::Screenplay => {
                        out.append("                    CHARACTER\n");
                        out.append("          ");
                    },
                    Script::StagePlay => {
                        out.append("CHARACTER: ");
                    },
                }
                push_range(&mut out, &u, ulo, uhi);
                out.append("\n\n");
                assert(out@ =~= before + script_paragraph(script, p));
            } else {
                match script {
                    Script::Screenplay => {
                        let mut para = String::new();
                        push_range(&mut para, &cs, a, b);
                        assert(para@ =~= p);
                        let up = uppercase(para.as_str());
                        out.append(up.as_str());
                        out.append("\n\n");
                    },
                    Script::StagePlay => {
                        out.append("(");
                        push_range(&mut out, &cs, lo, hi);
                        out.append(")\n\n");
                    },
                }
                assert(out@ =~= before + script_paragraph(script, p));
            }
        }
        assert(out@ =~= before + script_paragraph(script, p));
        proof {
            let t = paragraphs(cs@).take(k + 1);
            assert(t.drop_last() =~= paragraphs(cs@).take(k as int));
            assert(t.last() == p);
            assert(out@ =~= script_join(script, t));
        }
        k = k + 1;
    }
    assert(paragraphs(cs@).take(paragraphs(cs@).len() as int) =~= paragraphs(cs@));
    out
}

/// The lines that mark a scene break once trimmed, besides runs of `*`, `-`
/// and `#`.
pub open spec fn break_patterns() -> Seq<Seq<char>> {
    seq![
        seq!['*', '*', '*'],
        seq!['*', ' ', '*', ' ', '*'],
        seq!['-', '-', '-'],
        seq!['-', ' ', '-', ' ', '-'],
        seq!['#', '#', '#'],
        seq!['#', ' ', '#', ' ', '#'],
        seq!['\u{25ca}'],
        seq!['\u{25ca}', ' ', '\u{25ca}', ' ', '\u{25ca}'],
        seq!['\u{a7}'],
        seq!['\u{a7}', ' ', '\u{a7}', ' ', '\u{a7}'],
    ]
}

pub open spec fn is_rule_char(c: char) -> bool {
    c == '*' || c == '-' || c == '#' || is_white_space(c)
}

/// A line marks a scene break when, trimmed, it is one of the break patterns,
/// or it is at least three bytes of `*`, `-`, `#` and white space.
pub open spec fn scene_break_line(line: Seq<char>) -> bool {
    let t = trim_white(line);
    break_patterns().contains(t) || ((forall|k: int| 0 <= k < t.len() ==> is_rule_char(#[trigger] t[k]))
        && encode_utf8(t).len() >= 3)
}

fn range_equals(cs: &Vec<char>, a: usize, b: usize, p: &[char]) -> (r: bool)
    requires
        a <= b <= cs.len(),
    ensures
        r == (cs@.subrange(a as int, b as int) == p@),
{
    if b - a != p.len() {
        return false;
    }
    let mut i: usize = 0;
    while i < p.len()
        invariant
            b - a == p.len(),
            a <= b <= cs.len(),
            i <= p.len(),
            forall|j: int| 0 <= j < i ==> cs@[a + j] == p@[j],
        decreases p.len() - i,
    {
        if cs[a + i] != p[i] {
            assert(cs@.subrange(a as int, b as int)[i as int] != p@[i as int]);
            return false;
        }
        i = i + 1;
    }
    assert(cs@.subrange(a as int, b as int) =~= p@);
    true
}

/// Whether `line` marks a scene break.
pub fn is_scene_break_marker(line: &str) -> (r: bool)
    ensures
        r == scene_break_line(line@),
{
    let cs = char_vec(line);
    let (lo, hi) = trim_bounds(&cs, 0, cs.len());
    assert(cs@.subrange(0, cs@.len() as int) =~= cs@);
    let ghost t = cs@.subrange(lo as int, hi as int);
    let pattern_0: [char; 3] = ['*', '*', '*'];
    assert(pattern_0@ =~= break_patterns()[0]);
    let pattern_1: [char; 5] = ['*', ' ', '*', ' ', '*'];
    assert(pattern_1@ =~= break_patterns()[1]);
    let pattern_2: [char; 3] = ['-', '-', '-'];
    assert(pattern_2@ =~= break_patterns()[2]);
    let pattern_3: [char; 5] = ['-', ' ', '-', ' ', '-'];
    assert(pattern_3@ =~= break_patterns()[3]);
    let pattern_4: [char; 3] = ['#', '#', '#'];
    assert(pattern_4@ =~= break_patterns()[4]);
    let pattern_5: [char; 5] = ['#', ' ', '#', ' ', '#'];
    assert(pattern_5@ =~= break_patterns()[5]);
    let pattern_6: [char; 1] = ['\u{25ca}'];
    assert(pattern_6@ =~= break_patterns()[6]);
    let pattern_7: [char; 5] = ['\u{25ca}', ' ', '\u{25ca}', ' ', '\u{25ca}'];
    assert(pattern_7@ =~= break_patterns()[7]);
    let pattern_8: [char; 1] = ['\u{a7}'];
    assert(pattern_8@ =~= break_patterns()[8]);
    let pattern_9: [char; 5] = ['\u{a7}', ' ', '\u{a7}', ' ', '\u{a7}'];
    assert(pattern_9@ =~= break_patterns()[9]);
    let listed = range_equals(&cs, lo, hi, &pattern_0)
        || range_equals(&cs, lo, hi, &pattern_1)
        || range_equals(&cs, lo, hi, &pattern_2)
        || range_equals(&cs, lo, hi, &pattern_3)
        || range_equals(&cs, lo, hi, &pattern_4)
        || range_equals(&cs, lo, hi, &pattern_5)
        || range_equals(&cs, lo, hi, &pattern_6)
        || range_equals(&cs, lo, hi, &pattern_7)
        || range_equals(&cs, lo, hi, &pattern_8)
        || range_equals(&cs, lo, hi, &pattern_9);
    if listed {
        return true;
    }
    assert forall|j: int| 0 <= j < break_patterns().len() implies break_patterns()[j] != t by {}
    assert(!break_patterns().contains(t));
    let mut i = lo;
    while i < hi
        invariant
            lo <= i <= hi <= cs.len(),
            cs@ == line@,
            t == cs@.subrange(lo as int, hi as int),
            t == trim_white(line@),
            !break_patterns().contains(t),
            forall|j: int| 0 <= j < i - lo ==> is_rule_char(#[trigger] t[j]),
        decreases hi - i,
    {
        let c = cs[i];
        assert(t[i - lo] == c);
        if !(c == '*' || c == '-' || c == '#' || white_space(c)) {
            return false;
        }
        i = i + 1;
    }
    let mut trimmed = String::new();
    push_range(&mut trimmed, &cs, lo, hi);
    trimmed.as_str().as_bytes().len() >= 3
}

} // verus!

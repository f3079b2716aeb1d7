//! The statements behind each manuscript and scene command, built after the
//! command's input is validated.

use vstd::prelude::*;
use vstd::string::*;
use crate::cache::CacheSlot;
use crate::db::{cache_after_success, cached_answer, is_read_statement, lemma_not_read};
use crate::key::params_bytes;
use crate::error::AppError;
use vstd::utf8::encode_utf8;
use crate::text::{count_words, decimal, push_decimal, push_signed_decimal, signed_decimal, word_count};
use crate::validate::{
    manuscript_id_problem, reports, scene_id_problem, size_problem, title_problem, validate_manuscript_id,
    validate_scene_id, validate_title, Problem,
};

verus! {

/// One SQL statement with its positional parameters, all passed as text.
#[derive(Debug)]
pub struct Statement {
    pub sql: String,
    pub params: Vec<String>,
}

pub open spec fn texts(v: Seq<String>) -> Seq<Seq<char>> {
    v.map_values(|p: String| p@)
}

impl View for Statement {
    type V = (Seq<char>, Seq<Seq<char>>);

    open spec fn view(&self) -> (Seq<char>, Seq<Seq<char>>) {
        (self.sql@, texts(self.params@))
    }
}

pub open spec fn statement_views(v: Seq<Statement>) -> Seq<(Seq<char>, Seq<Seq<char>>)> {
    v.map_values(|s: Statement| s@)
}

/// No statement of `v` is a read: none is answered from the cache or changes it.
pub open spec fn writes_only(v: Seq<Statement>) -> bool {
    forall|i: int| 0 <= i < v.len() ==> !is_read_statement(encode_utf8(#[trigger] v[i].sql@))
}

/// The first problem of two checks made in turn.
pub open spec fn first_problem(a: Problem, b: Problem) -> Problem {
    if a is Some {
        a
    } else {
        b
    }
}

fn text(s: &str) -> (r: String)
    ensures
        r@ == s@,
{
    String::from_str(s)
}

fn unsigned_text(n: u64) -> (r: String)
    ensures
        r@ == decimal(n as nat),
{
    let mut s = String::new();
    push_decimal(&mut s, n);
    s
}

fn signed_text(n: i64) -> (r: String)
    ensures
        r@ == signed_decimal(n as int),
{
    let mut s = String::new();
    push_signed_decimal(&mut s, n);
    s
}

fn size_check(text: &str, limit: u64, message: &str, field: &str) -> (r: Result<(), AppError>)
    ensures
        reports(r, size_problem(text@, limit as nat, message@, field@)),
{
    let n = text.as_bytes().len() as u64;
    if n > limit {
        let mut v = String::new();
        push_decimal(&mut v, n);
        v.append(" chars");
        return Err(AppError::validation_field(message, field, v.as_str()));
    }
    Ok(())
}

/// The number of words of `text`, in decimal.
fn word_count_text(text: &str) -> (r: String)
    ensures
        r@ == decimal(word_count(text@)),
{
    let n = count_words(text);
    unsigned_text(n as u64)
}

/// Reads the manuscripts, most recently updated first.
pub fn get_manuscripts_statement() -> (r: Statement)
    ensures
        r@ == (
            "SELECT id, title, author, genre, created_at, updated_at, total_word_count FROM manuscripts ORDER BY updated_at DESC"@,
            Seq::<Seq<char>>::empty(),
        ),
{
    let r = Statement {
        sql: text(
            "SELECT id, title, author, genre, created_at, updated_at, total_word_count FROM manuscripts ORDER BY updated_at DESC",
        ),
        params: Vec::new(),
    };
    assert(texts(r.params@) =~= Seq::<Seq<char>>::empty());
    r
}

/// Reads the single manuscript of a one-manuscript library.
pub fn get_manuscript_statement() -> (r: Statement)
    ensures
        r@ == (
            "SELECT id, title, author, genre, created_at, updated_at, total_word_count, opening_strength_score, hook_effectiveness FROM manuscripts LIMIT 1"@,
            Seq::<Seq<char>>::empty(),
        ),
{
    let r = Statement {
        sql: text(
            "SELECT id, title, author, genre, created_at, updated_at, total_word_count, opening_strength_score, hook_effectiveness FROM manuscripts LIMIT 1",
        ),
        params: Vec::new(),
    };
    assert(texts(r.params@) =~= Seq::<Seq<char>>::empty());
    r
}

/// Reads the scenes of one manuscript, in manuscript order, once its
/// identifier is checked.
pub fn get_scenes_statement(manuscript_id: &str) -> (r: Result<Statement, AppError>)
    ensures
        reports(r, manuscript_id_problem(manuscript_id@)),
        r is Ok ==> r->Ok_0@ == (
            "SELECT id, manuscript_id, title, raw_text, word_count, index_in_manuscript, created_at, updated_at FROM scenes WHERE manuscript_id = ? ORDER BY index_in_manuscript"@,
            seq![manuscript_id@],
        ),
{
    validate_manuscript_id(manuscript_id)?;
    let mut params: Vec<String> = Vec::new();
    params.push(text(manuscript_id));
    let r = Statement {
        sql: text(
            "SELECT id, manuscript_id, title, raw_text, word_count, index_in_manuscript, created_at, updated_at FROM scenes WHERE manuscript_id = ? ORDER BY index_in_manuscript",
        ),
        params,
    };
    assert(texts(r.params@) =~= seq![manuscript_id@]);
    Ok(r)
}

/// The statements that create a manuscript and its opening scene, after the
/// title and the size of the text (at most 1,000,000 bytes) are checked. Both
/// records carry the word count of the text and the time `now`.
pub fn create_manuscript_statements(
    title: &str,
    text_content: &str,
    manuscript_id: &str,
    scene_id: &str,
    now: i64,
) -> (r: Result<Vec<Statement>, AppError>)
    ensures
        reports(
            r,
            first_problem(
                title_problem(title@),
                size_problem(text_content@, 1_000_000, "Text content too large (max 1MB)"@, "text"@),
            ),
        ),
        r is Ok ==> statement_views(r->Ok_0@) == seq![
            (
                "INSERT INTO manuscripts (id, title, created_at, updated_at, total_word_count) VALUES (?, ?, ?, ?, ?)"@,
                seq![manuscript_id@, title@, signed_decimal(now as int), signed_decimal(now as int), decimal(word_count(text_content@))],
            ),
            (
                "INSERT INTO scenes (id, manuscript_id, index_in_manuscript, title, raw_text, word_count, created_at, updated_at) VALUES (?, ?, ?, ?, ?, ?, ?, ?)"@,
                seq![scene_id@, manuscript_id@, "0"@, "Opening Scene"@, text_content@, decimal(word_count(text_content@)), signed_decimal(now as int), signed_decimal(now as int)],
            ),
        ],
        r is Ok ==> writes_only(r->Ok_0@),
{
    proof {
        reveal_strlit("INSERT INTO manuscripts (id, title, created_at, updated_at, total_word_count) VALUES (?, ?, ?, ?, ?)");
        lemma_not_read("INSERT INTO manuscripts (id, title, created_at, updated_at, total_word_count) VALUES (?, ?, ?, ?, ?)"@);
        reveal_strlit("INSERT INTO scenes (id, manuscript_id, index_in_manuscript, title, raw_text, word_count, created_at, updated_at) VALUES (?, ?, ?, ?, ?, ?, ?, ?)");
        lemma_not_read("INSERT INTO scenes (id, manuscript_id, index_in_manuscript, title, raw_text, word_count, created_at, updated_at) VALUES (?, ?, ?, ?, ?, ?, ?, ?)"@);
    }
    validate_title(title)?;
    size_check(text_content, 1_000_000, "Text content too large (max 1MB)", "text")?;
    let words = word_count_text(text_content);
    let mut first_params: Vec<String> = Vec::new();
    first_params.push(text(manuscript_id));
    first_params.push(text(title));
    first_params.push(signed_text(now));
    first_params.push(signed_text(now));
    first_params.push(words.clone());
    let mut second_params: Vec<String> = Vec::new();
    second_params.push(text(scene_id));
    second_params.push(text(manuscript_id));
    second_params.push(text("0"));
    second_params.push(text("Opening Scene"));
    second_params.push(text(text_content));
    second_params.push(words);
    second_params.push(signed_text(now));
    second_params.push(signed_text(now));
    let s1 = Statement {
        sql: text(
            "INSERT INTO manuscripts (id, title, created_at, updated_at, total_word_count) VALUES (?, ?, ?, ?, ?)",
        ),
        params: first_params,
    };
    let s2 = Statement {
        sql: text(
            "INSERT INTO scenes (id, manuscript_id, index_in_manuscript, title, raw_text, word_count, created_at, updated_at) VALUES (?, ?, ?, ?, ?, ?, ?, ?)",
        ),
        params: second_params,
    };
    let mut r: Vec<Statement> = Vec::new();
    r.push(s1);
    r.push(s2);
    proof {
        assert(texts(r@[0].params@) =~= seq![manuscript_id@, title@, signed_decimal(now as int), signed_decimal(now as int), decimal(word_count(text_content@))]);
        assert(texts(r@[1].params@) =~= seq![scene_id@, manuscript_id@, "0"@, "Opening Scene"@, text_content@, decimal(word_count(text_content@)), signed_decimal(now as int), signed_decimal(now as int)]);
        assert(statement_views(r@) =~= seq![r@[0]@, r@[1]@]);
    }
    Ok(r)
}

pub open spec fn opt_text(o: Option<&str>) -> Seq<char> {
    match o {
        Some(t) => t@,
        None => Seq::empty(),
    }
}

fn opt_string(o: Option<&str>) -> (r: String)
    ensures
        r@ == opt_text(o),
{
    match o {
        Some(t) => text(t),
        None => String::new(),
    }
}

/// The statements that update a scene's text and then its title, each only
/// when given, after the identifier and the size of the text (at most 500,000
/// bytes) are checked.
pub fn update_scene_statements(scene_id: &str, title: Option<&str>, raw_text: Option<&str>, now: i64) -> (r: Result<
    Vec<Statement>,
    AppError,
>)
    ensures
        reports(
            r,
            first_problem(
                scene_id_problem(scene_id@),
                match raw_text {
                    Some(t) => size_problem(t@, 500_000, "Scene text too large (max 500KB)"@, "raw_text"@),
                    None => None,
                },
            ),
        ),
        r is Ok ==> statement_views(r->Ok_0@) == (match raw_text {
            Some(t) => seq![
                (
                    "UPDATE scenes SET raw_text = ?, word_count = ?, updated_at = ? WHERE id = ?"@,
                    seq![t@, decimal(word_count(t@)), signed_decimal(now as int), scene_id@],
                ),
            ],
            None => Seq::empty(),
        }) + (match title {
            Some(t) => seq![
                (
                    "UPDATE scenes SET title = ?, updated_at = ? WHERE id = ?"@,
                    seq![t@, signed_decimal(now as int), scene_id@],
                ),
            ],
            None => Seq::empty(),
        }),
        r is Ok ==> writes_only(r->Ok_0@),
{
    proof {
        reveal_strlit("UPDATE scenes SET raw_text = ?, word_count = ?, updated_at = ? WHERE id = ?");
        reveal_strlit("UPDATE scenes SET title = ?, updated_at = ? WHERE id = ?");
        lemma_not_read("UPDATE scenes SET raw_text = ?, word_count = ?, updated_at = ? WHERE id = ?"@);
        lemma_not_read("UPDATE scenes SET title = ?, updated_at = ? WHERE id = ?"@);
    }
    validate_scene_id(scene_id)?;
    match raw_text {
        Some(t) => size_check(t, 500_000, "Scene text too large (max 500KB)", "raw_text")?,
        None => {},
    }
    let mut r: Vec<Statement> = Vec::new();
    match raw_text {
        Some(t) => {
            let mut ps: Vec<String> = Vec::new();
            ps.push(text(t));
            ps.push(word_count_text(t));
            ps.push(signed_text(now));
            ps.push(text(scene_id));
            assert(texts(ps@) =~= seq![t@, decimal(word_count(t@)), signed_decimal(now as int), scene_id@]);
            r.push(
                Statement {
                    sql: text("UPDATE scenes SET raw_text = ?, word_count = ?, updated_at = ? WHERE id = ?"),
                    params: ps,
                },
            );
        },
        None => {},
    }
    let ghost first = r@;
    match title {
        Some(t) => {
            let mut ps: Vec<String> = Vec::new();
            ps.push(text(t));
            ps.push(signed_text(now));
            ps.push(text(scene_id));
            assert(texts(ps@) =~= seq![t@, signed_decimal(now as int), scene_id@]);
            r.push(
                Statement { sql: text("UPDATE scenes SET title = ?, updated_at = ? WHERE id = ?"), params: ps },
            );
        },
        None => {},
    }
    proof {
        assert(statement_views(r@) =~= statement_views(first) + statement_views(r@.skip(first.len() as int)));
        assert(statement_views(first) =~= (match raw_text {
            Some(t) => seq![
                (
                    "UPDATE scenes SET raw_text = ?, word_count = ?, updated_at = ? WHERE id = ?"@,
                    seq![t@, decimal(word_count(t@)), signed_decimal(now as int), scene_id@],
                ),
            ],
            None => Seq::empty(),
        }));
        assert(statement_views(r@.skip(first.len() as int)) =~= (match title {
            Some(t) => seq![
                (
                    "UPDATE scenes SET title = ?, updated_at = ? WHERE id = ?"@,
                    seq![t@, signed_decimal(now as int), scene_id@],
                ),
            ],
            None => Seq::empty(),
        }));
    }
    Ok(r)
}

/// The statements that delete a manuscript: its scenes first, then the
/// manuscript itself, once its identifier is checked.
pub fn delete_manuscript_statements(manuscript_id: &str) -> (r: Result<Vec<Statement>, AppError>)
    ensures
        reports(r, manuscript_id_problem(manuscript_id@)),
        r is Ok ==> statement_views(r->Ok_0@) == seq![
            ("DELETE FROM scenes WHERE manuscript_id = ?"@, seq![manuscript_id@]),
            ("DELETE FROM manuscripts WHERE id = ?"@, seq![manuscript_id@]),
        ],
        r is Ok ==> writes_only(r->Ok_0@),
{
    proof {
        reveal_strlit("DELETE FROM scenes WHERE manuscript_id = ?");
        lemma_not_read("DELETE FROM scenes WHERE manuscript_id = ?"@);
        reveal_strlit("DELETE FROM manuscripts WHERE id = ?");
        lemma_not_read("DELETE FROM manuscripts WHERE id = ?"@);
    }
    validate_manuscript_id(manuscript_id)?;
    let mut first_params: Vec<String> = Vec::new();
    first_params.push(text(manuscript_id));
    let mut second_params: Vec<String> = Vec::new();
    second_params.push(text(manuscript_id));
    assert(texts(first_params@) =~= seq![manuscript_id@]);
    assert(texts(second_params@) =~= seq![manuscript_id@]);
    let mut r: Vec<Statement> = Vec::new();
    r.push(Statement { sql: text("DELETE FROM scenes WHERE manuscript_id = ?"), params: first_params });
    r.push(Statement { sql: text("DELETE FROM manuscripts WHERE id = ?"), params: second_params });
    assert(statement_views(r@) =~= seq![r@[0]@, r@[1]@]);
    Ok(r)
}

/// The statement that deletes a scene, once its identifier is checked.
pub fn delete_scene_statements(scene_id: &str) -> (r: Result<Vec<Statement>, AppError>)
    ensures
        reports(r, scene_id_problem(scene_id@)),
        r is Ok ==> statement_views(r->Ok_0@) == seq![("DELETE FROM scenes WHERE id = ?"@, seq![scene_id@])],
        r is Ok ==> writes_only(r->Ok_0@),
{
    proof {
        reveal_strlit("DELETE FROM scenes WHERE id = ?");
        lemma_not_read("DELETE FROM scenes WHERE id = ?"@);
    }
    validate_scene_id(scene_id)?;
    let mut ps: Vec<String> = Vec::new();
    ps.push(text(scene_id));
    assert(texts(ps@) =~= seq![scene_id@]);
    let mut r: Vec<Statement> = Vec::new();
    r.push(Statement { sql: text("DELETE FROM scenes WHERE id = ?"), params: ps });
    assert(statement_views(r@) =~= seq![r@[0]@]);
    Ok(r)
}

/// The statement that updates the single manuscript of a one-manuscript
/// library, once the title is checked; a missing author or genre is stored
/// as empty text.
pub fn update_manuscript_statements(title: &str, author: Option<&str>, genre: Option<&str>, now: i64) -> (r: Result<
    Vec<Statement>,
    AppError,
>)
    ensures
        reports(r, title_problem(title@)),
        r is Ok ==> statement_views(r->Ok_0@) == seq![
            (
                "UPDATE manuscripts SET title = ?, author = ?, genre = ?, updated_at = ? WHERE id = 'singleton-manuscript'"@,
                seq![title@, opt_text(author), opt_text(genre), signed_decimal(now as int)],
            ),
        ],
        r is Ok ==> writes_only(r->Ok_0@),
{
    proof {
        reveal_strlit("UPDATE manuscripts SET title = ?, author = ?, genre = ?, updated_at = ? WHERE id = 'singleton-manuscript'");
        lemma_not_read("UPDATE manuscripts SET title = ?, author = ?, genre = ?, updated_at = ? WHERE id = 'singleton-manuscript'"@);
    }
    validate_title(title)?;
    let mut ps: Vec<String> = Vec::new();
    ps.push(text(title));
    ps.push(opt_string(author));
    ps.push(opt_string(genre));
    ps.push(signed_text(now));
    assert(texts(ps@) =~= seq![title@, opt_text(author), opt_text(genre), signed_decimal(now as int)]);
    let mut r: Vec<Statement> = Vec::new();
    r.push(
        Statement {
            sql: text(
                "UPDATE manuscripts SET title = ?, author = ?, genre = ?, updated_at = ? WHERE id = 'singleton-manuscript'",
            ),
            params: ps,
        },
    );
    assert(statement_views(r@) =~= seq![r@[0]@]);
    Ok(r)
}

pub open spec fn opt_number(o: Option<i32>) -> Seq<char> {
    match o {
        Some(n) => signed_decimal(n as int),
        None => Seq::empty(),
    }
}

/// The statements that create a scene, once the size of its content (at most
/// 500,000 bytes) is checked: a read of the next free position, then the
/// insertion, which places the scene at position 0.
pub fn create_scene_statements(
    title: &str,
    content: &str,
    chapter_number: Option<i32>,
    pov_character: Option<&str>,
    scene_id: &str,
    now: i64,
) -> (r: Result<Vec<Statement>, AppError>)
    ensures
        reports(r, size_problem(content@, 500_000, "Scene content too large (max 500KB)"@, "content"@)),
        r is Ok ==> statement_views(r->Ok_0@) == seq![
            (
                "SELECT COALESCE(MAX(index_in_manuscript), -1) + 1 as next_index FROM scenes"@,
                Seq::<Seq<char>>::empty(),
            ),
            (
                "INSERT INTO scenes (id, index_in_manuscript, title, raw_text, word_count, chapter_number, pov_character, created_at, updated_at) VALUES (?, ?, ?, ?, ?, ?, ?, ?, ?)"@,
                seq![scene_id@, "0"@, title@, content@, decimal(word_count(content@)), opt_number(chapter_number), opt_text(pov_character), signed_decimal(now as int), signed_decimal(now as int)],
            ),
        ],
{
    size_check(content, 500_000, "Scene content too large (max 500KB)", "content")?;
    let first_params: Vec<String> = Vec::new();
    assert(texts(first_params@) =~= Seq::<Seq<char>>::empty());
    let chapter = match chapter_number {
        Some(n) => signed_text(n as i64),
        None => String::new(),
    };
    let mut second_params: Vec<String> = Vec::new();
    second_params.push(text(scene_id));
    second_params.push(text("0"));
    second_params.push(text(title));
    second_params.push(text(content));
    second_params.push(word_count_text(content));
    second_params.push(chapter);
    second_params.push(opt_string(pov_character));
    second_params.push(signed_text(now));
    second_params.push(signed_text(now));
    assert(texts(second_params@) =~= seq![scene_id@, "0"@, title@, content@, decimal(word_count(content@)), opt_number(chapter_number), opt_text(pov_character), signed_decimal(now as int), signed_decimal(now as int)]);
    let mut r: Vec<Statement> = Vec::new();
    r.push(
        Statement {
            sql: text("SELECT COALESCE(MAX(index_in_manuscript), -1) + 1 as next_index FROM scenes"),
            params: first_params,
        },
    );
    r.push(
        Statement {
            sql: text(
                "INSERT INTO scenes (id, index_in_manuscript, title, raw_text, word_count, chapter_number, pov_character, created_at, updated_at) VALUES (?, ?, ?, ?, ?, ?, ?, ?, ?)",
            ),
            params: second_params,
        },
    );
    assert(statement_views(r@) =~= seq![r@[0]@, r@[1]@]);
    Ok(r)
}

/// The statements of the write commands are never answered from the cache,
/// and what the store returns for them leaves the cache as it was, whatever
/// it holds.
pub proof fn command_writes_bypass_cache(
    statements: Seq<Statement>,
    m: Map<Seq<u8>, CacheSlot>,
    rows: Seq<char>,
    now: i64,
)
    requires
        writes_only(statements),
    ensures
        forall|i: int|
            0 <= i < statements.len() ==> cached_answer(
                m,
                encode_utf8(#[trigger] statements[i].sql@),
                params_bytes(statements[i].params@),
                now,
            ) is None && cache_after_success(
                m,
                encode_utf8(statements[i].sql@),
                params_bytes(statements[i].params@),
                rows,
                now,
            ) == m,
{
}

} // verus!

//! The keyword index: how a query becomes a match expression, and how the
//! index is brought in line with the records.

use vstd::prelude::*;
use vstd::string::*;
use super::search::is_valid_limit;
use super::search::validate_limit;
use super::Error;
use crate::text::chars_of;
use crate::text::decimal;
use crate::text::decimal_digits;
use crate::text::is_whitespace;
use crate::text::string_of;
use crate::text::whitespace;

verus! {

/// The words of a text: its longest runs of characters that are not
/// whitespace, in order.
///
/// Read from the left, a character that is not whitespace goes on with the
/// last word where the character before it belongs to one, and else begins
/// a new word.
pub open spec fn words(s: Seq<char>) -> Seq<Seq<char>>
    decreases s.len(),
{
    if s.len() == 0 {
        Seq::empty()
    } else {
        let before = words(s.drop_last());
        let c = s.last();
        if is_whitespace(c) {
            before
        } else if s.len() >= 2 && !is_whitespace(s[s.len() - 2]) && before.len() > 0 {
            before.drop_last().push(before.last().push(c))
        } else {
            before.push(seq![c])
        }
    }
}

/// A text without whitespace in it that is not empty.
pub open spec fn is_word(w: Seq<char>) -> bool {
    w.len() > 0 && forall|i: int| 0 <= i < w.len() ==> !is_whitespace(#[trigger] w[i])
}

/// Every word of a text is a word, and a blank text has none.
pub proof fn lemma_words_are_words(s: Seq<char>)
    ensures
        forall|k: int| 0 <= k < words(s).len() ==> is_word(#[trigger] words(s)[k]),
        crate::text::is_blank(s) <==> words(s).len() == 0,
    decreases s.len(),
{
    if s.len() > 0 {
        let rest = s.drop_last();
        lemma_words_are_words(rest);
        let before = words(rest);
        let c = s.last();
        if is_whitespace(c) {
            assert(crate::text::is_blank(s) <==> crate::text::is_blank(rest)) by {
                if crate::text::is_blank(rest) {
                    assert forall|i: int| 0 <= i < s.len() implies is_whitespace(
                        #[trigger] s[i],
                    ) by {
                        if i < rest.len() {
                            assert(s[i] == rest[i]);
                        }
                    }
                }
                if crate::text::is_blank(s) {
                    assert forall|i: int| 0 <= i < rest.len() implies is_whitespace(
                        #[trigger] rest[i],
                    ) by {
                        assert(rest[i] == s[i]);
                    }
                }
            }
        } else {
            assert(!is_whitespace(s[s.len() - 1]));
            assert forall|k: int| 0 <= k < words(s).len() implies is_word(
                #[trigger] words(s)[k],
            ) by {
                if k < words(s).len() - 1 {
                    assert(words(s)[k] == before[k]);
                } else if s.len() >= 2 && !is_whitespace(s[s.len() - 2]) && before.len() > 0 {
                    let grown = before.last().push(c);
                    assert(words(s)[k] == grown);
                    assert(is_word(before.last()));
                    assert forall|i: int| 0 <= i < grown.len() implies !is_whitespace(
                        #[trigger] grown[i],
                    ) by {
                        if i < grown.len() - 1 {
                            assert(grown[i] == before.last()[i]);
                        }
                    }
                } else {
                    assert(words(s)[k] == seq![c]);
                }
            }
        }
    }
}

/// A character as it stands inside a quoted term: a backslash and a double
/// quote are doubled.
pub open spec fn escape_char(c: char) -> Seq<char> {
    if c == '\\' {
        seq!['\\', '\\']
    } else if c == '"' {
        seq!['"', '"']
    } else {
        seq![c]
    }
}

/// A word with each of its characters escaped.
pub open spec fn escaped(word: Seq<char>) -> Seq<char>
    decreases word.len(),
{
    if word.len() == 0 {
        Seq::empty()
    } else {
        escaped(word.drop_last()) + escape_char(word.last())
    }
}

/// A word as a literal phrase: escaped, between double quotes.
pub open spec fn quoted(word: Seq<char>) -> Seq<char> {
    seq!['"'] + escaped(word) + seq!['"']
}

/// Terms joined by single spaces.
pub open spec fn joined(terms: Seq<Seq<char>>) -> Seq<char>
    decreases terms.len(),
{
    if terms.len() == 0 {
        Seq::empty()
    } else if terms.len() == 1 {
        terms[0]
    } else {
        joined(terms.drop_last()) + seq![' '] + terms.last()
    }
}

/// The match expression of a query: every word a quoted phrase, all of them
/// required.
pub open spec fn match_expression(query: Seq<char>) -> Seq<char> {
    joined(words(query).map_values(|w: Seq<char>| quoted(w)))
}

/// The match expression is empty exactly for a blank query: a query of
/// whitespace alone asks for nothing, every other query for something.
pub proof fn lemma_blank_query_matches_nothing(query: Seq<char>)
    ensures
        match_expression(query).len() == 0 <==> crate::text::is_blank(query),
{
    lemma_words_are_words(query);
    let terms = words(query).map_values(|w: Seq<char>| quoted(w));
    if terms.len() > 0 {
        let last = words(query).last();
        assert(terms.last() == quoted(last));
        assert(quoted(last).len() >= 2);
        assert(joined(terms).len() >= terms.last().len());
    }
}

/// The views of a list of words.
pub open spec fn word_views(ws: Seq<Vec<char>>) -> Seq<Seq<char>> {
    ws.map_values(|w: Vec<char>| w@)
}

/// The words of `chars`.
pub fn split_words(chars: &Vec<char>) -> (ws: Vec<Vec<char>>)
    ensures
        word_views(ws@) == words(chars@),
{
    let mut ws: Vec<Vec<char>> = Vec::new();
    let mut i: usize = 0;
    assert(chars@.take(0) =~= Seq::<char>::empty());
    assert(word_views(ws@) =~= Seq::<Seq<char>>::empty());
    while i < chars.len()
        invariant
            i <= chars@.len(),
            word_views(ws@) == words(chars@.take(i as int)),
        decreases chars.len() - i,
    {
        let c = chars[i];
        let ghost prefix = chars@.take(i as int);
        let ghost grown = chars@.take(i + 1);
        let ghost before = ws@;
        proof {
            assert(grown.drop_last() =~= prefix);
            assert(grown.last() == c);
        }
        if !whitespace(c) {
            let n = ws.len();
            if i > 0 && !whitespace(chars[i - 1]) && n > 0 {
                assert(grown[grown.len() - 2] == chars@[i - 1]);
                ws[n - 1].push(c);
                assert(word_views(ws@) =~= word_views(before).drop_last().push(
                    word_views(before).last().push(c),
                ));
            } else {
                proof {
                    if i > 0 {
                        assert(grown[grown.len() - 2] == chars@[i - 1]);
                    }
                }
                let mut w: Vec<char> = Vec::new();
                w.push(c);
                ws.push(w);
                assert(word_views(ws@) =~= word_views(before).push(seq![c]));
            }
        }
        i += 1;
    }
    assert(chars@.take(i as int) =~= chars@);
    ws
}

/// Appends `word`, escaped, to `out`.
fn push_escaped(out: &mut Vec<char>, word: &Vec<char>)
    ensures
        final(out)@ == old(out)@ + escaped(word@),
{
    let ghost start = out@;
    let mut k: usize = 0;
    assert(word@.take(0) =~= Seq::<char>::empty());
    assert(start + escaped(word@.take(0)) =~= start);
    while k < word.len()
        invariant
            k <= word@.len(),
            out@ == start + escaped(word@.take(k as int)),
        decreases word.len() - k,
    {
        let c = word[k];
        let ghost so_far = escaped(word@.take(k as int));
        proof {
            assert(word@.take(k + 1).drop_last() =~= word@.take(k as int));
            assert(word@.take(k + 1).last() == c);
        }
        if c == '\\' {
            out.push('\\');
            out.push('\\');
        } else if c == '"' {
            out.push('"');
            out.push('"');
        } else {
            out.push(c);
        }
        assert(out@ =~= start + (so_far + escape_char(c)));
        k += 1;
    }
    assert(word@.take(k as int) =~= word@);
}

/// The match expression of `query`: each word of the query as a quoted
/// literal phrase, the phrases joined by spaces. A query without words gives
/// the empty text.
pub fn escape_fts_query(query: &str) -> (r: String)
    ensures
        r@ == match_expression(query@),
{
    let chars = chars_of(query);
    let ws = split_words(&chars);
    let ghost terms = words(query@).map_values(|w: Seq<char>| quoted(w));
    let mut out: Vec<char> = Vec::new();
    let mut k: usize = 0;
    assert(terms.take(0) =~= Seq::<Seq<char>>::empty());
    while k < ws.len()
        invariant
            k <= ws@.len(),
            word_views(ws@) == words(query@),
            terms == words(query@).map_values(|w: Seq<char>| quoted(w)),
            out@ == joined(terms.take(k as int)),
        decreases ws.len() - k,
    {
        let ghost before = out@;
        if k > 0 {
            out.push(' ');
        }
        out.push('"');
        push_escaped(&mut out, &ws[k]);
        out.push('"');
        proof {
            let done = terms.take(k + 1);
            assert(done.drop_last() =~= terms.take(k as int));
            assert(word_views(ws@)[k as int] == ws@[k as int]@);
            assert(done.last() == quoted(ws@[k as int]@));
            if k > 0 {
                assert(out@ =~= before + seq![' '] + quoted(ws@[k as int]@));
            } else {
                assert(out@ =~= quoted(ws@[k as int]@));
            }
        }
        k += 1;
    }
    assert(terms.take(k as int) =~= terms);
    string_of(&out)
}

/// What a keyword search is to do.
#[derive(Debug)]
pub enum LexicalPlan {
    /// The query holds no word: the result is empty and the index is not asked.
    Empty,
    /// Ask the index for the records that match the expression.
    Match(String),
}

/// Plans a keyword search: the limit is checked, then the query is turned
/// into a match expression. A blank query asks for nothing.
pub fn plan_lexical_search(query: &str, limit: usize) -> (r: Result<LexicalPlan, Error>)
    ensures
        is_valid_limit(limit) <==> r is Ok,
        r matches Err(e) ==> e is InvalidLimit,
        r matches Ok(plan) ==> match plan {
            LexicalPlan::Empty => crate::text::is_blank(query@),
            LexicalPlan::Match(expr) => expr@ == match_expression(query@)
                && !crate::text::is_blank(query@),
        },
{
    proof {
        lemma_blank_query_matches_nothing(query@);
    }
    match validate_limit(limit) {
        Ok(()) => {},
        Err(e) => {
            return Err(e);
        },
    }
    let expr = escape_fts_query(query);
    if expr.as_str().is_empty() {
        Ok(LexicalPlan::Empty)
    } else {
        Ok(LexicalPlan::Match(expr))
    }
}

/// Whether the keyword index can answer: its table exists and holds rows.
pub fn index_is_ready(table_count: usize, index_rows: usize) -> (r: bool)
    ensures
        r == (table_count != 0 && index_rows > 0),
{
    table_count != 0 && index_rows > 0
}

/// What bringing the index in line takes.
#[derive(Debug, Clone, Copy, PartialEq, Eq, Structural)]
pub enum MigrationPlan {
    /// There is no index: create it and fill it from the records.
    Create,
    /// The index lacks the project field: drop it, create it anew and fill
    /// it from the records.
    Rebuild,
    /// The index is as it should be: nothing is done.
    Keep,
}

/// Decides what the index needs, from what was found of it.
pub fn plan_migration(index_exists: bool, has_project_field: bool) -> (r: MigrationPlan)
    ensures
        r == if !index_exists {
            MigrationPlan::Create
        } else if !has_project_field {
            MigrationPlan::Rebuild
        } else {
            MigrationPlan::Keep
        },
{
    if !index_exists {
        MigrationPlan::Create
    } else if !has_project_field {
        MigrationPlan::Rebuild
    } else {
        MigrationPlan::Keep
    }
}

/// The text that reports an index filled with the wrong number of rows.
pub open spec fn incomplete_migration_text(record_count: usize, index_count: usize) -> Seq<char> {
    "FTS5 migration incomplete: expected "@ + decimal_digits(record_count as nat) + " rows, got "@
        + decimal_digits(index_count as nat) + " rows"@
}

/// Judges a filled index before its transaction ends: it is committed only
/// when it holds as many rows as there are records. Otherwise the
/// transaction is to be rolled back, and the error says what was found.
pub fn check_migration(record_count: usize, index_count: usize) -> (r: Result<(), Error>)
    ensures
        record_count == index_count <==> r is Ok,
        r matches Err(e) ==> (e matches Error::Sqlite(msg) && msg@ == incomplete_migration_text(
            record_count,
            index_count,
        )),
{
    if index_count != record_count {
        let mut m = String::from_str("FTS5 migration incomplete: expected ");
        m.append(decimal(record_count).as_str());
        m.append(" rows, got ");
        m.append(decimal(index_count).as_str());
        m.append(" rows");
        return Err(Error::Sqlite(m));
    }
    Ok(())
}

/// An index can only be filled from a record table that exists.
pub fn check_content_table(exists: bool) -> (r: Result<(), Error>)
    ensures
        exists <==> r is Ok,
        r matches Err(e) ==> (e matches Error::Sqlite(msg) && msg@
            == "External content table 'memories' does not exist"@),
{
    if !exists {
        return Err(
            Error::Sqlite(String::from_str("External content table 'memories' does not exist")),
        );
    }
    Ok(())
}

} // verus!

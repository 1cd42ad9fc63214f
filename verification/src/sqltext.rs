//! Assembly of the SQL statement texts the engine emits: defensively
//! quoted identifiers, transaction control statements, cursor control
//! statements, and the binary-copy statement.

use vstd::prelude::*;
use vstd::string::{StringExecFns, StrSliceExecFns};
use crate::strutil::{dec_digits, push_char, push_dec};

verus! {

/// The body of a quoted identifier: every double quote is doubled.
pub open spec fn ident_body_chars(s: Seq<char>) -> Seq<char>
    decreases s.len(),
{
    if s.len() == 0 {
        Seq::<char>::empty()
    } else if s[0] == '"' {
        seq!['"', '"'] + ident_body_chars(s.drop_first())
    } else {
        seq![s[0]] + ident_body_chars(s.drop_first())
    }
}

/// An identifier in defensive quotes.
pub open spec fn quoted_ident_chars(s: Seq<char>) -> Seq<char> {
    seq!['"'] + ident_body_chars(s) + seq!['"']
}

proof fn lemma_ident_body_snoc(s: Seq<char>, c: char)
    ensures
        ident_body_chars(s.push(c)) == ident_body_chars(s) + (if c == '"' {
            seq!['"', '"']
        } else {
            seq![c]
        }),
    decreases s.len(),
{
    let snoc = s.push(c);
    if s.len() == 0 {
        assert(snoc.len() == 1);
        assert(snoc[0] == c);
        assert(snoc.drop_first() =~= Seq::<char>::empty());
        assert(ident_body_chars(snoc.drop_first()) == Seq::<char>::empty());
        assert(ident_body_chars(s) == Seq::<char>::empty());
        if c == '"' {
            assert(ident_body_chars(snoc) == seq!['"', '"'] + ident_body_chars(
                snoc.drop_first(),
            ));
            assert(ident_body_chars(snoc) =~= ident_body_chars(s) + seq!['"', '"']);
        } else {
            assert(ident_body_chars(snoc) == seq![snoc[0]] + ident_body_chars(
                snoc.drop_first(),
            ));
            assert(ident_body_chars(snoc) =~= ident_body_chars(s) + seq![c]);
        }
    } else {
        assert(snoc[0] == s[0]);
        assert(snoc.drop_first() =~= s.drop_first().push(c));
        lemma_ident_body_snoc(s.drop_first(), c);
        if c == '"' {
            assert(ident_body_chars(snoc) =~= ident_body_chars(s) + seq!['"', '"']);
        } else {
            assert(ident_body_chars(snoc) =~= ident_body_chars(s) + seq![c]);
        }
    }
}

/// Append `ident` in defensive quotes: identifier quoting, not
/// string-literal quoting, so a malformed identifier cannot break out.
pub fn push_quoted_ident(out: &mut String, ident: &str)
    ensures
        final(out)@ == old(out)@ + quoted_ident_chars(ident@),
{
    push_char(out, '"');
    let n: usize = ident.unicode_len();
    let mut i: usize = 0;
    proof {
        assert(ident@.subrange(0, 0) =~= Seq::<char>::empty());
        assert(out@ =~= old(out)@ + seq!['"'] + ident_body_chars(ident@.subrange(0, 0)));
    }
    while i < n
        invariant
            i <= n,
            n == ident@.len(),
            out@ == old(out)@ + seq!['"'] + ident_body_chars(ident@.subrange(0, i as int)),
        decreases n - i,
    {
        let c: char = ident.get_char(i);
        if c == '"' {
            push_char(out, '"');
            push_char(out, '"');
        } else {
            push_char(out, c);
        }
        proof {
            assert(ident@.subrange(0, i + 1) =~= ident@.subrange(0, i as int).push(
                ident@[i as int],
            ));
            lemma_ident_body_snoc(ident@.subrange(0, i as int), ident@[i as int]);
            assert(out@ =~= old(out)@ + seq!['"'] + ident_body_chars(ident@.subrange(0, i + 1)));
        }
        i = i + 1;
    }
    proof {
        assert(ident@.subrange(0, n as int) =~= ident@);
    }
    push_char(out, '"');
    proof {
        assert(out@ =~= old(out)@ + quoted_ident_chars(ident@));
    }
}

/// `ident` in defensive quotes, as a fresh string.
pub fn quote_ident(ident: &str) -> (r: String)
    ensures
        r@ == quoted_ident_chars(ident@),
{
    let mut out = String::new();
    push_quoted_ident(&mut out, ident);
    proof {
        assert(out@ =~= quoted_ident_chars(ident@));
    }
    out
}

/// The comma-separated column list of a copy statement.
pub open spec fn column_list_chars(cols: Seq<Seq<char>>) -> Seq<char>
    decreases cols.len(),
{
    if cols.len() == 0 {
        Seq::<char>::empty()
    } else if cols.len() == 1 {
        cols[0]
    } else {
        cols[0] + ", "@ + column_list_chars(cols.drop_first())
    }
}

proof fn lemma_column_list_snoc(cols: Seq<Seq<char>>, c: Seq<char>)
    ensures
        column_list_chars(cols.push(c)) == if cols.len() == 0 {
            c
        } else {
            column_list_chars(cols) + ", "@ + c
        },
    decreases cols.len(),
{
    let snoc = cols.push(c);
    if cols.len() == 0 {
        assert(snoc.len() == 1);
        assert(snoc[0] == c);
    } else {
        assert(snoc[0] == cols[0]);
        assert(snoc.drop_first() =~= cols.drop_first().push(c));
        lemma_column_list_snoc(cols.drop_first(), c);
        if cols.len() == 1 {
            assert(column_list_chars(snoc) =~= column_list_chars(cols) + ", "@ + c);
        } else {
            assert(column_list_chars(snoc) =~= column_list_chars(cols) + ", "@ + c);
        }
    }
}

/// The views of a vector of column names.
pub open spec fn names_view(cols: Seq<String>) -> Seq<Seq<char>> {
    cols.map_values(|s: String| s@)
}

/// The qualified, quoted target of a copy statement.
pub open spec fn copy_target_chars(table: Seq<char>, schema: Option<Seq<char>>) -> Seq<char> {
    match schema {
        Some(sc) => quoted_ident_chars(sc) + "."@ + quoted_ident_chars(table),
        None => quoted_ident_chars(table),
    }
}

/// The full binary copy-in statement.
pub open spec fn copy_statement_chars(
    table: Seq<char>,
    schema: Option<Seq<char>>,
    columns: Option<Seq<Seq<char>>>,
) -> Seq<char> {
    "COPY "@ + copy_target_chars(table, schema) + (match columns {
        Some(cols) => "("@ + column_list_chars(cols) + ")"@,
        None => Seq::<char>::empty(),
    }) + " FROM STDIN (FORMAT binary)"@
}

/// The view of an optional string reference.
pub open spec fn opt_str_view(s: Option<&String>) -> Option<Seq<char>> {
    match s {
        Some(x) => Some(x@),
        None => None,
    }
}

/// The views of an optional vector of names.
pub open spec fn opt_names_view(s: Option<&Vec<String>>) -> Option<Seq<Seq<char>>> {
    match s {
        Some(x) => Some(names_view(x@)),
        None => None,
    }
}

/// Build the binary copy-in statement for a (possibly schema-qualified)
/// table and an optional column list.
pub fn copy_statement(table: &String, schema: Option<&String>, columns: Option<&Vec<String>>) -> (r:
    String)
    ensures
        r@ == copy_statement_chars(table@, opt_str_view(schema), opt_names_view(columns)),
{
    let mut out = String::new();
    out.append("COPY ");
    match schema {
        Some(sc) => {
            push_quoted_ident(&mut out, sc.as_str());
            out.append(".");
            push_quoted_ident(&mut out, table.as_str());
        },
        None => {
            push_quoted_ident(&mut out, table.as_str());
        },
    }
    proof {
        assert(out@ =~= "COPY "@ + copy_target_chars(table@, opt_str_view(schema)));
    }
    let ghost prefix = out@;
    match columns {
        Some(cols) => {
            out.append("(");
            let n: usize = cols.len();
            let mut i: usize = 0;
            proof {
                assert(names_view(cols@.subrange(0, 0)) =~= Seq::<Seq<char>>::empty());
                assert(out@ =~= prefix + "("@ + column_list_chars(
                    names_view(cols@.subrange(0, 0)),
                ));
            }
            while i < n
                invariant
                    i <= n,
                    n == cols@.len(),
                    out@ == prefix + "("@ + column_list_chars(
                        names_view(cols@.subrange(0, i as int)),
                    ),
                decreases n - i,
            {
                if i > 0 {
                    out.append(", ");
                }
                out.append(cols[i].as_str());
                proof {
                    assert(cols@.subrange(0, i + 1) =~= cols@.subrange(0, i as int).push(
                        cols@[i as int],
                    ));
                    assert(names_view(cols@.subrange(0, i + 1)) =~= names_view(
                        cols@.subrange(0, i as int),
                    ).push(cols@[i as int]@));
                    lemma_column_list_snoc(
                        names_view(cols@.subrange(0, i as int)),
                        cols@[i as int]@,
                    );
                    assert(out@ =~= prefix + "("@ + column_list_chars(
                        names_view(cols@.subrange(0, i + 1)),
                    ));
                }
                i = i + 1;
            }
            proof {
                assert(cols@.subrange(0, n as int) =~= cols@);
                assert(names_view(cols@.subrange(0, n as int)) =~= names_view(cols@));
            }
            out.append(")");
        },
        None => {},
    }
    out.append(" FROM STDIN (FORMAT binary)");
    proof {
        assert(out@ =~= copy_statement_chars(table@, opt_str_view(schema), opt_names_view(
            columns,
        )));
    }
    out
}

/// The statement that declares a named server-side cursor.
pub open spec fn declare_chars(
    name: Seq<char>,
    scroll: Option<bool>,
    query: Seq<char>,
) -> Seq<char> {
    "DECLARE "@ + quoted_ident_chars(name) + (match scroll {
        Some(true) => " SCROLL"@,
        Some(false) => " NO SCROLL"@,
        None => Seq::<char>::empty(),
    }) + " CURSOR FOR "@ + query
}

/// Build the cursor declaration statement.
pub fn declare_statement(name: &String, scroll: Option<bool>, query: &String) -> (r: String)
    ensures
        r@ == declare_chars(name@, scroll, query@),
{
    let mut out = String::new();
    out.append("DECLARE ");
    push_quoted_ident(&mut out, name.as_str());
    match scroll {
        Some(true) => out.append(" SCROLL"),
        Some(false) => out.append(" NO SCROLL"),
        None => {},
    }
    out.append(" CURSOR FOR ");
    out.append(query.as_str());
    proof {
        assert(out@ =~= declare_chars(name@, scroll, query@));
    }
    out
}

/// The statement that fetches the next batch from a cursor.
pub open spec fn fetch_chars(count: nat, name: Seq<char>) -> Seq<char> {
    "FETCH "@ + dec_digits(count) + " FROM "@ + quoted_ident_chars(name)
}

/// Build the batch fetch statement.
pub fn fetch_statement(count: u64, name: &String) -> (r: String)
    ensures
        r@ == fetch_chars(count as nat, name@),
{
    let mut out = String::new();
    out.append("FETCH ");
    push_dec(&mut out, count);
    out.append(" FROM ");
    push_quoted_ident(&mut out, name.as_str());
    proof {
        assert(out@ =~= fetch_chars(count as nat, name@));
    }
    out
}

/// The statement that closes a cursor.
pub open spec fn close_chars(name: Seq<char>) -> Seq<char> {
    "CLOSE "@ + quoted_ident_chars(name)
}

/// Build the cursor close statement.
pub fn close_statement(name: &String) -> (r: String)
    ensures
        r@ == close_chars(name@),
{
    let mut out = String::new();
    out.append("CLOSE ");
    push_quoted_ident(&mut out, name.as_str());
    proof {
        assert(out@ =~= close_chars(name@));
    }
    out
}

/// The statement that creates a savepoint.
pub open spec fn savepoint_chars(name: Seq<char>) -> Seq<char> {
    "SAVEPOINT "@ + quoted_ident_chars(name)
}

/// Build the savepoint statement.
pub fn savepoint_statement(name: &String) -> (r: String)
    ensures
        r@ == savepoint_chars(name@),
{
    let mut out = String::new();
    out.append("SAVEPOINT ");
    push_quoted_ident(&mut out, name.as_str());
    proof {
        assert(out@ =~= savepoint_chars(name@));
    }
    out
}

/// The statement that releases a savepoint.
pub open spec fn release_savepoint_chars(name: Seq<char>) -> Seq<char> {
    "RELEASE SAVEPOINT "@ + quoted_ident_chars(name)
}

/// Build the release-savepoint statement.
pub fn release_savepoint_statement(name: &String) -> (r: String)
    ensures
        r@ == release_savepoint_chars(name@),
{
    let mut out = String::new();
    out.append("RELEASE SAVEPOINT ");
    push_quoted_ident(&mut out, name.as_str());
    proof {
        assert(out@ =~= release_savepoint_chars(name@));
    }
    out
}

/// The statement that rolls back to a savepoint.
pub open spec fn rollback_to_chars(name: Seq<char>) -> Seq<char> {
    "ROLLBACK TO SAVEPOINT "@ + quoted_ident_chars(name)
}

/// Build the rollback-to-savepoint statement.
pub fn rollback_to_statement(name: &String) -> (r: String)
    ensures
        r@ == rollback_to_chars(name@),
{
    let mut out = String::new();
    out.append("ROLLBACK TO SAVEPOINT ");
    push_quoted_ident(&mut out, name.as_str());
    proof {
        assert(out@ =~= rollback_to_chars(name@));
    }
    out
}

/// A generated cursor name: a fixed stem and a serial number.
pub open spec fn cursor_name_chars(serial: nat) -> Seq<char> {
    "cur_"@ + dec_digits(serial)
}

/// Build a generated cursor name.
pub fn cursor_name(serial: u64) -> (r: String)
    ensures
        r@ == cursor_name_chars(serial as nat),
{
    let mut out = String::new();
    out.append("cur_");
    push_dec(&mut out, serial);
    proof {
        assert(out@ =~= cursor_name_chars(serial as nat));
    }
    out
}

} // verus!

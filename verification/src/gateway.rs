//! Decisions of the SQL gateway, which runs the browser's SQL against the
//! signed-in user's own data database: transaction recovery, error texts,
//! and how a column's declared type is read back.

use vstd::prelude::*;
use vstd::utf8::encode_utf8;

use crate::text::{chars_of, string_from_chars, trim_start_chars, trim_start_spec};

verus! {

/// `c` with ASCII capitals made small.
pub open spec fn ascii_lower(c: char) -> char {
    if 'A' <= c && c <= 'Z' {
        ((c as u32) + 32) as char
    } else {
        c
    }
}

/// Whether the statement, after leading whitespace, starts with `BEGIN` in
/// any ASCII case.
pub open spec fn begins_transaction(query: Seq<char>) -> bool {
    let t = trim_start_spec(query);
    t.len() >= 5 && forall|i: int| 0 <= i < 5 ==> ascii_lower(#[trigger] t[i]) == seq!['b', 'e', 'g', 'i', 'n'][i]
}

/// Whether the first five bytes of the statement after leading whitespace end
/// on a character boundary (or there are fewer than five). Taking those five
/// bytes as a `str` slice panics otherwise.
pub open spec fn five_byte_prefix_is_whole(query: Seq<char>) -> bool {
    let t = trim_start_spec(query);
    encode_utf8(t).len() >= 5 ==> exists|k: int| 0 <= k <= t.len() && #[trigger] encode_utf8(t.subrange(0, k)).len() == 5
}

/// Whether the statement opens a transaction. A connection left inside an
/// unfinished transaction is rolled back before such a statement runs.
pub fn is_begin_statement(query: &str) -> (r: bool)
    requires
        five_byte_prefix_is_whole(query@),
    ensures
        r == begins_transaction(query@),
{
    let t = trim_start_chars(query);
    if t.len() < 5 {
        return false;
    }
    let expected = ['b', 'e', 'g', 'i', 'n'];
    let mut i: usize = 0;
    while i < 5
        invariant
            t@ == trim_start_spec(query@),
            t@.len() >= 5,
            expected@ == seq!['b', 'e', 'g', 'i', 'n'],
            i <= 5,
            forall|j: int| 0 <= j < i ==> ascii_lower(#[trigger] t@[j]) == seq!['b', 'e', 'g', 'i', 'n'][j],
        decreases 5 - i,
    {
        let c = t[i];
        let lower = if 'A' <= c && c <= 'Z' {
            ((c as u32) + 32) as u8 as char
        } else {
            c
        };
        assert(lower == ascii_lower(c)) by {
            if 'A' <= c && c <= 'Z' {
                assert(((c as u32) + 32) as u8 as char == ((c as u32) + 32) as char);
            }
        }
        if lower != expected[i] {
            return false;
        }
        i = i + 1;
    }
    true
}

/// The statement shown in an error: its first 120 characters.
pub open spec fn snippet_spec(query: Seq<char>) -> Seq<char> {
    if query.len() <= 120 {
        query
    } else {
        query.subrange(0, 120)
    }
}

/// The first 120 characters of a statement.
pub fn query_snippet(query: &str) -> (r: String)
    ensures
        r@ == snippet_spec(query@),
{
    let cs = chars_of(query);
    let end = if cs.len() <= 120 {
        cs.len()
    } else {
        120
    };
    let r = string_from_chars(&cs, 0, end);
    assert(cs@.subrange(0, cs@.len() as int) =~= cs@);
    r
}

/// Which gateway operation failed.
#[derive(Debug, Clone, Copy, PartialEq, Eq)]
pub enum GatewayOp {
    Select,
    Execute,
}

/// The error text of a failed gateway statement.
pub open spec fn gateway_error_text(op: GatewayOp, error: Seq<char>, query: Seq<char>) -> Seq<char> {
    (match op {
        GatewayOp::Select => "select"@,
        GatewayOp::Execute => "execute"@,
    }) + " failed: "@ + error + " | query: "@ + snippet_spec(query)
}

/// The error text when `op` fails with `error` on `query` (answered as 502).
pub fn gateway_error(op: GatewayOp, error: &str, query: &str) -> (r: String)
    ensures
        r@ == gateway_error_text(op, error@, query@),
{
    let mut r = match op {
        GatewayOp::Select => "select".to_owned(),
        GatewayOp::Execute => "execute".to_owned(),
    };
    r.append(" failed: ");
    r.append(error);
    r.append(" | query: ");
    r.append(query_snippet(query).as_str());
    r
}

/// How a column value is read back into JSON.
#[derive(Debug, Clone, Copy, PartialEq, Eq)]
pub enum ColumnKind {
    /// Read as text.
    Text,
    /// Read as a 64-bit integer.
    Integer,
    /// Read as a floating-point number.
    Real,
    /// Read as a boolean.
    Boolean,
    /// Read as bytes, answered as an array of numbers.
    Blob,
    /// Tried as an integer, then a floating-point number, then text.
    Other,
}

/// What `str::to_uppercase` gives for `s` (Unicode upper-casing).
pub uninterp spec fn unicode_uppercase(s: Seq<char>) -> Seq<char>;

/// `str::to_uppercase`. Claimed: the result is the named upper-casing.
#[verifier::external_body]
fn to_uppercase(s: &str) -> (r: String)
    ensures
        r@ == unicode_uppercase(s@),
{
    s.to_uppercase()
}

/// The kind of an upper-cased declared type name.
pub open spec fn kind_of_upper(u: Seq<char>) -> ColumnKind {
    if u == "TEXT"@ {
        ColumnKind::Text
    } else if u == "INTEGER"@ || u == "BIGINT"@ || u == "INT"@ || u == "INT8"@ {
        ColumnKind::Integer
    } else if u == "REAL"@ || u == "DOUBLE"@ || u == "FLOAT"@ || u == "NUMERIC"@ {
        ColumnKind::Real
    } else if u == "BOOLEAN"@ {
        ColumnKind::Boolean
    } else if u == "BLOB"@ {
        ColumnKind::Blob
    } else {
        ColumnKind::Other
    }
}

/// Each kind is read for exactly its own declared type names: REAL, DOUBLE,
/// FLOAT and NUMERIC as floating-point numbers; INTEGER, BIGINT, INT and INT8
/// as integers; TEXT as text; BOOLEAN as a boolean; BLOB as bytes; any other
/// name is tried in turn.
pub proof fn law_column_kind_names(u: Seq<char>)
    ensures
        (kind_of_upper(u) == ColumnKind::Real) <==> (u == "REAL"@ || u == "DOUBLE"@ || u
            == "FLOAT"@ || u == "NUMERIC"@),
        (kind_of_upper(u) == ColumnKind::Integer) <==> (u == "INTEGER"@ || u == "BIGINT"@ || u
            == "INT"@ || u == "INT8"@),
        (kind_of_upper(u) == ColumnKind::Text) <==> u == "TEXT"@,
        (kind_of_upper(u) == ColumnKind::Boolean) <==> u == "BOOLEAN"@,
        (kind_of_upper(u) == ColumnKind::Blob) <==> u == "BLOB"@,
{
    reveal_strlit("TEXT");
    reveal_strlit("INTEGER");
    reveal_strlit("BIGINT");
    reveal_strlit("INT");
    reveal_strlit("INT8");
    reveal_strlit("REAL");
    reveal_strlit("DOUBLE");
    reveal_strlit("FLOAT");
    reveal_strlit("NUMERIC");
    reveal_strlit("BOOLEAN");
    reveal_strlit("BLOB");
    assert("TEXT"@.len() != "INTEGER"@.len());
    assert("TEXT"@.len() != "BIGINT"@.len());
    assert("TEXT"@.len() != "INT"@.len());
    assert("TEXT"@[0] != "INT8"@[0]);
    assert("TEXT"@[0] != "REAL"@[0]);
    assert("TEXT"@.len() != "DOUBLE"@.len());
    assert("TEXT"@.len() != "FLOAT"@.len());
    assert("TEXT"@.len() != "NUMERIC"@.len());
    assert("TEXT"@.len() != "BOOLEAN"@.len());
    assert("TEXT"@[0] != "BLOB"@[0]);
    assert("INTEGER"@.len() != "BIGINT"@.len());
    assert("INTEGER"@.len() != "INT"@.len());
    assert("INTEGER"@.len() != "INT8"@.len());
    assert("INTEGER"@.len() != "REAL"@.len());
    assert("INTEGER"@.len() != "DOUBLE"@.len());
    assert("INTEGER"@.len() != "FLOAT"@.len());
    assert("INTEGER"@[0] != "NUMERIC"@[0]);
    assert("INTEGER"@[0] != "BOOLEAN"@[0]);
    assert("INTEGER"@.len() != "BLOB"@.len());
    assert("BIGINT"@.len() != "INT"@.len());
    assert("BIGINT"@.len() != "INT8"@.len());
    assert("BIGINT"@.len() != "REAL"@.len());
    assert("BIGINT"@[0] != "DOUBLE"@[0]);
    assert("BIGINT"@.len() != "FLOAT"@.len());
    assert("BIGINT"@.len() != "NUMERIC"@.len());
    assert("BIGINT"@.len() != "BOOLEAN"@.len());
    assert("BIGINT"@.len() != "BLOB"@.len());
    assert("INT"@.len() != "INT8"@.len());
    assert("INT"@.len() != "REAL"@.len());
    assert("INT"@.len() != "DOUBLE"@.len());
    assert("INT"@.len() != "FLOAT"@.len());
    assert("INT"@.len() != "NUMERIC"@.len());
    assert("INT"@.len() != "BOOLEAN"@.len());
    assert("INT"@.len() != "BLOB"@.len());
    assert("INT8"@[0] != "REAL"@[0]);
    assert("INT8"@.len() != "DOUBLE"@.len());
    assert("INT8"@.len() != "FLOAT"@.len());
    assert("INT8"@.len() != "NUMERIC"@.len());
    assert("INT8"@.len() != "BOOLEAN"@.len());
    assert("INT8"@[0] != "BLOB"@[0]);
    assert("REAL"@.len() != "DOUBLE"@.len());
    assert("REAL"@.len() != "FLOAT"@.len());
    assert("REAL"@.len() != "NUMERIC"@.len());
    assert("REAL"@.len() != "BOOLEAN"@.len());
    assert("REAL"@[0] != "BLOB"@[0]);
    assert("DOUBLE"@.len() != "FLOAT"@.len());
    assert("DOUBLE"@.len() != "NUMERIC"@.len());
    assert("DOUBLE"@.len() != "BOOLEAN"@.len());
    assert("DOUBLE"@.len() != "BLOB"@.len());
    assert("FLOAT"@.len() != "NUMERIC"@.len());
    assert("FLOAT"@.len() != "BOOLEAN"@.len());
    assert("FLOAT"@.len() != "BLOB"@.len());
    assert("NUMERIC"@[0] != "BOOLEAN"@[0]);
    assert("NUMERIC"@.len() != "BLOB"@.len());
    assert("BOOLEAN"@.len() != "BLOB"@.len());
}

/// How a value of the declared type `declared_type` (any case) is read back.
pub fn column_kind(declared_type: &str) -> (r: ColumnKind)
    ensures
        r == kind_of_upper(unicode_uppercase(declared_type@)),
        (r == ColumnKind::Real) <==> ({
            let u = unicode_uppercase(declared_type@);
            u == "REAL"@ || u == "DOUBLE"@ || u == "FLOAT"@ || u == "NUMERIC"@
        }),
        (r == ColumnKind::Integer) <==> ({
            let u = unicode_uppercase(declared_type@);
            u == "INTEGER"@ || u == "BIGINT"@ || u == "INT"@ || u == "INT8"@
        }),
        (r == ColumnKind::Text) <==> unicode_uppercase(declared_type@) == "TEXT"@,
        (r == ColumnKind::Boolean) <==> unicode_uppercase(declared_type@) == "BOOLEAN"@,
        (r == ColumnKind::Blob) <==> unicode_uppercase(declared_type@) == "BLOB"@,
{
    proof {
        law_column_kind_names(unicode_uppercase(declared_type@));
    }
    let u = to_uppercase(declared_type);
    let s = u.as_str();
    if crate::text::eq_str(s, "TEXT") {
        ColumnKind::Text
    } else if crate::text::eq_str(s, "INTEGER") || crate::text::eq_str(s, "BIGINT")
        || crate::text::eq_str(s, "INT") || crate::text::eq_str(s, "INT8") {
        ColumnKind::Integer
    } else if crate::text::eq_str(s, "REAL") || crate::text::eq_str(s, "DOUBLE")
        || crate::text::eq_str(s, "FLOAT") || crate::text::eq_str(s, "NUMERIC") {
        ColumnKind::Real
    } else if crate::text::eq_str(s, "BOOLEAN") {
        ColumnKind::Boolean
    } else if crate::text::eq_str(s, "BLOB") {
        ColumnKind::Blob
    } else {
        ColumnKind::Other
    }
}

} // verus!

//! Parameterized bulk-insert builder for the choices table.
//!
//! A question's choices are written in one round trip: for N choices the
//! statement carries N parenthesized row groups of numbered placeholders,
//! `($1, $2, $3),($4, $5, $6),...`, and the parameter list is the flat
//! sequence of row tuples.  The index arithmetic lives here, in one helper,
//! and values are always passed as parameters, never interpolated into the
//! statement text.

use vstd::prelude::*;
use vstd::string::StringExecFns;
use crate::models::Choice;

verus! {

/// The decimal digit character for `d`.
pub open spec fn digit_char(d: int) -> char {
    if d == 0 {
        '0'
    } else if d == 1 {
        '1'
    } else if d == 2 {
        '2'
    } else if d == 3 {
        '3'
    } else if d == 4 {
        '4'
    } else if d == 5 {
        '5'
    } else if d == 6 {
        '6'
    } else if d == 7 {
        '7'
    } else if d == 8 {
        '8'
    } else {
        '9'
    }
}

/// The decimal digits of `n`, most significant first.
pub open spec fn dec_digits(n: int) -> Seq<char>
    recommends
        n >= 0,
    decreases n,
{
    if n <= 9 {
        seq![digit_char(n)]
    } else {
        dec_digits(n / 10).push(digit_char(n % 10))
    }
}

/// A numbered placeholder: a dollar sign followed by the index in decimal.
pub open spec fn placeholder(i: int) -> Seq<char> {
    seq!['$'] + dec_digits(i)
}

/// Row group `r` (0-based): the three placeholders for question id, text
/// and correct flag of one choice, numbered consecutively from `3r + 1`.
pub open spec fn row_group(r: int) -> Seq<char> {
    seq!['('] + placeholder(3 * r + 1) + seq![',', ' '] + placeholder(3 * r + 2)
        + seq![',', ' '] + placeholder(3 * r + 3) + seq![')']
}

/// The `n` row groups joined with commas.
pub open spec fn value_groups(n: int) -> Seq<char>
    decreases n,
{
    if n <= 0 {
        Seq::empty()
    } else if n == 1 {
        row_group(0)
    } else {
        value_groups(n - 1) + seq![','] + row_group(n - 1)
    }
}

/// The full bulk-insert statement for `n` choices.
pub open spec fn bulk_insert_statement(n: int) -> Seq<char> {
    "INSERT INTO choices (question_id, text, correct) VALUES "@ + value_groups(n)
        + " RETURNING id"@
}

fn digit_str(d: u64) -> (r: &'static str)
    requires
        d <= 9,
    ensures
        r@ == seq![digit_char(d as int)],
{
    let r: &'static str = match d {
        0 => "0",
        1 => "1",
        2 => "2",
        3 => "3",
        4 => "4",
        5 => "5",
        6 => "6",
        7 => "7",
        8 => "8",
        _ => "9",
    };
    proof {
        reveal_strlit("0");
        reveal_strlit("1");
        reveal_strlit("2");
        reveal_strlit("3");
        reveal_strlit("4");
        reveal_strlit("5");
        reveal_strlit("6");
        reveal_strlit("7");
        reveal_strlit("8");
        reveal_strlit("9");
        assert(r@ =~= seq![digit_char(d as int)]);
    }
    r
}

fn push_u64_decimal(s: &mut String, n: u64)
    ensures
        final(s)@ == old(s)@ + dec_digits(n as int),
    decreases n,
{
    if n <= 9 {
        s.append(digit_str(n));
        proof {
            assert(s@ =~= old(s)@ + dec_digits(n as int));
        }
    } else {
        push_u64_decimal(s, n / 10);
        s.append(digit_str(n % 10));
        proof {
            assert(s@ =~= old(s)@ + dec_digits(n as int));
        }
    }
}

fn push_placeholder(s: &mut String, i: u64)
    ensures
        final(s)@ == old(s)@ + placeholder(i as int),
{
    s.append("$");
    push_u64_decimal(s, i);
    proof {
        reveal_strlit("$");
        assert(s@ =~= old(s)@ + placeholder(i as int));
    }
}

fn push_row_group(s: &mut String, r: u64)
    requires
        3 * r + 3 <= u64::MAX,
    ensures
        final(s)@ == old(s)@ + row_group(r as int),
{
    s.append("(");
    push_placeholder(s, 3 * r + 1);
    s.append(", ");
    push_placeholder(s, 3 * r + 2);
    s.append(", ");
    push_placeholder(s, 3 * r + 3);
    s.append(")");
    proof {
        reveal_strlit("(");
        reveal_strlit(", ");
        reveal_strlit(")");
        assert(s@ =~= old(s)@ + row_group(r as int));
    }
}

/// Builds the bulk-insert statement covering `n` choices in one round trip.
pub fn choices_insert_statement(n: usize) -> (s: String)
    requires
        1 <= n,
        3 * n + 3 <= u64::MAX,
    ensures
        s@ == bulk_insert_statement(n as int),
{
    let mut s = String::from_str("INSERT INTO choices (question_id, text, correct) VALUES ");
    let ghost header = "INSERT INTO choices (question_id, text, correct) VALUES "@;
    let mut r: usize = 0;
    while r < n
        invariant
            r <= n,
            3 * n + 3 <= u64::MAX,
            s@ == header + value_groups(r as int),
        decreases n - r,
    {
        if r > 0 {
            s.append(",");
        }
        push_row_group(&mut s, r as u64);
        proof {
            reveal_strlit(",");
            assert(s@ =~= header + value_groups(r + 1));
        }
        r = r + 1;
    }
    s.append(" RETURNING id");
    proof {
        assert(s@ =~= bulk_insert_statement(n as int));
    }
    s
}

/// One value of the flat parameter list, in the store's three column types.
#[derive(Debug)]
pub enum SqlParam {
    Int(i64),
    Text(String),
    Flag(bool),
}

/// The flat parameter list matching `choices_insert_statement`: for each
/// choice, in order, the question id, the choice title, and the correct
/// flag.
pub fn choice_params(question_id: i64, choices: &Vec<Choice>) -> (v: Vec<SqlParam>)
    ensures
        v@.len() == 3 * choices@.len(),
        forall|k: int|
            0 <= k < choices@.len() ==> {
                let c = #[trigger] choices@[k];
                &&& v@[3 * k] == SqlParam::Int(question_id)
                &&& v@[3 * k + 1] == SqlParam::Text(c.title)
                &&& v@[3 * k + 2] == SqlParam::Flag(c.correct)
            },
{
    let mut v: Vec<SqlParam> = Vec::new();
    let n = choices.len();
    let mut k: usize = 0;
    while k < n
        invariant
            k <= n,
            n == choices@.len(),
            v@.len() == 3 * k,
            forall|j: int|
                0 <= j < k ==> {
                    let c = #[trigger] choices@[j];
                    &&& v@[3 * j] == SqlParam::Int(question_id)
                    &&& v@[3 * j + 1] == SqlParam::Text(c.title)
                    &&& v@[3 * j + 2] == SqlParam::Flag(c.correct)
                },
        decreases n - k,
    {
        v.push(SqlParam::Int(question_id));
        v.push(SqlParam::Text(choices[k].title.clone()));
        v.push(SqlParam::Flag(choices[k].correct));
        k = k + 1;
    }
    v
}

} // verus!

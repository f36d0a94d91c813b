//! The report of the PostgreSQL test component: one line per query with
//! how it went, and the status that the report is served with.

use vstd::prelude::*;

use crate::postgres::Value;

verus! {

/// The report line of one query: its SQL quoted, then `OK`, or `ERR: `
/// with the error's text.
pub open spec fn report_line(result: (String, Result<(), String>)) -> Seq<char> {
    match result.1 {
        Ok(()) => "'"@ + result.0@ + "' => OK"@,
        Err(e) => "'"@ + result.0@ + "' => ERR: "@ + e@,
    }
}

/// The report lines joined by line breaks.
pub open spec fn report_lines(s: Seq<(String, Result<(), String>)>) -> Seq<char>
    decreases s.len(),
{
    if s.len() == 0 {
        Seq::empty()
    } else if s.len() == 1 {
        report_line(s[0])
    } else {
        report_lines(s.drop_last()) + "\n"@ + report_line(s.last())
    }
}

/// The whole report: its lines, and a final line break.
pub open spec fn report_text(s: Seq<(String, Result<(), String>)>) -> Seq<char> {
    report_lines(s) + "\n"@
}

/// The report of the queries' results (see [`report_text`]).
pub fn make_table(results: &Vec<(String, Result<(), String>)>) -> (table: String)
    ensures
        table@ == report_text(results@),
{
    let mut table = String::new();
    let mut i: usize = 0;
    while i < results.len()
        invariant
            i <= results@.len(),
            table@ == report_lines(results@.take(i as int)),
        decreases results@.len() - i,
    {
        proof {
            assert(results@.take(i + 1).drop_last() =~= results@.take(i as int));
        }
        if i > 0 {
            table.append("\n");
        }
        table.append("'");
        table.append(results[i].0.as_str());
        match &results[i].1 {
            Ok(()) => table.append("' => OK"),
            Err(e) => {
                table.append("' => ERR: ");
                table.append(e.as_str());
            },
        }
        i = i + 1;
    }
    proof {
        assert(results@.take(results@.len() as int) =~= results@);
    }
    table.append("\n");
    table
}

/// The status of the report: 500 when a query failed, 200 otherwise.
pub fn get_status(results: &Vec<(String, Result<(), String>)>) -> (status: u16)
    ensures
        status == if exists|i: int| 0 <= i < results@.len() && (#[trigger] results@[i]).1 is Err {
            500u16
        } else {
            200u16
        },
{
    let mut i: usize = 0;
    while i < results.len()
        invariant
            i <= results@.len(),
            forall|j: int| 0 <= j < i ==> (#[trigger] results@[j]).1 is Ok,
        decreases results@.len() - i,
    {
        if results[i].1.is_err() {
            return 500;
        }
        i = i + 1;
    }
    200
}

/// The report served with its status.
pub fn make_response(results: &Vec<(String, Result<(), String>)>) -> (response: (u16, String))
    ensures
        response.0 == if exists|i: int| 0 <= i < results@.len() && (#[trigger] results@[i]).1 is Err {
            500u16
        } else {
            200u16
        },
        response.1@ == report_text(results@),
{
    (get_status(results), make_table(results))
}

/// The first column of the first row of a result, if there is one.
pub open spec fn first_cell(rows: Seq<Vec<Value>>) -> Option<Value> {
    if rows.len() > 0 && rows[0]@.len() > 0 {
        Some(rows[0]@[0])
    } else {
        None
    }
}

/// How a query that compares a bound parameter with a literal went, by the
/// rows it returned: passed when the first column of the first row is
/// `true`; `Values are not equal` when it is `false`; `Empty rowset
/// returned` when there is no such column or it is not a boolean.
pub fn bind_outcome(rows: &Vec<Vec<Value>>) -> (r: Result<(), String>)
    ensures
        first_cell(rows@) matches Some(Value::Boolean(true)) ==> r is Ok,
        first_cell(rows@) matches Some(Value::Boolean(false)) ==> (r matches Err(e) && e@
            == "Values are not equal"@),
        !(first_cell(rows@) matches Some(Value::Boolean(_))) ==> (r matches Err(e) && e@
            == "Empty rowset returned"@),
{
    if rows.len() > 0 && rows[0].len() > 0 {
        if let Value::Boolean(val) = &rows[0][0] {
            if *val {
                return Ok(());
            } else {
                return Err("Values are not equal".to_owned());
            }
        }
    }
    Err("Empty rowset returned".to_owned())
}

} // verus!

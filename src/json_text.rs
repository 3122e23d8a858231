//! Extraction of single JSON values from the lines that a line-delimited
//! JSON encoder writes for a one-column batch whose column name is empty.
//! An encoder that leaves out null fields writes a null value as `{}`.

use vstd::prelude::*;
use vstd::string::*;

verus! {

/// The opening of such a line: `{"":`.
pub open spec fn record_opening() -> Seq<char> {
    seq!['{', '"', '"', ':']
}

/// The JSON text `null`.
pub open spec fn null_text() -> Seq<char> {
    seq!['n', 'u', 'l', 'l']
}

/// The value inside `{"":VALUE}`; `null` for the empty object `{}` (a null
/// value whose field was left out); `None` when the line is of neither shape.
pub open spec fn unwrapped_value(line: Seq<char>) -> Option<Seq<char>> {
    if line == seq!['{', '}'] {
        Some(null_text())
    } else if line.len() >= 5 && line.take(4) == record_opening() && line.last() == '}' {
        Some(line.subrange(4, line.len() - 1))
    } else {
        None
    }
}

/// The JSON value written on one line as `{"":VALUE}`, or `null` for a
/// line `{}`.
pub fn json_value_of_line(line: &str) -> (r: Option<String>)
    ensures
        match r {
            Some(v) => unwrapped_value(line@) == Some(v@),
            None => unwrapped_value(line@) is None,
        },
{
    let n = line.unicode_len();
    if n == 2 && line.get_char(0) == '{' && line.get_char(1) == '}' {
        assert(line@ =~= seq!['{', '}']);
        let v = String::from_str("null");
        proof {
            reveal_strlit("null");
        }
        assert(v@ =~= null_text());
        return Some(v);
    }
    if n < 5 {
        return None;
    }
    let c0 = line.get_char(0);
    let c1 = line.get_char(1);
    let c2 = line.get_char(2);
    let c3 = line.get_char(3);
    let last = line.get_char(n - 1);
    if c0 == '{' && c1 == '"' && c2 == '"' && c3 == ':' && last == '}' {
        assert(line@.take(4) =~= record_opening());
        Some(line.substring_char(4, n - 1).to_string())
    } else {
        proof {
            if line@.take(4) == record_opening() {
                assert(line@.take(4)[0] == '{' && line@.take(4)[1] == '"');
                assert(line@.take(4)[2] == '"' && line@.take(4)[3] == ':');
            }
        }
        None
    }
}

/// The values of all lines, in order; `None` when some line is not of the
/// shape `{"":VALUE}`.
pub fn json_values(lines: &Vec<String>) -> (r: Option<Vec<String>>)
    ensures
        match r {
            Some(v) => v@.len() == lines@.len() && forall|i: int|
                0 <= i < lines@.len() ==> unwrapped_value(lines@[i]@) == Some(
                    (#[trigger] v@[i])@,
                ),
            None => exists|i: int|
                0 <= i < lines@.len() && (#[trigger] unwrapped_value(lines@[i]@)) is None,
        },
{
    let mut out: Vec<String> = Vec::new();
    let mut i: usize = 0;
    while i < lines.len()
        invariant
            i <= lines.len(),
            out@.len() == i,
            forall|k: int| 0 <= k < i ==> unwrapped_value(lines@[k]@) == Some((#[trigger] out@[k])@),
        decreases lines.len() - i,
    {
        match json_value_of_line(lines[i].as_str()) {
            Some(v) => out.push(v),
            None => {
                assert(unwrapped_value(lines@[i as int]@) is None);
                return None;
            },
        }
        i = i + 1;
    }
    Some(out)
}

} // verus!

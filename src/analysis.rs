//! Findings, their locations and severities, and analysis statistics.
use vstd::prelude::*;
use crate::text::{string_of, chars_of};

verus! {

/// How serious a finding is; `High` comes first.
#[derive(Clone, Copy, Debug, PartialEq, Eq, Hash, Structural)]
pub enum Severity {
    High,
    Medium,
    Low,
    Informational,
}

impl Severity {
    /// The display rank: `High` is 0, `Informational` is 3.
    pub open spec fn rank_spec(self) -> nat {
        match self {
            Severity::High => 0,
            Severity::Medium => 1,
            Severity::Low => 2,
            Severity::Informational => 3,
        }
    }

    pub fn rank(self) -> (r: usize)
        ensures
            r == self.rank_spec(),
    {
        match self {
            Severity::High => 0,
            Severity::Medium => 1,
            Severity::Low => 2,
            Severity::Informational => 3,
        }
    }
}

/// Where a finding is: 1-based line and columns; the columns and the end are
/// absent when no position data was available.
pub struct Location {
    pub file: String,
    pub line: usize,
    pub column: Option<usize>,
    pub end_line: Option<usize>,
    pub end_column: Option<usize>,
}

pub struct Finding {
    pub description: String,
    pub severity: Severity,
    pub location: Location,
    pub code_snippet: Option<String>,
}

pub open spec fn digit(d: nat) -> char {
    seq!['0', '1', '2', '3', '4', '5', '6', '7', '8', '9'][d as int]
}

/// The decimal digits of `n`, without leading zeros.
pub open spec fn decimal(n: nat) -> Seq<char>
    decreases n,
{
    if n < 10 {
        seq![digit(n)]
    } else {
        decimal(n / 10).push(digit(n % 10))
    }
}

pub fn push_decimal(n: usize, out: &mut Vec<char>)
    ensures
        final(out)@ == old(out)@ + decimal(n as nat),
    decreases n,
{
    if n >= 10 {
        push_decimal(n / 10, out);
    }
    let d: usize = n % 10;
    let c = if d == 0 {
        '0'
    } else if d == 1 {
        '1'
    } else if d == 2 {
        '2'
    } else if d == 3 {
        '3'
    } else if d == 4 {
        '4'
    } else if d == 5 {
        '5'
    } else if d == 6 {
        '6'
    } else if d == 7 {
        '7'
    } else if d == 8 {
        '8'
    } else {
        '9'
    };
    let ghost before = out@;
    out.push(c);
    assert(out@ =~= old(out)@ + decimal(n as nat));
}

pub fn push_str(out: &mut Vec<char>, s: &str)
    ensures
        final(out)@ == old(out)@ + s@,
{
    let mut v = chars_of(s);
    out.append(&mut v);
}

/// `file:line`, then `:col` when the column is known, then `-end_col` when
/// the end column differs on the same line, or `-end_line:end_col` when the
/// span ends on another line.
pub open spec fn location_text(l: Location) -> Seq<char> {
    let head = l.file@ + seq![':'] + decimal(l.line as nat);
    match (l.column, l.end_line, l.end_column) {
        (Some(c), Some(el), Some(ec)) if el != l.line => head + seq![':'] + decimal(c as nat) + seq!['-']
            + decimal(el as nat) + seq![':'] + decimal(ec as nat),
        (Some(c), _, Some(ec)) if ec != c => head + seq![':'] + decimal(c as nat) + seq!['-'] + decimal(
            ec as nat,
        ),
        (Some(c), _, _) => head + seq![':'] + decimal(c as nat),
        _ => head,
    }
}

impl Location {
    pub fn new_precise(
        file: String,
        line: usize,
        column: Option<usize>,
        end_line: Option<usize>,
        end_column: Option<usize>,
    ) -> (r: Location)
        ensures
            r.file == file,
            r.line == line,
            r.column == column,
            r.end_line == end_line,
            r.end_column == end_column,
    {
        Location { file, line, column, end_line, end_column }
    }

    /// The location as report text.
    pub fn format_location(&self) -> (r: String)
        ensures
            r@ == location_text(*self),
    {
        let mut out = chars_of(self.file.as_str());
        out.push(':');
        push_decimal(self.line, &mut out);
        match (self.column, self.end_line, self.end_column) {
            (Some(c), Some(el), Some(ec)) if el != self.line => {
                out.push(':');
                push_decimal(c, &mut out);
                out.push('-');
                push_decimal(el, &mut out);
                out.push(':');
                push_decimal(ec, &mut out);
            },
            (Some(c), _, Some(ec)) if ec != c => {
                out.push(':');
                push_decimal(c, &mut out);
                out.push('-');
                push_decimal(ec, &mut out);
            },
            (Some(c), _, _) => {
                out.push(':');
                push_decimal(c, &mut out);
            },
            _ => {},
        }
        let r = string_of(out.as_slice());
        assert(r@ =~= location_text(*self));
        r
    }
}

} // verus!

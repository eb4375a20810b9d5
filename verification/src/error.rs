//! PG-JSONL parser error types.
use vstd::prelude::*;

verus! {

/// Errors from parsing PG-JSONL files.
#[derive(Debug, Clone, PartialEq, Eq)]
pub enum PgJsonlError {
    /// A line is not a valid JSON object of a known record shape.
    Json {
        /// 1-based line number.
        line: usize,
        /// What is wrong with the line.
        detail: String,
    },
    /// A record's `type` is neither `node` nor `edge`/`relationship`.
    UnknownType {
        /// 1-based line number.
        line: usize,
        /// The offending `type` value.
        kind: String,
    },
    /// An identifier field is empty.
    EmptyField {
        /// 1-based line number.
        line: usize,
        /// The field name.
        field: &'static str,
    },
}

/// The mathematical content of a [`PgJsonlError`].
pub enum ErrorView {
    Json { line: nat, detail: Seq<char> },
    UnknownType { line: nat, kind: Seq<char> },
    EmptyField { line: nat, field: Seq<char> },
}

impl View for PgJsonlError {
    type V = ErrorView;

    open spec fn view(&self) -> ErrorView {
        match self {
            PgJsonlError::Json { line, detail } => ErrorView::Json { line: *line as nat, detail: detail@ },
            PgJsonlError::UnknownType { line, kind } => ErrorView::UnknownType { line: *line as nat, kind: kind@ },
            PgJsonlError::EmptyField { line, field } => ErrorView::EmptyField { line: *line as nat, field: field@ },
        }
    }
}

impl ErrorView {
    /// The 1-based line number the error is about.
    pub open spec fn line(self) -> nat {
        match self {
            ErrorView::Json { line, .. } => line,
            ErrorView::UnknownType { line, .. } => line,
            ErrorView::EmptyField { line, .. } => line,
        }
    }
}

/// The decimal digit `d` (below ten) as a character.
pub open spec fn digit_char(d: nat) -> char {
    (d + 48) as char
}

/// `n` written in decimal, without leading zeros.
pub open spec fn decimal(n: nat) -> Seq<char>
    decreases n,
{
    if n < 10 {
        seq![digit_char(n)]
    } else {
        decimal(n / 10).push(digit_char(n % 10))
    }
}

/// The message an error displays.
pub open spec fn error_message(e: ErrorView) -> Seq<char> {
    match e {
        ErrorView::Json { line, detail } => "PG-JSONL: line "@ + decimal(line) + ": "@ + detail,
        ErrorView::UnknownType { line, kind } => "PG-JSONL: line "@ + decimal(line) + ": unknown record type '"@ + kind + "'"@,
        ErrorView::EmptyField { line, field } => "PG-JSONL: line "@ + decimal(line) + ": '"@ + field + "' must not be empty"@,
    }
}

/// The decimal digit `d` as a one-character string.
fn digit_str(d: usize) -> (res: &'static str)
    requires
        d < 10,
    ensures
        res@ == seq![digit_char(d as nat)],
{
    proof {
        reveal_strlit("0");
        reveal_strlit("1");
        reveal_strlit("2");
        reveal_strlit("3");
        reveal_strlit("4");
        reveal_strlit("5");
        reveal_strlit("6");
        reveal_strlit("7");
        reveal_strlit("8");
        reveal_strlit("9");
    }
    let res = if d == 0 {
        "0"
    } else if d == 1 {
        "1"
    } else if d == 2 {
        "2"
    } else if d == 3 {
        "3"
    } else if d == 4 {
        "4"
    } else if d == 5 {
        "5"
    } else if d == 6 {
        "6"
    } else if d == 7 {
        "7"
    } else if d == 8 {
        "8"
    } else {
        "9"
    };
    assert(res@ =~= seq![digit_char(d as nat)]);
    res
}

/// `n` written in decimal.
pub fn decimal_string(n: usize) -> (res: String)
    ensures
        res@ == decimal(n as nat),
    decreases n,
{
    if n < 10 {
        String::from_str(digit_str(n))
    } else {
        let mut res = decimal_string(n / 10);
        res.append(digit_str(n % 10));
        res
    }
}

/// `n + 1` written in decimal; `n` may be `usize::MAX`.
pub fn decimal_successor(n: usize) -> (res: String)
    ensures
        res@ == decimal(n as nat + 1),
{
    if n < 9 {
        decimal_string(n + 1)
    } else {
        let q: usize = if n % 10 == 9 { n / 10 + 1 } else { n / 10 };
        let r: usize = if n % 10 == 9 { 0 } else { n % 10 + 1 };
        assert((n + 1) / 10 == q && (n + 1) % 10 == r);
        let mut res = decimal_string(q);
        res.append(digit_str(r));
        res
    }
}

impl PgJsonlError {
    /// The error's message, such as
    /// `PG-JSONL: line 3: unknown record type 'vertex'`.
    pub fn to_string(&self) -> (res: String)
        ensures
            res@ == error_message(self@),
    {
        let mut res = String::from_str("PG-JSONL: line ");
        match self {
            PgJsonlError::Json { line, detail } => {
                res.append(decimal_string(*line).as_str());
                res.append(": ");
                res.append(detail.as_str());
            },
            PgJsonlError::UnknownType { line, kind } => {
                res.append(decimal_string(*line).as_str());
                res.append(": unknown record type '");
                res.append(kind.as_str());
                res.append("'");
            },
            PgJsonlError::EmptyField { line, field } => {
                res.append(decimal_string(*line).as_str());
                res.append(": '");
                res.append(field);
                res.append("' must not be empty");
            },
        }
        res
    }
}

} // verus!

//! The summary of a run: the counters as lines of text.

use crate::processor::ProcessingStats;
use vstd::prelude::*;
use vstd::string::*;

verus! {

/// The character that writes the digit `d`.
pub open spec fn digit_char(d: int) -> char {
    if d == 0 {
        '0'
    } else if d == 1 {
        '1'
    } else if d == 2 {
        '2'
    } else if d == 3 {
        '3'
    } else if d == 4 {
        '4'
    } else if d == 5 {
        '5'
    } else if d == 6 {
        '6'
    } else if d == 7 {
        '7'
    } else if d == 8 {
        '8'
    } else {
        '9'
    }
}

/// The number `n` written in decimal, without leading zeros.
pub open spec fn decimal(n: nat) -> Seq<char>
    decreases n,
{
    if n < 10 {
        seq![digit_char(n as int)]
    } else {
        decimal(n / 10) + seq![digit_char((n % 10) as int)]
    }
}

/// The lines of the summary: for each counter its label and its count.
pub open spec fn summary_of(stats: ProcessingStats) -> Seq<(Seq<char>, Seq<char>)> {
    seq![
        ("├─ Files processed: "@, decimal(stats.files_processed as nat)),
        ("├─ Enums generated: "@, decimal(stats.enums_generated as nat)),
        ("├─ Schemas generated: "@, decimal(stats.schemas_generated as nat)),
        ("└─ Files skipped: "@, decimal(stats.files_skipped as nat)),
    ]
}

fn digit_text(d: usize) -> (r: &'static str)
    requires
        d < 10,
    ensures
        r@ == seq![digit_char(d as int)],
{
    proof {
        reveal_strlit("0");
        reveal_strlit("1");
        reveal_strlit("2");
        reveal_strlit("3");
        reveal_strlit("4");
        reveal_strlit("5");
        reveal_strlit("6");
        reveal_strlit("7");
        reveal_strlit("8");
        reveal_strlit("9");
    }
    let r = if d == 0 {
        "0"
    } else if d == 1 {
        "1"
    } else if d == 2 {
        "2"
    } else if d == 3 {
        "3"
    } else if d == 4 {
        "4"
    } else if d == 5 {
        "5"
    } else if d == 6 {
        "6"
    } else if d == 7 {
        "7"
    } else if d == 8 {
        "8"
    } else {
        "9"
    };
    assert(r@ =~= seq![digit_char(d as int)]);
    r
}

/// The number `n` written in decimal.
pub fn to_decimal(n: usize) -> (r: String)
    ensures
        r@ == decimal(n as nat),
    decreases n,
{
    if n < 10 {
        digit_text(n).to_owned()
    } else {
        let mut r = to_decimal(n / 10);
        r.append(digit_text(n % 10));
        r
    }
}

impl ProcessingStats {
    /// The lines of the summary: for each counter its label and its count.
    pub fn summary(&self) -> (lines: Vec<(String, String)>)
        ensures
            lines.deep_view() == summary_of(*self),
    {
        let mut lines: Vec<(String, String)> = Vec::new();
        lines.push(("├─ Files processed: ".to_owned(), to_decimal(self.files_processed)));
        lines.push(("├─ Enums generated: ".to_owned(), to_decimal(self.enums_generated)));
        lines.push(("├─ Schemas generated: ".to_owned(), to_decimal(self.schemas_generated)));
        lines.push(("└─ Files skipped: ".to_owned(), to_decimal(self.files_skipped)));
        assert(lines.deep_view() =~= summary_of(*self));
        lines
    }
}

} // verus!

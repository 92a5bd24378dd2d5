//! Deterministic names for workspaces and the files inside them.
//!
//! A workspace is named from the local date and time of its allocation,
//! `YYYY-MM-DD-HH:MM`; each chunk file and the merged artifact are named
//! from the workspace and the chunk index alone, so no two units of one job
//! ever contend for the same file.

use vstd::prelude::*;
use crate::model::TimeFields;

verus! {

/// The character for one decimal digit.
pub open spec fn digit_char(d: nat) -> char {
    if d == 0 {
        '0'
    } else if d == 1 {
        '1'
    } else if d == 2 {
        '2'
    } else if d == 3 {
        '3'
    } else if d == 4 {
        '4'
    } else if d == 5 {
        '5'
    } else if d == 6 {
        '6'
    } else if d == 7 {
        '7'
    } else if d == 8 {
        '8'
    } else {
        '9'
    }
}

/// The decimal digits of `n`, most significant first, without leading zeros.
pub open spec fn dec_digits(n: nat) -> Seq<char>
    decreases n,
{
    if n < 10 {
        seq![digit_char(n)]
    } else {
        dec_digits(n / 10).push(digit_char(n % 10))
    }
}

/// The decimal digits of `n`, left-padded with zeros to at least `width`
/// characters.
pub open spec fn padded_decimal(n: nat, width: nat) -> Seq<char> {
    if dec_digits(n).len() >= width {
        dec_digits(n)
    } else {
        Seq::new((width - dec_digits(n).len()) as nat, |i: int| '0') + dec_digits(n)
    }
}

fn digit_str(d: u64) -> (s: &'static str)
    requires
        d < 10,
    ensures
        s@ == seq![digit_char(d as nat)],
{
    proof {
        reveal_strlit("0");
        reveal_strlit("1");
        reveal_strlit("2");
        reveal_strlit("3");
        reveal_strlit("4");
        reveal_strlit("5");
        reveal_strlit("6");
        reveal_strlit("7");
        reveal_strlit("8");
        reveal_strlit("9");
    }
    let s = if d == 0 {
        "0"
    } else if d == 1 {
        "1"
    } else if d == 2 {
        "2"
    } else if d == 3 {
        "3"
    } else if d == 4 {
        "4"
    } else if d == 5 {
        "5"
    } else if d == 6 {
        "6"
    } else if d == 7 {
        "7"
    } else if d == 8 {
        "8"
    } else {
        "9"
    };
    proof {
        assert(s@ =~= seq![digit_char(d as nat)]);
    }
    s
}

/// The decimal representation of `n`, most significant digit first.
pub fn decimal_string(n: u64) -> (s: String)
    ensures
        s@ == dec_digits(n as nat),
    decreases n,
{
    if n < 10 {
        let mut s = String::new();
        s.append(digit_str(n));
        proof {
            assert(s@ =~= seq![digit_char(n as nat)]);
        }
        s
    } else {
        let mut s = decimal_string(n / 10);
        s.append(digit_str(n % 10));
        proof {
            assert(s@ =~= dec_digits((n / 10) as nat).push(digit_char((n % 10) as nat)));
        }
        s
    }
}

/// One padding step: for `n` of two or more digits, padding `n` to `width`
/// is padding `n / 10` to one less and appending the last digit.
proof fn lemma_padded_step(n: nat, width: nat)
    requires
        n >= 10,
    ensures
        padded_decimal(n, width) == padded_decimal(
            n / 10,
            if width == 0 {
                0nat
            } else {
                (width - 1) as nat
            },
        ).push(digit_char(n % 10)),
{
    let w2: nat = if width == 0 {
        0nat
    } else {
        (width - 1) as nat
    };
    let d = dec_digits(n);
    let d2 = dec_digits(n / 10);
    assert(d == d2.push(digit_char(n % 10)));
    if d2.len() >= w2 {
        assert(padded_decimal(n, width) =~= padded_decimal(n / 10, w2).push(digit_char(n % 10)));
    } else {
        assert(padded_decimal(n, width) =~= padded_decimal(n / 10, w2).push(digit_char(n % 10)));
    }
}

/// The decimal representation of `n`, left-padded with zeros to at least
/// `width` characters.
pub fn padded_decimal_string(n: u64, width: usize) -> (s: String)
    ensures
        s@ == padded_decimal(n as nat, width as nat),
    decreases n,
{
    if n < 10 {
        let mut s = String::new();
        let mut k: usize = 1;
        proof {
            reveal_strlit("0");
            assert(s@ =~= Seq::new((k - 1) as nat, |i: int| '0'));
        }
        while k < width
            invariant
                1 <= k,
                k <= width || k == 1,
                s@ == Seq::new((k - 1) as nat, |i: int| '0'),
            decreases width - k,
        {
            s.append("0");
            k = k + 1;
            proof {
                reveal_strlit("0");
                assert(s@ =~= Seq::new((k - 1) as nat, |i: int| '0'));
            }
        }
        s.append(digit_str(n));
        proof {
            assert(s@ =~= padded_decimal(n as nat, width as nat));
        }
        s
    } else {
        let next_width = if width == 0 {
            0
        } else {
            width - 1
        };
        let mut s = padded_decimal_string(n / 10, next_width);
        s.append(digit_str(n % 10));
        proof {
            lemma_padded_step(n as nat, width as nat);
        }
        s
    }
}

/// The ranges chrono documents for the wall-clock fields.
pub open spec fn time_fields_valid(t: TimeFields) -> bool {
    &&& 1 <= t.month <= 12
    &&& 1 <= t.day <= 31
    &&& t.hour < 24
    &&& t.minute < 60
}

/// Relies on `chrono::Local::now` and chrono's `Datelike` / `Timelike`
/// accessors: `month` is 1 to 12, `day` is 1 to 31, `hour` is 0 to 23 and
/// `minute` is 0 to 59. The moment read from the clock differs from call to
/// call, so nothing relates the fields of two calls.
#[verifier::external_body]
pub(crate) fn local_time_fields() -> (t: TimeFields)
    ensures
        time_fields_valid(t),
{
    let now = chrono::Local::now();
    TimeFields {
        year: chrono::Datelike::year(&now),
        month: chrono::Datelike::month(&now),
        day: chrono::Datelike::day(&now),
        hour: chrono::Timelike::hour(&now),
        minute: chrono::Timelike::minute(&now),
    }
}

/// The year as a number that can be formatted: years before the common era
/// are clamped to zero.
pub open spec fn clamped_year(y: i32) -> nat {
    if y >= 0 {
        y as nat
    } else {
        0
    }
}

/// The name of the workspace allocated at time `t`: the local date and time
/// as `YYYY-MM-DD-HH:MM`.
pub open spec fn workspace_name_spec(t: TimeFields) -> Seq<char> {
    padded_decimal(clamped_year(t.year), 4) + seq!['-'] + padded_decimal(t.month as nat, 2)
        + seq!['-'] + padded_decimal(t.day as nat, 2) + seq!['-'] + padded_decimal(
        t.hour as nat,
        2,
    ) + seq![':'] + padded_decimal(t.minute as nat, 2)
}

/// Formats the workspace name for the time `t`.
pub fn workspace_name(t: &TimeFields) -> (name: String)
    ensures
        name@ == workspace_name_spec(*t),
{
    let year: u64 = if t.year >= 0 {
        t.year as u64
    } else {
        0
    };
    let mut s = padded_decimal_string(year, 4);
    s.append("-");
    let part = padded_decimal_string(t.month as u64, 2);
    s.append(part.as_str());
    s.append("-");
    let part = padded_decimal_string(t.day as u64, 2);
    s.append(part.as_str());
    s.append("-");
    let part = padded_decimal_string(t.hour as u64, 2);
    s.append(part.as_str());
    s.append(":");
    let part = padded_decimal_string(t.minute as u64, 2);
    s.append(part.as_str());
    proof {
        reveal_strlit("-");
        reveal_strlit(":");
        assert("-"@ =~= seq!['-']);
        assert(":"@ =~= seq![':']);
        assert(s@ =~= workspace_name_spec(*t));
    }
    s
}

/// The file that chunk `index`'s synthesized bytes are persisted to, inside
/// the workspace; the number in the name is 1-based, as listeners see it.
pub open spec fn chunk_file_name_spec(workspace: Seq<char>, index: int) -> Seq<char> {
    workspace + "/speech-chunk-"@ + dec_digits((index + 1) as nat) + ".mp3"@
}

/// Formats the name of the file for chunk `index` of the given workspace.
pub fn chunk_file_name(workspace: &str, index: usize) -> (name: String)
    requires
        index < usize::MAX,
    ensures
        name@ == chunk_file_name_spec(workspace@, index as int),
{
    let mut s = workspace.to_owned();
    s.append("/speech-chunk-");
    let num = decimal_string(index as u64 + 1);
    s.append(num.as_str());
    s.append(".mp3");
    s
}

/// The merged artifact's path inside the workspace.
pub open spec fn merged_file_name_spec(workspace: Seq<char>) -> Seq<char> {
    workspace + "/speech-merged.mp3"@
}

/// Formats the merged artifact's name for the given workspace.
pub fn merged_file_name(workspace: &str) -> (name: String)
    ensures
        name@ == merged_file_name_spec(workspace@),
{
    let mut s = workspace.to_owned();
    s.append("/speech-merged.mp3");
    s
}

} // verus!

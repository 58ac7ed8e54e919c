//! What the run of an outside command amounts to.

use vstd::prelude::*;
use vstd::string::*;

use crate::errors::{code, detailed, VolteError};
use crate::text;
use crate::text::{decimal, texts, trimmed};

verus! {

/// A number with its sign.
pub open spec fn signed(n: int) -> Seq<char> {
    if n < 0 {
        "-"@ + decimal((-n) as nat)
    } else {
        decimal(n as nat)
    }
}

/// Writes a number with its sign.
pub fn signed_string(n: i32) -> (r: String)
    ensures
        r@ == signed(n as int),
{
    let wide = n as i64;
    if wide < 0 {
        let mut out = "-".to_string();
        let digits = text::decimal_string((-wide) as u64);
        out.append(digits.as_str());
        out
    } else {
        text::decimal_string(wide as u64)
    }
}

/// The items with `sep` between them.
pub open spec fn joined(items: Seq<Seq<char>>, sep: Seq<char>) -> Seq<char>
    decreases items.len(),
{
    if items.len() == 0 {
        Seq::empty()
    } else if items.len() == 1 {
        items[0]
    } else {
        joined(items.drop_last(), sep) + sep + items.last()
    }
}

/// Joins the items with `sep` between them.
pub fn join(items: &[String], sep: &str) -> (r: String)
    ensures
        r@ == joined(texts(items@), sep@),
{
    let ghost all = texts(items@);
    let mut out = String::new();
    let mut i: usize = 0;
    proof {
        assert(all.take(0) =~= Seq::<Seq<char>>::empty());
        assert(out@ =~= Seq::<char>::empty());
    }
    while i < items.len()
        invariant
            i <= items@.len(),
            all == texts(items@),
            out@ == joined(all.take(i as int), sep@),
        decreases items@.len() - i,
    {
        proof {
            assert(all.take(i as int + 1).drop_last() =~= all.take(i as int));
            assert(all.take(i as int + 1).last() == items@[i as int]@);
        }
        if i > 0 {
            out.append(sep);
        }
        out.append(items[i].as_str());
        proof {
            if i == 0 {
                assert(out@ =~= items@[0]@);
            }
        }
        i += 1;
    }
    proof {
        assert(all.take(all.len() as int) =~= all);
    }
    out
}

/// The text on one line: each line feed is a space.
pub open spec fn one_line(s: Seq<char>) -> Seq<char> {
    s.map_values(
        |c: char|
            if c == '\n' {
                ' '
            } else {
                c
            },
    )
}

/// Puts a text on one line.
pub fn on_one_line(s: &str) -> (r: String)
    ensures
        r@ == one_line(s@),
{
    let c = text::chars(s);
    let mut out: Vec<char> = Vec::new();
    let mut i: usize = 0;
    while i < c.len()
        invariant
            i <= c@.len(),
            c@ == s@,
            out@ == one_line(s@.take(i as int)),
        decreases c@.len() - i,
    {
        out.push(
            if c[i] == '\n' {
                ' '
            } else {
                c[i]
            },
        );
        i += 1;
        proof {
            assert(out@ =~= one_line(s@.take(i as int)));
        }
    }
    proof {
        assert(s@.take(s@.len() as int) =~= s@);
    }
    text::string(&out)
}

/// The detail of a command that failed: the program, its status, its arguments and
/// what it complained of.
pub open spec fn failed_command(
    program: Seq<char>,
    args: Seq<Seq<char>>,
    status: Option<i32>,
    stderr: Seq<char>,
) -> Seq<char> {
    program + ":"@ + signed(
        match status {
            Some(status) => status as int,
            None => -1,
        },
    ) + ":"@ + joined(args, " "@) + ":"@ + one_line(trimmed(stderr))
}

/// What the run of a command amounts to: its output, or the error that describes
/// its failure.
pub fn command_output(
    program: &str,
    args: &[String],
    success: bool,
    status: Option<i32>,
    stdout: &str,
    stderr: &str,
) -> (r: Result<String, VolteError>)
    ensures
        match r {
            Ok(output) => success && output@ == stdout@,
            Err(error) => !success && error@ == detailed(
                code::COMMAND_FAILED@,
                failed_command(program@, texts(args@), status, stderr@),
            ),
        },
{
    if success {
        return Ok(stdout.to_string());
    }
    let mut detail = program.to_string();
    detail.append(":");
    let number: i32 = match status {
        Some(status) => status,
        None => -1,
    };
    let number = signed_string(number);
    detail.append(number.as_str());
    detail.append(":");
    let args = join(args, " ");
    detail.append(args.as_str());
    detail.append(":");
    let stderr = on_one_line(text::trim(stderr).as_str());
    detail.append(stderr.as_str());
    Err(VolteError::with_detail(code::COMMAND_FAILED, detail.as_str()))
}

} // verus!

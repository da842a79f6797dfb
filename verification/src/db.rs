//! What the database layer decides from the rows a statement touched.
use vstd::prelude::*;

use crate::text::{chars_of, extend_chars, string_from_chars};

verus! {

/// An update or delete found no row with the given id.
#[derive(Debug)]
pub struct NotFoundError {
    pub entity: &'static str,
    pub id: i64,
}

/// The decimal digit character of `d`.
pub open spec fn digit_char(d: nat) -> char {
    if d == 0 {
        '0'
    } else if d == 1 {
        '1'
    } else if d == 2 {
        '2'
    } else if d == 3 {
        '3'
    } else if d == 4 {
        '4'
    } else if d == 5 {
        '5'
    } else if d == 6 {
        '6'
    } else if d == 7 {
        '7'
    } else if d == 8 {
        '8'
    } else {
        '9'
    }
}

/// The decimal digits of `n`, without leading zeros.
pub open spec fn decimal_digits(n: nat) -> Seq<char>
    decreases n,
{
    if n < 10 {
        seq![digit_char(n)]
    } else {
        decimal_digits(n / 10).push(digit_char(n % 10))
    }
}

/// The decimal text of `n`, with a leading `-` when it is negative.
pub open spec fn decimal(n: int) -> Seq<char> {
    if n < 0 {
        seq!['-'] + decimal_digits((-n) as nat)
    } else {
        decimal_digits(n as nat)
    }
}

fn digit(d: u64) -> (c: char)
    requires
        d < 10,
    ensures
        c == digit_char(d as nat),
{
    if d == 0 {
        '0'
    } else if d == 1 {
        '1'
    } else if d == 2 {
        '2'
    } else if d == 3 {
        '3'
    } else if d == 4 {
        '4'
    } else if d == 5 {
        '5'
    } else if d == 6 {
        '6'
    } else if d == 7 {
        '7'
    } else if d == 8 {
        '8'
    } else {
        '9'
    }
}

fn push_digits(out: &mut Vec<char>, n: u64)
    ensures
        final(out)@ == old(out)@ + decimal_digits(n as nat),
    decreases n,
{
    if n < 10 {
        out.push(digit(n));
    } else {
        push_digits(out, n / 10);
        out.push(digit(n % 10));
    }
}

/// Appends the decimal text of `n`, as `i64`'s `Display` writes it.
pub fn push_decimal(out: &mut Vec<char>, n: i64)
    ensures
        final(out)@ == old(out)@ + decimal(n as int),
{
    if n < 0 {
        out.push('-');
        let m: u64 = if n == i64::MIN {
            9223372036854775808u64
        } else {
            (-n) as u64
        };
        push_digits(out, m);
    } else {
        push_digits(out, n as u64);
    }
}

impl NotFoundError {
    /// The error's message: `<entity> with id <id> not found`.
    pub fn message(&self) -> (r: String)
        ensures
            r@ == self.entity@ + " with id "@ + decimal(self.id as int) + " not found"@,
    {
        let mut out = chars_of(self.entity);
        extend_chars(&mut out, &chars_of(" with id "));
        push_decimal(&mut out, self.id);
        extend_chars(&mut out, &chars_of(" not found"));
        string_from_chars(&out)
    }
}

/// An update or delete of the row `id` of `entity` that touched `rows`
/// rows succeeded when it touched one, and found nothing when it touched
/// none.
pub fn check_rows_affected(rows: usize, entity: &'static str, id: i64) -> (r: Result<
    (),
    NotFoundError,
>)
    ensures
        rows == 0 ==> (r matches Err(e) && e.entity == entity && e.id == id),
        rows != 0 ==> r is Ok,
{
    if rows == 0 {
        Err(NotFoundError { entity, id })
    } else {
        Ok(())
    }
}

} // verus!

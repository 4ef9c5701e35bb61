//! Decimal rendering of numeric identifiers.
//!
//! Query parameters carry numeric identifiers as plain decimal text, joined
//! by commas.  `dec_of` is the mathematical form of a decimal rendering and
//! `dec_list` of a comma-joined list; the executable functions produce
//! exactly those strings.

use vstd::prelude::*;
use vstd::string::StringExecFns;

use crate::text::push_char;

verus! {

/// The digit character for a value below ten.
pub open spec fn digit_char(d: int) -> char {
    if d == 0 {
        '0'
    } else if d == 1 {
        '1'
    } else if d == 2 {
        '2'
    } else if d == 3 {
        '3'
    } else if d == 4 {
        '4'
    } else if d == 5 {
        '5'
    } else if d == 6 {
        '6'
    } else if d == 7 {
        '7'
    } else if d == 8 {
        '8'
    } else {
        '9'
    }
}

/// The decimal rendering of a non-negative number, without leading zeros.
pub open spec fn dec_of(n: int) -> Seq<char>
    decreases n,
{
    if n < 10 {
        seq![digit_char(n)]
    } else {
        dec_of(n / 10) + seq![digit_char(n % 10)]
    }
}

/// The comma-joined decimal renderings of a list of identifiers.
pub open spec fn dec_list(ids: Seq<u16>) -> Seq<char>
    decreases ids.len(),
{
    if ids.len() == 0 {
        Seq::empty()
    } else if ids.len() == 1 {
        dec_of(ids[0] as int)
    } else {
        dec_list(ids.drop_last()) + ","@ + dec_of(ids.last() as int)
    }
}

fn digit_of(d: u8) -> (c: char)
    requires
        d < 10,
    ensures
        c == digit_char(d as int),
{
    match d {
        0 => '0',
        1 => '1',
        2 => '2',
        3 => '3',
        4 => '4',
        5 => '5',
        6 => '6',
        7 => '7',
        8 => '8',
        _ => '9',
    }
}

/// The decimal rendering of one number.
pub fn u16_dec(n: u16) -> (r: String)
    ensures
        r@ == dec_of(n as int),
    decreases n,
{
    if n < 10 {
        let mut s = String::new();
        push_char(&mut s, digit_of(n as u8));
        assert(s@ =~= dec_of(n as int));
        s
    } else {
        let mut s = u16_dec(n / 10);
        push_char(&mut s, digit_of((n % 10) as u8));
        assert(s@ =~= dec_of(n as int));
        s
    }
}

/// The comma-joined decimal renderings of a list of identifiers.
pub fn dec_list_string(ids: &Vec<u16>) -> (r: String)
    ensures
        r@ == dec_list(ids@),
{
    let mut r = String::new();
    let mut i: usize = 0;
    while i < ids.len()
        invariant
            i <= ids.len(),
            r@ == dec_list(ids@.take(i as int)),
        decreases ids.len() - i,
    {
        if i > 0 {
            r.append(",");
        }
        let d = u16_dec(ids[i]);
        r.append(d.as_str());
        i += 1;
        proof {
            let pre = ids@.take(i as int);
            assert(pre.drop_last() =~= ids@.take(i - 1));
            assert(pre.last() == ids@[i - 1]);
            if i == 1 {
                assert(r@ =~= dec_list(pre));
            } else {
                assert(r@ =~= dec_list(pre));
            }
        }
    }
    assert(ids@.take(ids.len() as int) =~= ids@);
    r
}

} // verus!

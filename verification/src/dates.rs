//! Date text shapes.
//!
//! Two shapes matter: the exact `YYYY-MM-DDThh:mm:ss` form that the slug
//! synthesis strategy reads a year and month from, and the wider
//! command-line form that also allows a lowercase or space separator,
//! fractional seconds, and a timezone suffix.

use vstd::prelude::*;
use vstd::string::StrSliceExecFns;

use crate::text::check_digits_in;
use crate::text::chars_of;
use crate::text::digit_check;
use crate::text::digits_in;
use crate::text::is_digit;

verus! {

/// The exact publish-date shape: `YYYY-MM-DDThh:mm:ss`.
pub open spec fn date_match(s: Seq<char>) -> bool {
    &&& s.len() == 19
    &&& digits_in(s, 0, 4)
    &&& s[4] == '-'
    &&& digits_in(s, 5, 7)
    &&& s[7] == '-'
    &&& digits_in(s, 8, 10)
    &&& s[10] == 'T'
    &&& digits_in(s, 11, 13)
    &&& s[13] == ':'
    &&& digits_in(s, 14, 16)
    &&& s[16] == ':'
    &&& digits_in(s, 17, 19)
}

/// Reads the year and month out of an exact publish date; any other string
/// yields nothing.
pub fn parse_date(s: &str) -> (r: Option<(String, String)>)
    ensures
        r is Some <==> date_match(s@),
        r matches Some(p) ==> p.0@ == s@.take(4) && p.1@ == s@.subrange(5, 7),
{
    let v = chars_of(s);
    if v.len() != 19 {
        return None;
    }
    if !(check_digits_in(&v, 0, 4) && v[4] == '-' && check_digits_in(&v, 5, 7) && v[7] == '-'
        && check_digits_in(&v, 8, 10) && v[10] == 'T' && check_digits_in(&v, 11, 13) && v[13]
        == ':' && check_digits_in(&v, 14, 16) && v[16] == ':' && check_digits_in(&v, 17, 19)) {
        return None;
    }
    let year = s.substring_char(0, 4).to_owned();
    let month = s.substring_char(5, 7).to_owned();
    proof {
        assert(year@ =~= s@.take(4));
    }
    Some((year, month))
}

/// Where the run of digits starting at `i` ends.
pub open spec fn digit_run_end(s: Seq<char>, i: int) -> int
    decreases s.len() - i,
{
    if i < 0 || i >= s.len() {
        i
    } else if is_digit(s[i]) {
        digit_run_end(s, i + 1)
    } else {
        i
    }
}

/// A timezone suffix occupying `[i, len)`: nothing, `Z`, or a sign with two
/// digits and an optional colon-separated two-digit minute part.
pub open spec fn tz_match(s: Seq<char>, i: int) -> bool {
    ||| i == s.len()
    ||| (i + 1 == s.len() && s[i] == 'Z')
    ||| ((s[i] == '+' || s[i] == '-') && i + 3 == s.len() && digits_in(s, i + 1, i + 3))
    ||| ((s[i] == '+' || s[i] == '-') && i + 6 == s.len() && digits_in(s, i + 1, i + 3) && s[i + 3]
        == ':' && digits_in(s, i + 4, i + 6))
}

/// The command-line date shape: `YYYY-MM-DD`, a `T`, `t` or space, then
/// `hh:mm:ss`, optionally `.` with at least one fractional digit, then an
/// optional timezone suffix.
pub open spec fn valid_datetime(s: Seq<char>) -> bool {
    &&& s.len() >= 19
    &&& digits_in(s, 0, 4)
    &&& s[4] == '-'
    &&& digits_in(s, 5, 7)
    &&& s[7] == '-'
    &&& digits_in(s, 8, 10)
    &&& (s[10] == 'T' || s[10] == 't' || s[10] == ' ')
    &&& digits_in(s, 11, 13)
    &&& s[13] == ':'
    &&& digits_in(s, 14, 16)
    &&& s[16] == ':'
    &&& digits_in(s, 17, 19)
    &&& if s.len() > 19 && s[19] == '.' {
        digit_run_end(s, 20) > 20 && tz_match(s, digit_run_end(s, 20))
    } else {
        tz_match(s, 19)
    }
}

fn run_end_exec(v: &Vec<char>, i: usize) -> (r: usize)
    requires
        i <= v.len(),
    ensures
        r as int == digit_run_end(v@, i as int),
        i <= r <= v.len(),
{
    let mut j: usize = i;
    while j < v.len()
        invariant
            i <= j <= v@.len(),
            digit_run_end(v@, i as int) == digit_run_end(v@, j as int),
        decreases v@.len() - j,
    {
        if !digit_check(v[j]) {
            return j;
        }
        j += 1;
    }
    j
}

fn tz_check(v: &Vec<char>, i: usize) -> (r: bool)
    requires
        i <= v.len(),
    ensures
        r == tz_match(v@, i as int),
{
    if i == v.len() {
        return true;
    }
    if v[i] == 'Z' && i + 1 == v.len() {
        return true;
    }
    if v[i] == '+' || v[i] == '-' {
        if v.len() - i == 3 && check_digits_in(v, i + 1, i + 3) {
            return true;
        }
        if v.len() - i == 6 && check_digits_in(v, i + 1, i + 3) && v[i + 3] == ':'
            && check_digits_in(v, i + 4, i + 6) {
            return true;
        }
    }
    false
}

/// Accepts a date filter in the command-line shape, handing the text back
/// unchanged; anything else is rejected with a description of the shape.
pub fn validate_date(val: &str) -> (r: Result<String, String>)
    ensures
        r is Ok <==> valid_datetime(val@),
        r matches Ok(v) ==> v@ == val@,
        r matches Err(e) ==> e@
            == "Invalid date format. Use YYYY-MM-DDTHH:MM:SS plus optional fractional seconds plus an optional timezone specifier in the form Z, +XX, -XX, +XX:XX, or -XX:XX (cf. <https://core.trac.wordpress.org/ticket/41032>)."@,
{
    let v = chars_of(val);
    let head_ok = v.len() >= 19 && check_digits_in(&v, 0, 4) && v[4] == '-' && check_digits_in(
        &v,
        5,
        7,
    ) && v[7] == '-' && check_digits_in(&v, 8, 10) && (v[10] == 'T' || v[10] == 't' || v[10]
        == ' ') && check_digits_in(&v, 11, 13) && v[13] == ':' && check_digits_in(&v, 14, 16)
        && v[16] == ':' && check_digits_in(&v, 17, 19);
    let ok = head_ok && {
        if v.len() > 19 && v[19] == '.' {
            let e = run_end_exec(&v, 20);
            e > 20 && tz_check(&v, e)
        } else {
            tz_check(&v, 19)
        }
    };
    if ok {
        Ok(val.to_owned())
    } else {
        Err(
            "Invalid date format. Use YYYY-MM-DDTHH:MM:SS plus optional fractional seconds plus an optional timezone specifier in the form Z, +XX, -XX, +XX:XX, or -XX:XX (cf. <https://core.trac.wordpress.org/ticket/41032>).".to_owned(),
        )
    }
}

} // verus!

//! Text helpers shared by the whole translator: decimal rendering of
//! integers and sanitization of names taken from the input IR.

use vstd::prelude::*;
use vstd::string::StrSliceExecFns;
use vstd::string::StringExecFns;

verus! {

/// The decimal digit character for `d` (0 through 9).
pub open spec fn spec_digit(d: int) -> char {
    if d == 0 {
        '0'
    } else if d == 1 {
        '1'
    } else if d == 2 {
        '2'
    } else if d == 3 {
        '3'
    } else if d == 4 {
        '4'
    } else if d == 5 {
        '5'
    } else if d == 6 {
        '6'
    } else if d == 7 {
        '7'
    } else if d == 8 {
        '8'
    } else {
        '9'
    }
}

/// Decimal digits of a nonnegative integer, most significant first,
/// without leading zeros (a single '0' for zero).
pub open spec fn spec_udec(n: nat) -> Seq<char>
    decreases n,
{
    if n < 10 {
        seq![spec_digit(n as int)]
    } else {
        spec_udec(n / 10).push(spec_digit((n % 10) as int))
    }
}

/// Decimal rendering of a signed integer: a leading '-' for negative values.
pub open spec fn spec_dec(v: int) -> Seq<char> {
    if v < 0 {
        seq!['-'] + spec_udec((-v) as nat)
    } else {
        spec_udec(v as nat)
    }
}

/// Relies on the standard library's `Display` formatting for `i128`:
/// base-ten digits without leading zeros, and a leading '-' for
/// negative values.
#[verifier::external_body]
pub fn dec_string(v: i128) -> (r: String)
    ensures
        r@ == spec_dec(v as int),
{
    format!("{}", v)
}

/// Decimal rendering of a `usize`, through the same formatting path.
pub fn dec_string_usize(v: usize) -> (r: String)
    ensures
        r@ == spec_dec(v as int),
{
    dec_string(v as i128)
}

/// Relies on `String::push`: appends exactly one character at the end.
#[verifier::external_body]
pub fn push_char(s: &mut String, c: char)
    ensures
        final(s)@ == old(s)@.push(c),
{
    s.push(c)
}

/// Characters that survive sanitization: ASCII letters, digits and '_'.
pub open spec fn spec_is_ident_char(c: char) -> bool {
    (97 <= c as u32 && c as u32 <= 122) || (65 <= c as u32 && c as u32 <= 90) || (48 <= c as u32
        && c as u32 <= 57) || c as u32 == 95
}

pub fn is_ident_char(c: char) -> (r: bool)
    ensures
        r == spec_is_ident_char(c),
{
    let u = c as u32;
    (97 <= u && u <= 122) || (65 <= u && u <= 90) || (48 <= u && u <= 57) || u == 95
}

/// A name from the input with every character that is neither an ASCII
/// letter, a digit nor an underscore removed.
pub open spec fn spec_sanitize(s: Seq<char>) -> Seq<char>
    decreases s.len(),
{
    if s.len() == 0 {
        Seq::empty()
    } else {
        spec_sanitize(s.drop_last()) + (if spec_is_ident_char(s.last()) {
            seq![s.last()]
        } else {
            Seq::<char>::empty()
        })
    }
}

pub fn sanitize(s: &str) -> (r: String)
    ensures
        r@ == spec_sanitize(s@),
{
    let n = s.unicode_len();
    let mut out = String::new();
    let mut i: usize = 0;
    while i < n
        invariant
            i <= n,
            n == s@.len(),
            out@ == spec_sanitize(s@.subrange(0, i as int)),
        decreases n - i,
    {
        let c = s.get_char(i);
        proof {
            assert(s@.subrange(0, i + 1).drop_last() =~= s@.subrange(0, i as int));
            assert(s@.subrange(0, i + 1).last() == s@[i as int]);
        }
        if is_ident_char(c) {
            push_char(&mut out, c);
        }
        i += 1;
        assert(out@ =~= spec_sanitize(s@.subrange(0, i as int)));
    }
    proof {
        assert(s@.subrange(0, n as int) =~= s@);
    }
    out
}

/// The name a value goes by in the output: its sanitized own name when
/// it has one, else a synthesized `var{k}`.
pub open spec fn spec_resolved_name(name: Seq<char>, k: nat) -> Seq<char> {
    if name.len() > 0 {
        spec_sanitize(name)
    } else {
        "var"@ + spec_udec(k)
    }
}

pub fn resolved_name(name: &str, k: usize) -> (r: String)
    ensures
        r@ == spec_resolved_name(name@, k as nat),
{
    if s_len(name) > 0 {
        sanitize(name)
    } else {
        let mut r = "var".to_owned();
        let d = dec_string_usize(k);
        r.append(d.as_str());
        r
    }
}

/// Character length of a string slice.
pub fn s_len(s: &str) -> (n: usize)
    ensures
        n == s@.len(),
{
    s.unicode_len()
}

/// The items concatenated with `sep` between consecutive ones.
pub open spec fn spec_join(items: Seq<Seq<char>>, sep: Seq<char>) -> Seq<char>
    decreases items.len(),
{
    if items.len() == 0 {
        Seq::empty()
    } else if items.len() == 1 {
        items[0]
    } else {
        spec_join(items.drop_last(), sep) + sep + items.last()
    }
}

pub fn join_strings(items: &Vec<String>, sep: &str) -> (r: String)
    ensures
        r@ == spec_join(items@.map_values(|s: String| s@), sep@),
{
    let n = items.len();
    let mut out = String::new();
    let mut k: usize = 0;
    while k < n
        invariant
            k <= n,
            n == items@.len(),
            out@ == spec_join(items@.map_values(|s: String| s@).subrange(0, k as int), sep@),
        decreases n - k,
    {
        let ghost m = items@.map_values(|s: String| s@);
        proof {
            assert(m.subrange(0, k + 1).drop_last() =~= m.subrange(0, k as int));
            assert(m.subrange(0, k + 1).last() == m[k as int]);
        }
        if k > 0 {
            out.append(sep);
        }
        out.append(items[k].as_str());
        k += 1;
    }
    proof {
        assert(items@.map_values(|s: String| s@).subrange(0, n as int) =~= items@.map_values(
            |s: String| s@,
        ));
    }
    out
}

} // verus!

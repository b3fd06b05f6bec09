//! Rendering helpers: durations as text, HTML entity conversion, and
//! the factorial used by the probability command.

use vstd::prelude::*;

use crate::text::{dec_rep, join_with_seq, join_str, replaced, replace_char, u64_to_string};

verus! {

pub const SECONDS_IN_MINUTE: u64 = 60;

pub const SECONDS_IN_HOUR: u64 = 3600;

pub const SECONDS_IN_DAY: u64 = 86400;

pub const SECONDS_IN_YEAR: u64 = 31536000;

/// The unit suffix for years, in long or short form.
pub open spec fn year_unit(long: bool) -> Seq<char> {
    if long {
        " years"@
    } else {
        "y"@
    }
}

/// The unit suffix for days.
pub open spec fn day_unit(long: bool) -> Seq<char> {
    if long {
        " days"@
    } else {
        "d"@
    }
}

/// The unit suffix for hours.
pub open spec fn hour_unit(long: bool) -> Seq<char> {
    if long {
        " hours"@
    } else {
        "h"@
    }
}

/// The unit suffix for minutes.
pub open spec fn minute_unit(long: bool) -> Seq<char> {
    if long {
        " minutes"@
    } else {
        "m"@
    }
}

/// The unit suffix for seconds.
pub open spec fn second_unit(long: bool) -> Seq<char> {
    if long {
        " seconds"@
    } else {
        "s"@
    }
}

/// The rendered components of a duration: years, days, hours, minutes
/// and seconds, each included only when nonzero, and the three smaller
/// units only while fewer than three components stand already.
pub open spec fn duration_parts(secs: nat, long: bool) -> Seq<Seq<char>> {
    let yrs = secs / (SECONDS_IN_YEAR as nat);
    let dys = (secs % (SECONDS_IN_YEAR as nat)) / (SECONDS_IN_DAY as nat);
    let hrs = (secs % (SECONDS_IN_DAY as nat)) / (SECONDS_IN_HOUR as nat);
    let mns = (secs % (SECONDS_IN_HOUR as nat)) / (SECONDS_IN_MINUTE as nat);
    let scs = secs % (SECONDS_IN_MINUTE as nat);
    let p0 = Seq::<Seq<char>>::empty();
    let p1 = if yrs > 0 {
        p0.push(dec_rep(yrs) + year_unit(long))
    } else {
        p0
    };
    let p2 = if dys > 0 {
        p1.push(dec_rep(dys) + day_unit(long))
    } else {
        p1
    };
    let p3 = if hrs > 0 && p2.len() <= 2 {
        p2.push(dec_rep(hrs) + hour_unit(long))
    } else {
        p2
    };
    let p4 = if mns > 0 && p3.len() <= 2 {
        p3.push(dec_rep(mns) + minute_unit(long))
    } else {
        p3
    };
    if scs > 0 && p4.len() <= 2 {
        p4.push(dec_rep(scs) + second_unit(long))
    } else {
        p4
    }
}

/// The text of a duration: `no time` for zero, otherwise its components
/// separated by commas.
pub open spec fn fmt_duration_spec(secs: nat, long: bool) -> Seq<char> {
    if secs == 0 {
        "no time"@
    } else {
        join_with_seq(duration_parts(secs, long), ", "@)
    }
}

fn push_part(parts: &mut Vec<String>, value: u64, unit: &str)
    ensures
        final(parts).deep_view() == old(parts).deep_view().push(
            dec_rep(value as nat) + unit@,
        ),
{
    let ghost before = parts.deep_view();
    let mut part = u64_to_string(value);
    part.append(unit);
    parts.push(part);
    proof {
        assert(parts.deep_view() =~= before.push(dec_rep(value as nat) + unit@));
    }
}

/// Format a duration, given in seconds, as text.
pub fn fmt_duration(secs: u64, long_format: bool) -> (r: String)
    ensures
        r@ == fmt_duration_spec(secs as nat, long_format),
{
    if secs == 0 {
        return "no time".to_owned();
    }
    let yrs = secs / SECONDS_IN_YEAR;
    let dys = (secs % SECONDS_IN_YEAR) / SECONDS_IN_DAY;
    let hrs = (secs % SECONDS_IN_DAY) / SECONDS_IN_HOUR;
    let mns = (secs % SECONDS_IN_HOUR) / SECONDS_IN_MINUTE;
    let scs = secs % SECONDS_IN_MINUTE;
    let mut parts: Vec<String> = Vec::new();
    proof {
        assert(parts.deep_view() =~= Seq::<Seq<char>>::empty());
    }
    if yrs > 0 {
        push_part(&mut parts, yrs, if long_format { " years" } else { "y" });
    }
    if dys > 0 {
        push_part(&mut parts, dys, if long_format { " days" } else { "d" });
    }
    if hrs > 0 && parts.len() <= 2 {
        push_part(&mut parts, hrs, if long_format { " hours" } else { "h" });
    }
    if mns > 0 && parts.len() <= 2 {
        push_part(&mut parts, mns, if long_format { " minutes" } else { "m" });
    }
    if scs > 0 && parts.len() <= 2 {
        push_part(&mut parts, scs, if long_format { " seconds" } else { "s" });
    }
    proof {
        assert(parts.deep_view() =~= duration_parts(secs as nat, long_format));
    }
    join_str(&parts, ", ")
}

/// The text with a selected set of HTML entities rewritten to the
/// characters they stand for.
pub open spec fn from_html_entities_spec(s: Seq<char>) -> Seq<char> {
    let a = replaced(s, "&nbsp;"@, " "@);
    let b = replaced(a, "&#039;"@, "'"@);
    let c = replaced(b, "&quot;"@, "\""@);
    let d = replaced(c, "&Delta;"@, "d"@);
    let e = replaced(d, "&deg;"@, " degrees"@);
    let f = replaced(e, "&rsquo;"@, "\u{2019}"@);
    let g = replaced(f, "&hellip;"@, "\u{2026}"@);
    let h = replaced(g, "&rdquo;"@, "\u{201D}"@);
    replaced(h, "&pi;"@, "\u{03C0}"@)
}

/// Convert a selected set of HTML entities to the characters they stand
/// for.
pub fn convert_from_html_entities(s: String) -> (r: String)
    ensures
        r@ == from_html_entities_spec(s@),
{
    proof {
        reveal_strlit("&nbsp;");
        reveal_strlit("&#039;");
        reveal_strlit("&quot;");
        reveal_strlit("&Delta;");
        reveal_strlit("&deg;");
        reveal_strlit("&rsquo;");
        reveal_strlit("&hellip;");
        reveal_strlit("&rdquo;");
        reveal_strlit("&pi;");
        assert("&nbsp;"@.len() == 6);
        assert("&#039;"@.len() == 6);
        assert("&quot;"@.len() == 6);
        assert("&Delta;"@.len() == 7);
        assert("&deg;"@.len() == 5);
        assert("&rsquo;"@.len() == 7);
        assert("&hellip;"@.len() == 8);
        assert("&rdquo;"@.len() == 7);
        assert("&pi;"@.len() == 4);
    }
    let a = crate::text::replace_all(s.as_str(), "&nbsp;", " ");
    let b = crate::text::replace_all(a.as_str(), "&#039;", "'");
    let c = crate::text::replace_all(b.as_str(), "&quot;", "\"");
    let d = crate::text::replace_all(c.as_str(), "&Delta;", "d");
    let e = crate::text::replace_all(d.as_str(), "&deg;", " degrees");
    let f = crate::text::replace_all(e.as_str(), "&rsquo;", "\u{2019}");
    let g = crate::text::replace_all(f.as_str(), "&hellip;", "\u{2026}");
    let h = crate::text::replace_all(g.as_str(), "&rdquo;", "\u{201D}");
    crate::text::replace_all(h.as_str(), "&pi;", "\u{03C0}")
}

/// The text with characters that are unsafe in a query string rewritten
/// to percent escapes; the percent sign itself is rewritten first.
pub open spec fn to_html_encoding_spec(s: Seq<char>) -> Seq<char> {
    let c01 = replaced(s, seq!['%'], "%25"@);
    let c02 = replaced(c01, seq![' '], "%20"@);
    let c03 = replaced(c02, seq!['&'], "%26"@);
    let c04 = replaced(c03, seq!['\''], "%27"@);
    let c05 = replaced(c04, seq!['('], "%28"@);
    let c06 = replaced(c05, seq![')'], "%29"@);
    let c07 = replaced(c06, seq!['/'], "%2F"@);
    let c08 = replaced(c07, seq!['*'], "%2A"@);
    let c09 = replaced(c08, seq!['+'], "%2B"@);
    let c10 = replaced(c09, seq![','], "%2C"@);
    let c11 = replaced(c10, seq!['-'], "%2D"@);
    let c12 = replaced(c11, seq!['.'], "%2E"@);
    let c13 = replaced(c12, seq![':'], "%3A"@);
    let c14 = replaced(c13, seq!['<'], "%3C"@);
    let c15 = replaced(c14, seq!['='], "%3D"@);
    let c16 = replaced(c15, seq!['>'], "%3E"@);
    let c17 = replaced(c16, seq!['?'], "%3F"@);
    let c18 = replaced(c17, seq!['@'], "%40"@);
    let c19 = replaced(c18, seq!['['], "%5B"@);
    let c20 = replaced(c19, seq!['\\'], "%5C"@);
    let c21 = replaced(c20, seq![']'], "%5D"@);
    let c22 = replaced(c21, seq!['^'], "%5E"@);
    let c23 = replaced(c22, seq!['_'], "%5F"@);
    let c24 = replaced(c23, seq!['`'], "%60"@);
    let c25 = replaced(c24, seq!['{'], "%7B"@);
    let c26 = replaced(c25, seq!['|'], "%7C"@);
    let c27 = replaced(c26, seq!['}'], "%7D"@);
    let c28 = replaced(c27, seq!['~'], "%7E"@);
    let c29 = replaced(c28, seq!['\u{20AC}'], "%E2%82%AC"@);
    let c30 = replaced(c29, seq!['\u{201A}'], "%E2%80%9A"@);
    let c31 = replaced(c30, seq!['\u{201E}'], "%E2%80%9E"@);
    let c32 = replaced(c31, seq!['\u{02C6}'], "%CB%86"@);
    let c33 = replaced(c32, seq!['\u{2018}'], "%E2%80%98"@);
    let c34 = replaced(c33, seq!['\u{2019}'], "%E2%80%99"@);
    let c35 = replaced(c34, seq!['\u{201C}'], "%E2%80%9C"@);
    replaced(c35, seq!['\u{201D}'], "%E2%80%9D"@)
}

/// Percent-encode characters that are unsafe in a query string.
pub fn convert_to_html_encoding(s: String) -> (r: String)
    ensures
        r@ == to_html_encoding_spec(s@),
{
    let c01 = replace_char(s.as_str(), '%', "%25");
    let c02 = replace_char(c01.as_str(), ' ', "%20");
    let c03 = replace_char(c02.as_str(), '&', "%26");
    let c04 = replace_char(c03.as_str(), '\'', "%27");
    let c05 = replace_char(c04.as_str(), '(', "%28");
    let c06 = replace_char(c05.as_str(), ')', "%29");
    let c07 = replace_char(c06.as_str(), '/', "%2F");
    let c08 = replace_char(c07.as_str(), '*', "%2A");
    let c09 = replace_char(c08.as_str(), '+', "%2B");
    let c10 = replace_char(c09.as_str(), ',', "%2C");
    let c11 = replace_char(c10.as_str(), '-', "%2D");
    let c12 = replace_char(c11.as_str(), '.', "%2E");
    let c13 = replace_char(c12.as_str(), ':', "%3A");
    let c14 = replace_char(c13.as_str(), '<', "%3C");
    let c15 = replace_char(c14.as_str(), '=', "%3D");
    let c16 = replace_char(c15.as_str(), '>', "%3E");
    let c17 = replace_char(c16.as_str(), '?', "%3F");
    let c18 = replace_char(c17.as_str(), '@', "%40");
    let c19 = replace_char(c18.as_str(), '[', "%5B");
    let c20 = replace_char(c19.as_str(), '\\', "%5C");
    let c21 = replace_char(c20.as_str(), ']', "%5D");
    let c22 = replace_char(c21.as_str(), '^', "%5E");
    let c23 = replace_char(c22.as_str(), '_', "%5F");
    let c24 = replace_char(c23.as_str(), '`', "%60");
    let c25 = replace_char(c24.as_str(), '{', "%7B");
    let c26 = replace_char(c25.as_str(), '|', "%7C");
    let c27 = replace_char(c26.as_str(), '}', "%7D");
    let c28 = replace_char(c27.as_str(), '~', "%7E");
    let c29 = replace_char(c28.as_str(), '\u{20AC}', "%E2%82%AC");
    let c30 = replace_char(c29.as_str(), '\u{201A}', "%E2%80%9A");
    let c31 = replace_char(c30.as_str(), '\u{201E}', "%E2%80%9E");
    let c32 = replace_char(c31.as_str(), '\u{02C6}', "%CB%86");
    let c33 = replace_char(c32.as_str(), '\u{2018}', "%E2%80%98");
    let c34 = replace_char(c33.as_str(), '\u{2019}', "%E2%80%99");
    let c35 = replace_char(c34.as_str(), '\u{201C}', "%E2%80%9C");
    replace_char(c35.as_str(), '\u{201D}', "%E2%80%9D")
}

/// The factorial of a natural number.
pub open spec fn factorial_spec(n: nat) -> nat
    decreases n,
{
    if n == 0 {
        1
    } else {
        n * factorial_spec((n - 1) as nat)
    }
}

/// Compute a factorial. The bound keeps the result within the integer
/// type.
pub fn factorial(n: u128) -> (r: u128)
    requires
        n <= 34,
    ensures
        r == factorial_spec(n as nat),
    decreases n,
{
    proof {
        lemma_factorial_monotonic(n as nat, 34);
        lemma_factorial_34_fits();
    }
    if n == 0 || n == 1 {
        proof {
            assert(factorial_spec(1) == 1) by {
                reveal_with_fuel(factorial_spec, 2);
            }
        }
        return 1;
    }
    let rest = factorial(n - 1);
    proof {
        lemma_factorial_fits(n as nat);
    }
    n * rest
}

/// The largest factorial the executable function computes still fits
/// in its integer type.
proof fn lemma_factorial_34_fits()
    ensures
        factorial_spec(34) <= u128::MAX,
{
    assert(factorial_spec(0) == 1) by {
        reveal_with_fuel(factorial_spec, 1);
    }
    assert(factorial_spec(1) == 1) by {
        reveal_with_fuel(factorial_spec, 2);
    }
    assert(factorial_spec(2) == 2) by {
        reveal_with_fuel(factorial_spec, 2);
    }
    assert(factorial_spec(3) == 6) by {
        reveal_with_fuel(factorial_spec, 2);
    }
    assert(factorial_spec(4) == 24) by {
        reveal_with_fuel(factorial_spec, 2);
    }
    assert(factorial_spec(5) == 120) by {
        reveal_with_fuel(factorial_spec, 2);
    }
    assert(factorial_spec(6) == 720) by {
        reveal_with_fuel(factorial_spec, 2);
    }
    assert(factorial_spec(7) == 5040) by {
        reveal_with_fuel(factorial_spec, 2);
    }
    assert(factorial_spec(8) == 40320) by {
        reveal_with_fuel(factorial_spec, 2);
    }
    assert(factorial_spec(9) == 362880) by {
        reveal_with_fuel(factorial_spec, 2);
    }
    assert(factorial_spec(10) == 3628800) by {
        reveal_with_fuel(factorial_spec, 2);
    }
    assert(factorial_spec(11) == 39916800) by {
        reveal_with_fuel(factorial_spec, 2);
    }
    assert(factorial_spec(12) == 479001600) by {
        reveal_with_fuel(factorial_spec, 2);
    }
    assert(factorial_spec(13) == 6227020800) by {
        reveal_with_fuel(factorial_spec, 2);
    }
    assert(factorial_spec(14) == 87178291200) by {
        reveal_with_fuel(factorial_spec, 2);
    }
    assert(factorial_spec(15) == 1307674368000) by {
        reveal_with_fuel(factorial_spec, 2);
    }
    assert(factorial_spec(16) == 20922789888000) by {
        reveal_with_fuel(factorial_spec, 2);
    }
    assert(factorial_spec(17) == 355687428096000) by {
        reveal_with_fuel(factorial_spec, 2);
    }
    assert(factorial_spec(18) == 6402373705728000) by {
        reveal_with_fuel(factorial_spec, 2);
    }
    assert(factorial_spec(19) == 121645100408832000) by {
        reveal_with_fuel(factorial_spec, 2);
    }
    assert(factorial_spec(20) == 2432902008176640000) by {
        reveal_with_fuel(factorial_spec, 2);
    }
    assert(factorial_spec(21) == 51090942171709440000) by {
        reveal_with_fuel(factorial_spec, 2);
    }
    assert(factorial_spec(22) == 1124000727777607680000) by {
        reveal_with_fuel(factorial_spec, 2);
    }
    assert(factorial_spec(23) == 25852016738884976640000) by {
        reveal_with_fuel(factorial_spec, 2);
    }
    assert(factorial_spec(24) == 620448401733239439360000) by {
        reveal_with_fuel(factorial_spec, 2);
    }
    assert(factorial_spec(25) == 15511210043330985984000000) by {
        reveal_with_fuel(factorial_spec, 2);
    }
    assert(factorial_spec(26) == 403291461126605635584000000) by {
        reveal_with_fuel(factorial_spec, 2);
    }
    assert(factorial_spec(27) == 10888869450418352160768000000) by {
        reveal_with_fuel(factorial_spec, 2);
    }
    assert(factorial_spec(28) == 304888344611713860501504000000) by {
        reveal_with_fuel(factorial_spec, 2);
    }
    assert(factorial_spec(29) == 8841761993739701954543616000000) by {
        reveal_with_fuel(factorial_spec, 2);
    }
    assert(factorial_spec(30) == 265252859812191058636308480000000) by {
        reveal_with_fuel(factorial_spec, 2);
    }
    assert(factorial_spec(31) == 8222838654177922817725562880000000) by {
        reveal_with_fuel(factorial_spec, 2);
    }
    assert(factorial_spec(32) == 263130836933693530167218012160000000) by {
        reveal_with_fuel(factorial_spec, 2);
    }
    assert(factorial_spec(33) == 8683317618811886495518194401280000000) by {
        reveal_with_fuel(factorial_spec, 2);
    }
    assert(factorial_spec(34) == 295232799039604140847618609643520000000) by {
        reveal_with_fuel(factorial_spec, 2);
    }
}

/// Factorial grows with its argument.
proof fn lemma_factorial_monotonic(a: nat, b: nat)
    requires
        a <= b,
    ensures
        factorial_spec(a) <= factorial_spec(b),
    decreases b,
{
    if a < b {
        lemma_factorial_monotonic(a, (b - 1) as nat);
        assert(factorial_spec(b) == b * factorial_spec((b - 1) as nat));
        assert(factorial_spec((b - 1) as nat) <= b * factorial_spec((b - 1) as nat))
            by (nonlinear_arith)
            requires
                b >= 1,
                factorial_spec((b - 1) as nat) >= 0,
        ;
    }
}

/// The product computed in the factorial's recursive step equals the
/// factorial itself.
proof fn lemma_factorial_fits(n: nat)
    requires
        n >= 1,
    ensures
        n * factorial_spec((n - 1) as nat) == factorial_spec(n),
{
}

} // verus!

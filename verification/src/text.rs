//! Verified text utilities: equality, substring search, splitting and
//! joining, trimming, and case folding (the latter through the standard
//! library, behind named results).

use vstd::prelude::*;

verus! {

/// Relies on `String::push`: the character is appended at the end.
pub assume_specification[ String::push ](s: &mut String, c: char)
    ensures
        final(s)@ == old(s)@.push(c),
;

/// The sequence of characters that `str::to_lowercase` produces for a
/// given input; the result depends on the characters alone.
pub uninterp spec fn lower_of(s: Seq<char>) -> Seq<char>;

/// The sequence of characters that `str::to_uppercase` produces for a
/// given input; the result depends on the characters alone.
pub uninterp spec fn upper_of(s: Seq<char>) -> Seq<char>;

/// Relies on `str::to_lowercase`: the result is a function of the
/// characters alone, and lowercasing an empty string yields an empty
/// string.
#[verifier::external_body]
pub fn lowercase(s: &str) -> (r: String)
    ensures
        r@ == lower_of(s@),
        s@.len() == 0 ==> r@.len() == 0,
{
    s.to_lowercase()
}

/// Relies on `str::to_uppercase`: the result is a function of the
/// characters alone, and uppercasing an empty string yields an empty
/// string.
#[verifier::external_body]
pub fn uppercase(s: &str) -> (r: String)
    ensures
        r@ == upper_of(s@),
        s@.len() == 0 ==> r@.len() == 0,
{
    s.to_uppercase()
}

/// Case-insensitive equality: two strings are equal once both are
/// lowercased.
pub open spec fn eq_ignore_case(a: Seq<char>, b: Seq<char>) -> bool {
    lower_of(a) == lower_of(b)
}

/// Compare two strings character by character.
pub fn str_eq(a: &str, b: &str) -> (r: bool)
    ensures
        r == (a@ == b@),
{
    let alen = a.unicode_len();
    let blen = b.unicode_len();
    if alen != blen {
        assert(a@.len() != b@.len());
        return false;
    }
    let mut i: usize = 0;
    while i < alen
        invariant
            i <= alen,
            alen == a@.len(),
            alen == b@.len(),
            forall|j: int| 0 <= j < i ==> a@[j] == b@[j],
        decreases alen - i,
    {
        if a.get_char(i) != b.get_char(i) {
            return false;
        }
        i = i + 1;
    }
    proof {
        assert(a@ =~= b@);
    }
    true
}

/// Compare two strings, ignoring case.
pub fn str_eq_ignore_case(a: &str, b: &str) -> (r: bool)
    ensures
        r == eq_ignore_case(a@, b@),
{
    let la = lowercase(a);
    let lb = lowercase(b);
    str_eq(la.as_str(), lb.as_str())
}

/// `needle` occurs in `hay` as a contiguous subsequence.
pub open spec fn has_substr(hay: Seq<char>, needle: Seq<char>) -> bool {
    exists|i: int|
        0 <= i && i + needle.len() <= hay.len() && #[trigger] hay.subrange(i, i + needle.len())
            == needle
}

/// `hay` matches `needle` at offset `i`.
pub fn matches_at(hay: &str, needle: &str, i: usize) -> (r: bool)
    requires
        i + needle@.len() <= hay@.len(),
        hay@.len() <= usize::MAX,
    ensures
        r == (hay@.subrange(i as int, i + needle@.len()) == needle@),
{
    let nlen = needle.unicode_len();
    let mut j: usize = 0;
    while j < nlen
        invariant
            j <= nlen,
            nlen == needle@.len(),
            i + nlen <= hay@.len(),
            forall|k: int| 0 <= k < j ==> hay@[i + k] == needle@[k],
        decreases nlen - j,
    {
        if hay.get_char(i + j) != needle.get_char(j) {
            assert(hay@.subrange(i as int, i + needle@.len())[j as int] == hay@[i + j]);
            return false;
        }
        j = j + 1;
    }
    proof {
        assert(hay@.subrange(i as int, i + needle@.len()) =~= needle@);
    }
    true
}

/// Substring search by scanning every offset.
pub fn contains_substr(hay: &str, needle: &str) -> (r: bool)
    ensures
        r == has_substr(hay@, needle@),
{
    let hlen = hay.unicode_len();
    let nlen = needle.unicode_len();
    if nlen > hlen {
        return false;
    }
    let bound = hlen - nlen;
    let mut i: usize = 0;
    loop
        invariant
            nlen <= hlen,
            hlen == hay@.len(),
            nlen == needle@.len(),
            bound == hlen - nlen,
            i <= bound,
            forall|k: int|
                0 <= k < i ==> #[trigger] hay@.subrange(k, k + needle@.len()) != needle@,
        decreases bound - i,
    {
        if matches_at(hay, needle, i) {
            return true;
        }
        if i == bound {
            return false;
        }
        i = i + 1;
    }
}

/// The string contains the character `c`.
pub fn contains_char(s: &str, c: char) -> (r: bool)
    ensures
        r == s@.contains(c),
{
    let len = s.unicode_len();
    let mut i: usize = 0;
    while i < len
        invariant
            i <= len,
            len == s@.len(),
            forall|j: int| 0 <= j < i ==> s@[j] != c,
        decreases len - i,
    {
        if s.get_char(i) == c {
            return true;
        }
        i = i + 1;
    }
    false
}

/// The parts interleaved with the separator, in order.
pub open spec fn join_with(parts: Seq<Seq<char>>, sep: char) -> Seq<char>
    decreases parts.len(),
{
    if parts.len() == 0 {
        Seq::empty()
    } else if parts.len() == 1 {
        parts[0]
    } else {
        parts[0] + seq![sep] + join_with(parts.drop_first(), sep)
    }
}

/// Join string parts with a single separator character.
pub fn join_char(parts: &Vec<String>, sep: char) -> (r: String)
    ensures
        r@ == join_with(parts.deep_view(), sep),
{
    let mut out = String::new();
    let mut i: usize = 0;
    let n = parts.len();
    proof {
        assert(parts.deep_view().subrange(0, n as int) =~= parts.deep_view());
        assert(Seq::<char>::empty() + join_with(parts.deep_view(), sep) =~= join_with(
            parts.deep_view(),
            sep,
        ));
    }
    while i < n
        invariant
            i <= n,
            n == parts.len(),
            join_with(parts.deep_view(), sep) == out@ + join_with(
                parts.deep_view().subrange(i as int, n as int),
                sep,
            ),
        decreases n - i,
    {
        let ghost out0 = out@;
        let ghost rest = parts.deep_view().subrange(i as int, n as int);
        proof {
            assert(rest[0] == parts.deep_view()[i as int]);
            if i + 1 < n {
                assert(rest.drop_first() =~= parts.deep_view().subrange(i + 1, n as int));
            }
        }
        out.append(parts[i].as_str());
        if i + 1 < n {
            out.push(sep);
            proof {
                let tail = join_with(parts.deep_view().subrange(i + 1, n as int), sep);
                assert(join_with(rest, sep) == rest[0] + seq![sep] + tail);
                assert(out0 + join_with(rest, sep) =~= out@ + tail);
            }
        } else {
            proof {
                assert(rest.len() == 1);
                assert(join_with(rest, sep) == rest[0]);
                assert(parts.deep_view().subrange(i + 1, n as int)
                    =~= Seq::<Seq<char>>::empty());
                assert(out0 + join_with(rest, sep) =~= out@);
                assert(out@ + join_with(parts.deep_view().subrange(i + 1, n as int), sep)
                    =~= out@);
            }
        }
        i = i + 1;
    }
    proof {
        assert(parts.deep_view().subrange(n as int, n as int) =~= Seq::<Seq<char>>::empty());
        assert(out@ + Seq::<char>::empty() =~= out@);
    }
    out
}

/// The parts of the input around each occurrence of the separator: one
/// part more than there are separators, in order, separators removed.
pub open spec fn split_spec(s: Seq<char>, sep: char) -> Seq<Seq<char>>
    decreases s.len(),
{
    if s.len() == 0 {
        seq![Seq::<char>::empty()]
    } else if s[0] == sep {
        seq![Seq::<char>::empty()] + split_spec(s.drop_first(), sep)
    } else {
        let rest = split_spec(s.drop_first(), sep);
        seq![seq![s[0]] + rest[0]] + rest.drop_first()
    }
}

/// Splitting yields at least one part.
pub proof fn lemma_split_len(s: Seq<char>, sep: char)
    ensures
        split_spec(s, sep).len() >= 1,
    decreases s.len(),
{
    if s.len() > 0 {
        lemma_split_len(s.drop_first(), sep);
    }
}

/// Prefix a string onto the first part of a part list.
spec fn prepend_first(p: Seq<char>, parts: Seq<Seq<char>>) -> Seq<Seq<char>> {
    seq![p + parts[0]] + parts.drop_first()
}

/// Split a string on a separator character.
pub fn split_char(s: &str, sep: char) -> (r: Vec<String>)
    ensures
        r.deep_view() == split_spec(s@, sep),
        r.len() >= 1,
{
    let len = s.unicode_len();
    let mut done: Vec<String> = Vec::new();
    let mut cur = String::new();
    let mut i: usize = 0;
    proof {
        assert(s@.skip(0) =~= s@);
    }
    while i < len
        invariant
            i <= len,
            split_spec(s@, sep) == done.deep_view() + prepend_first(
                cur@,
                split_spec(s@.skip(i as int), sep),
            ),
        decreases len - i,
    {
        let ghost rest = s@.skip(i as int);
        let ghost dv = done.deep_view();
        let ghost cv = cur@;
        let x = s.get_char(i);
        proof {
            assert(rest[0] == s@[i as int]);
            assert(rest.drop_first() =~= s@.skip(i + 1));
            lemma_split_len(s@.skip(i + 1), sep);
        }
        if x == sep {
            done.push(cur);
            cur = String::new();
            proof {
                assert(done.deep_view() =~= dv.push(cv));
                let q = split_spec(s@.skip(i + 1), sep);
                assert(split_spec(rest, sep) == seq![Seq::<char>::empty()] + q);
                assert(cv + split_spec(rest, sep)[0] =~= cv);
                assert(prepend_first(cv, split_spec(rest, sep)) =~= seq![cv] + (seq![
                    Seq::<char>::empty() + q[0]] + q.drop_first()));
                assert(Seq::<char>::empty() + q[0] =~= q[0]);
                assert(seq![Seq::<char>::empty() + q[0]] + q.drop_first() =~= prepend_first(
                    Seq::<char>::empty(),
                    q,
                ));
                assert(dv + prepend_first(cv, split_spec(rest, sep)) =~= done.deep_view()
                    + prepend_first(cur@, q));
            }
        } else {
            cur.push(x);
            proof {
                let q = split_spec(s@.skip(i + 1), sep);
                assert(split_spec(rest, sep) == seq![seq![rest[0]] + q[0]] + q.drop_first());
                assert(cv + (seq![x] + q[0]) =~= cv.push(x) + q[0]);
                assert(prepend_first(cv, split_spec(rest, sep)) =~= prepend_first(cv.push(x), q));
            }
        }
        i = i + 1;
    }
    let ghost dv = done.deep_view();
    let ghost cv = cur@;
    proof {
        assert(s@.skip(len as int) =~= Seq::<char>::empty());
        assert(prepend_first(cv, split_spec(Seq::<char>::empty(), sep)) =~= seq![cv]);
    }
    done.push(cur);
    proof {
        assert(done.deep_view() =~= dv.push(cv));
        assert(dv + seq![cv] =~= dv.push(cv));
    }
    done
}

/// The parts interleaved with a separator string, in order.
pub open spec fn join_with_seq(parts: Seq<Seq<char>>, sep: Seq<char>) -> Seq<char>
    decreases parts.len(),
{
    if parts.len() == 0 {
        Seq::empty()
    } else if parts.len() == 1 {
        parts[0]
    } else {
        parts[0] + sep + join_with_seq(parts.drop_first(), sep)
    }
}

/// Join string parts with a separator string.
pub fn join_str(parts: &Vec<String>, sep: &str) -> (r: String)
    ensures
        r@ == join_with_seq(parts.deep_view(), sep@),
{
    let mut out = String::new();
    let mut i: usize = 0;
    let n = parts.len();
    proof {
        assert(parts.deep_view().subrange(0, n as int) =~= parts.deep_view());
        assert(Seq::<char>::empty() + join_with_seq(parts.deep_view(), sep@) =~= join_with_seq(
            parts.deep_view(),
            sep@,
        ));
    }
    while i < n
        invariant
            i <= n,
            join_with_seq(parts.deep_view(), sep@) == out@ + join_with_seq(
                parts.deep_view().subrange(i as int, n as int),
                sep@,
            ),
        decreases n - i,
    {
        let ghost out0 = out@;
        let ghost rest = parts.deep_view().subrange(i as int, n as int);
        proof {
            assert(rest[0] == parts.deep_view()[i as int]);
            if i + 1 < n {
                assert(rest.drop_first() =~= parts.deep_view().subrange(i + 1, n as int));
            }
        }
        out.append(parts[i].as_str());
        if i + 1 < n {
            out.append(sep);
            proof {
                let tail = join_with_seq(parts.deep_view().subrange(i + 1, n as int), sep@);
                assert(join_with_seq(rest, sep@) == rest[0] + sep@ + tail);
                assert(out0 + join_with_seq(rest, sep@) =~= out@ + tail);
            }
        } else {
            proof {
                assert(rest.len() == 1);
                assert(join_with_seq(rest, sep@) == rest[0]);
                assert(parts.deep_view().subrange(i + 1, n as int)
                    =~= Seq::<Seq<char>>::empty());
                assert(out0 + join_with_seq(rest, sep@) =~= out@);
                assert(out@ + join_with_seq(parts.deep_view().subrange(i + 1, n as int), sep@)
                    =~= out@);
            }
        }
        i = i + 1;
    }
    proof {
        assert(parts.deep_view().subrange(n as int, n as int) =~= Seq::<Seq<char>>::empty());
        assert(out@ + Seq::<char>::empty() =~= out@);
    }
    out
}

/// Appending a character to the last part appends it to a join with a
/// string separator.
proof fn lemma_join_seq_last_push(ps: Seq<Seq<char>>, q: Seq<char>, x: char, sep: Seq<char>)
    ensures
        join_with_seq(ps.push(q.push(x)), sep) == join_with_seq(ps.push(q), sep).push(x),
    decreases ps.len(),
{
    if ps.len() == 0 {
        assert(ps.push(q.push(x))[0] == q.push(x));
        assert(ps.push(q)[0] == q);
        assert(join_with_seq(ps.push(q.push(x)), sep) =~= join_with_seq(ps.push(q), sep).push(x));
    } else {
        lemma_join_seq_last_push(ps.drop_first(), q, x, sep);
        assert(ps.push(q.push(x)).drop_first() =~= ps.drop_first().push(q.push(x)));
        assert(ps.push(q).drop_first() =~= ps.drop_first().push(q));
        assert(join_with_seq(ps.push(q.push(x)), sep) =~= join_with_seq(ps.push(q), sep).push(x));
    }
}

/// Pushing a new part appends the separator and the part to a join with
/// a string separator.
proof fn lemma_join_seq_push(ps: Seq<Seq<char>>, q: Seq<char>, sep: Seq<char>)
    requires
        ps.len() > 0,
    ensures
        join_with_seq(ps.push(q), sep) == join_with_seq(ps, sep) + sep + q,
    decreases ps.len(),
{
    if ps.len() == 1 {
        assert(ps.push(q).drop_first() =~= seq![q]);
        assert(join_with_seq(seq![q], sep) == q);
        assert(join_with_seq(ps.push(q), sep) =~= join_with_seq(ps, sep) + sep + q);
    } else {
        lemma_join_seq_push(ps.drop_first(), q, sep);
        assert(ps.push(q).drop_first() =~= ps.drop_first().push(q));
        assert(join_with_seq(ps.push(q), sep) =~= join_with_seq(ps, sep) + sep + q);
    }
}

/// Split a string on a separator string, scanning left to right. The
/// parts joined back with the separator give the input.
pub fn split_str(s: &str, sep: &str) -> (r: Vec<String>)
    requires
        sep@.len() > 0,
    ensures
        r.len() >= 1,
        join_with_seq(r.deep_view(), sep@) == s@,
{
    let len = s.unicode_len();
    let plen = sep.unicode_len();
    let mut done: Vec<String> = Vec::new();
    let mut cur = String::new();
    let mut i: usize = 0;
    proof {
        assert(done.deep_view().push(cur@) =~= seq![cur@]);
        assert(s@.subrange(0, 0) =~= Seq::<char>::empty());
    }
    while i < len
        invariant
            i <= len,
            len == s@.len(),
            plen == sep@.len(),
            plen > 0,
            join_with_seq(done.deep_view().push(cur@), sep@) == s@.subrange(0, i as int),
        decreases len - i,
    {
        let ghost pre = s@.subrange(0, i as int);
        let ghost dv = done.deep_view();
        let ghost cv = cur@;
        if plen <= len - i && matches_at(s, sep, i) {
            proof {
                lemma_join_seq_push(dv.push(cv), Seq::<char>::empty(), sep@);
                assert(s@.subrange(0, i + plen) =~= pre + s@.subrange(i as int, i + plen));
            }
            done.push(cur);
            cur = String::new();
            proof {
                assert(done.deep_view() =~= dv.push(cv));
                assert(done.deep_view().push(cur@) =~= dv.push(cv).push(Seq::<char>::empty()));
                assert(join_with_seq(done.deep_view().push(cur@), sep@) =~= s@.subrange(
                    0,
                    i + plen,
                ));
            }
            i = i + plen;
        } else {
            let x = s.get_char(i);
            proof {
                assert(s@.subrange(0, i + 1) =~= pre.push(x));
                lemma_join_seq_last_push(dv, cv, x, sep@);
            }
            cur.push(x);
            proof {
                assert(done.deep_view().push(cur@) =~= dv.push(cv.push(x)));
            }
            i = i + 1;
        }
    }
    let ghost dv = done.deep_view();
    let ghost cv = cur@;
    proof {
        assert(s@.subrange(0, len as int) =~= s@);
    }
    done.push(cur);
    proof {
        assert(done.deep_view() =~= dv.push(cv));
    }
    done
}

/// Replace every occurrence of the character `c` in `s` by `to`.
pub fn replace_char(s: &str, c: char, to: &str) -> (r: String)
    ensures
        r@ == replaced(s@, seq![c], to@),
{
    let len = s.unicode_len();
    let mut out = String::new();
    let mut i: usize = 0;
    proof {
        assert(s@.skip(0) =~= s@);
        assert(Seq::<char>::empty() + replaced(s@, seq![c], to@) =~= replaced(s@, seq![c], to@));
    }
    while i < len
        invariant
            i <= len,
            replaced(s@, seq![c], to@) == out@ + replaced(s@.skip(i as int), seq![c], to@),
        decreases len - i,
    {
        let ghost rest = s@.skip(i as int);
        let x = s.get_char(i);
        proof {
            assert(rest[0] == s@[i as int]);
            assert(rest.drop_first() =~= s@.skip(i + 1));
            assert(rest.subrange(0, 1) =~= seq![rest[0]]);
            assert(seq![rest[0]][0] == rest[0]);
            assert(seq![c][0] == c);
        }
        if x == c {
            proof {
                assert(rest.subrange(0, 1) == seq![c]);
                assert(rest.skip(1) =~= s@.skip(i + 1));
            }
            out.append(to);
        } else {
            proof {
                assert(rest.subrange(0, 1) != seq![c]);
                assert(seq![rest[0]] + replaced(rest.drop_first(), seq![c], to@) == replaced(
                    rest,
                    seq![c],
                    to@,
                ));
            }
            out.push(x);
        }
        i = i + 1;
    }
    proof {
        assert(s@.skip(len as int) =~= Seq::<char>::empty());
        assert(out@ + replaced(s@.skip(len as int), seq![c], to@) =~= out@);
    }
    out
}

/// The string starts with the given prefix.
pub open spec fn has_prefix(s: Seq<char>, p: Seq<char>) -> bool {
    p.len() <= s.len() && s.subrange(0, p.len() as int) == p
}

/// Test whether `s` starts with `p`.
pub fn starts_with(s: &str, p: &str) -> (r: bool)
    ensures
        r == has_prefix(s@, p@),
{
    let slen = s.unicode_len();
    let plen = p.unicode_len();
    if plen > slen {
        return false;
    }
    matches_at(s, p, 0)
}

/// The input without leading spaces.
pub open spec fn trim_left_spec(s: Seq<char>) -> Seq<char>
    decreases s.len(),
{
    if s.len() > 0 && s[0] == ' ' {
        trim_left_spec(s.drop_first())
    } else {
        s
    }
}

/// The input without trailing spaces.
pub open spec fn trim_right_spec(s: Seq<char>) -> Seq<char>
    decreases s.len(),
{
    if s.len() > 0 && s.last() == ' ' {
        trim_right_spec(s.drop_last())
    } else {
        s
    }
}

/// The input without leading and trailing spaces.
pub open spec fn trim_spec(s: Seq<char>) -> Seq<char> {
    trim_right_spec(trim_left_spec(s))
}

proof fn lemma_trim_left_range(s: Seq<char>, a: int)
    requires
        0 <= a <= s.len(),
        forall|j: int| 0 <= j < a ==> s[j] == ' ',
        a < s.len() ==> s[a] != ' ',
    ensures
        trim_left_spec(s) == s.subrange(a, s.len() as int),
    decreases a,
{
    if a == 0 {
        if s.len() > 0 && s[0] == ' ' {
            assert(false);
        }
        assert(s.subrange(0, s.len() as int) =~= s);
    } else {
        assert(s[0] == ' ');
        lemma_trim_left_range(s.drop_first(), a - 1);
        assert(s.drop_first().subrange(a - 1, s.drop_first().len() as int) =~= s.subrange(
            a,
            s.len() as int,
        ));
    }
}

proof fn lemma_trim_right_range(s: Seq<char>, b: int)
    requires
        0 <= b <= s.len(),
        forall|j: int| b <= j < s.len() ==> s[j] == ' ',
        b > 0 ==> s[b - 1] != ' ',
    ensures
        trim_right_spec(s) == s.subrange(0, b),
    decreases s.len() - b,
{
    if b == s.len() {
        if s.len() > 0 && s.last() == ' ' {
            assert(false);
        }
        assert(s.subrange(0, s.len() as int) =~= s);
    } else {
        assert(s.last() == ' ');
        lemma_trim_right_range(s.drop_last(), b);
        assert(s.drop_last().subrange(0, b) =~= s.subrange(0, b));
    }
}

/// Remove leading and trailing spaces.
pub fn trim_spaces(s: &str) -> (r: String)
    ensures
        r@ == trim_spec(s@),
{
    let len = s.unicode_len();
    let mut a: usize = 0;
    while a < len && s.get_char(a) == ' '
        invariant
            a <= len,
            forall|j: int| 0 <= j < a ==> s@[j] == ' ',
        decreases len - a,
    {
        a = a + 1;
    }
    proof {
        lemma_trim_left_range(s@, a as int);
    }
    let ghost t = s@.subrange(a as int, len as int);
    let mut b: usize = len;
    while b > a && s.get_char(b - 1) == ' '
        invariant
            a <= b <= len,
            forall|j: int| b <= j < len ==> s@[j] == ' ',
        decreases b,
    {
        b = b - 1;
    }
    proof {
        assert(forall|j: int| (b - a) <= j < t.len() ==> t[j] == s@[j + a] && t[j] == ' ');
        lemma_trim_right_range(t, b - a);
        assert(t.subrange(0, b - a) =~= s@.subrange(a as int, b as int));
    }
    let r = s.substring_char(a, b);
    r.to_owned()
}

/// The decimal digit character for a value below ten.
pub open spec fn dec_digit(n: nat) -> char {
    if n == 0 {
        '0'
    } else if n == 1 {
        '1'
    } else if n == 2 {
        '2'
    } else if n == 3 {
        '3'
    } else if n == 4 {
        '4'
    } else if n == 5 {
        '5'
    } else if n == 6 {
        '6'
    } else if n == 7 {
        '7'
    } else if n == 8 {
        '8'
    } else {
        '9'
    }
}

/// The decimal representation of a natural number, most significant
/// digit first, with no leading zeros (a single zero for zero).
pub open spec fn dec_rep(n: nat) -> Seq<char>
    decreases n,
{
    if n < 10 {
        seq![dec_digit(n)]
    } else {
        dec_rep(n / 10).push(dec_digit(n % 10))
    }
}

fn dec_digit_char(n: u64) -> (c: char)
    requires
        n < 10,
    ensures
        c == dec_digit(n as nat),
{
    if n == 0 {
        '0'
    } else if n == 1 {
        '1'
    } else if n == 2 {
        '2'
    } else if n == 3 {
        '3'
    } else if n == 4 {
        '4'
    } else if n == 5 {
        '5'
    } else if n == 6 {
        '6'
    } else if n == 7 {
        '7'
    } else if n == 8 {
        '8'
    } else {
        '9'
    }
}

/// Format a number in decimal.
pub fn u64_to_string(n: u64) -> (r: String)
    ensures
        r@ == dec_rep(n as nat),
    decreases n,
{
    if n < 10 {
        let mut r = String::new();
        r.push(dec_digit_char(n));
        proof {
            assert(r@ =~= seq![dec_digit(n as nat)]);
        }
        r
    } else {
        let mut r = u64_to_string(n / 10);
        r.push(dec_digit_char(n % 10));
        r
    }
}

/// The decimal representation of a signed number: a minus sign for
/// negative values, then the digits of the magnitude.
pub open spec fn dec_rep_signed(n: int) -> Seq<char> {
    if n < 0 {
        seq!['-'] + dec_rep((-n) as nat)
    } else {
        dec_rep(n as nat)
    }
}

/// Format a signed number in decimal.
pub fn i64_to_string(n: i64) -> (r: String)
    ensures
        r@ == dec_rep_signed(n as int),
{
    if n < 0 {
        let m: u64 = (-(n as i128)) as u64;
        let mut r = String::new();
        r.push('-');
        let digits = u64_to_string(m);
        r.append(digits.as_str());
        proof {
            assert(r@ =~= seq!['-'] + dec_rep(m as nat));
        }
        r
    } else {
        u64_to_string(n as u64)
    }
}

/// The character is a decimal digit.
pub open spec fn is_dec_digit(c: char) -> bool {
    48 <= c as u32 <= 57
}

/// The numeric value of a digit character.
pub open spec fn digit_val(c: char) -> nat {
    (c as u32 - 48) as nat
}

/// The value of a digit string read in base ten.
pub open spec fn digits_val(s: Seq<char>) -> nat
    decreases s.len(),
{
    if s.len() == 0 {
        0
    } else {
        digits_val(s.drop_last()) * 10 + digit_val(s.last())
    }
}

proof fn lemma_digits_val_prefix_le(s: Seq<char>, i: int)
    requires
        0 <= i <= s.len(),
    ensures
        digits_val(s.subrange(0, i)) <= digits_val(s),
    decreases s.len() - i,
{
    if i == s.len() {
        assert(s.subrange(0, i) =~= s);
    } else {
        lemma_digits_val_prefix_le(s, i + 1);
        let t = s.subrange(0, i + 1);
        assert(t.drop_last() =~= s.subrange(0, i));
        assert(digits_val(s.subrange(0, i)) <= digits_val(t));
    }
}

/// Parse a decimal number. Returns the value exactly when the string is
/// a nonempty run of digits whose value fits in the result type.
pub fn parse_u64(s: &str) -> (r: Option<u64>)
    ensures
        r is Some <==> (s@.len() > 0 && (forall|j: int| 0 <= j < s@.len() ==> is_dec_digit(
            #[trigger] s@[j],
        )) && digits_val(s@) <= u64::MAX),
        r is Some ==> r->0 == digits_val(s@),
{
    let len = s.unicode_len();
    if len == 0 {
        return None;
    }
    let mut acc: u64 = 0;
    let mut i: usize = 0;
    while i < len
        invariant
            i <= len,
            forall|j: int| 0 <= j < i ==> is_dec_digit(#[trigger] s@[j]),
            acc == digits_val(s@.subrange(0, i as int)),
        decreases len - i,
    {
        let c = s.get_char(i);
        let cv = c as u32;
        if cv < 48 || cv > 57 {
            return None;
        }
        let d: u64 = (cv - 48) as u64;
        proof {
            assert(s@.subrange(0, i + 1).drop_last() =~= s@.subrange(0, i as int));
        }
        if acc > (u64::MAX - d) / 10 {
            proof {
                lemma_digits_val_prefix_le(s@, i + 1);
            }
            return None;
        }
        acc = acc * 10 + d;
        i = i + 1;
    }
    proof {
        assert(s@.subrange(0, len as int) =~= s@);
    }
    Some(acc)
}

/// The signed value a decimal string denotes: an optional minus sign,
/// then a nonempty run of digits whose value fits in a signed 64-bit
/// integer.
pub open spec fn parse_int_spec(s: Seq<char>) -> Option<int> {
    if s.len() > 0 && s[0] == '-' {
        let d = s.drop_first();
        if d.len() > 0 && (forall|j: int| 0 <= j < d.len() ==> is_dec_digit(#[trigger] d[j]))
            && digits_val(d) <= 0x8000_0000_0000_0000 {
            Some(-(digits_val(d) as int))
        } else {
            None
        }
    } else if s.len() > 0 && (forall|j: int| 0 <= j < s.len() ==> is_dec_digit(#[trigger] s[j]))
        && digits_val(s) <= i64::MAX {
        Some(digits_val(s) as int)
    } else {
        None
    }
}

/// Parse a signed decimal number.
pub fn parse_i64(s: &str) -> (r: Option<i64>)
    ensures
        match r {
            Some(v) => parse_int_spec(s@) == Some(v as int),
            None => parse_int_spec(s@) is None,
        },
{
    let len = s.unicode_len();
    if len == 0 {
        return None;
    }
    if s.get_char(0) == '-' {
        let rest = s.substring_char(1, len);
        proof {
            assert(rest@ =~= s@.drop_first());
        }
        match parse_u64(rest) {
            Some(v) => {
                if v <= 0x8000_0000_0000_0000 {
                    let wide: i128 = -(v as i128);
                    Some(wide as i64)
                } else {
                    None
                }
            },
            None => None,
        }
    } else {
        match parse_u64(s) {
            Some(v) => {
                if v <= i64::MAX as u64 {
                    Some(v as i64)
                } else {
                    None
                }
            },
            None => None,
        }
    }
}

/// The input with every occurrence of `pat` replaced by `to`, scanning
/// left to right.
pub open spec fn replaced(s: Seq<char>, pat: Seq<char>, to: Seq<char>) -> Seq<char>
    decreases s.len(),
    when pat.len() > 0
{
    if s.len() < pat.len() {
        s
    } else if s.subrange(0, pat.len() as int) == pat {
        to + replaced(s.skip(pat.len() as int), pat, to)
    } else {
        seq![s[0]] + replaced(s.drop_first(), pat, to)
    }
}

/// Replace every occurrence of `pat` in `s` by `to`.
pub fn replace_all(s: &str, pat: &str, to: &str) -> (r: String)
    requires
        pat@.len() > 0,
    ensures
        r@ == replaced(s@, pat@, to@),
{
    let len = s.unicode_len();
    let plen = pat.unicode_len();
    let mut out = String::new();
    let mut i: usize = 0;
    proof {
        assert(s@.skip(0) =~= s@);
        assert(Seq::<char>::empty() + replaced(s@, pat@, to@) =~= replaced(s@, pat@, to@));
    }
    while i < len
        invariant
            i <= len,
            replaced(s@, pat@, to@) == out@ + replaced(s@.skip(i as int), pat@, to@),
        decreases len - i,
    {
        let ghost rest = s@.skip(i as int);
        if plen <= len - i && matches_at(s, pat, i) {
            proof {
                assert(rest.subrange(0, pat@.len() as int) =~= s@.subrange(
                    i as int,
                    i + pat@.len(),
                ));
                assert(rest.skip(pat@.len() as int) =~= s@.skip(i + plen));
            }
            out.append(to);
            i = i + plen;
        } else {
            proof {
                if rest.len() >= pat@.len() {
                    assert(rest.subrange(0, pat@.len() as int) =~= s@.subrange(
                        i as int,
                        i + pat@.len(),
                    ));
                    assert(s@.subrange(i as int, i + pat@.len()) != pat@);
                }
                assert(rest[0] == s@[i as int]);
                assert(rest.drop_first() =~= s@.skip(i + 1));
            }
            out.push(s.get_char(i));
            i = i + 1;
        }
        assert(replaced(s@, pat@, to@) == out@ + replaced(s@.skip(i as int), pat@, to@));
    }
    proof {
        assert(s@.skip(len as int) =~= Seq::<char>::empty());
        assert(out@ + replaced(s@.skip(len as int), pat@, to@) =~= out@);
    }
    out
}

} // verus!

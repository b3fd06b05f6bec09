//! Argument parsing helpers shared by the command handlers.

use vstd::prelude::*;

use crate::text::{digits_val, is_dec_digit, join_char, join_with, parse_u64};
use crate::types::MyError;

verus! {

/// The least offset at which `pat` occurs in `s`, if any.
pub open spec fn find_first(s: Seq<char>, pat: Seq<char>) -> Option<int>
    decreases s.len(),
{
    if pat.len() > s.len() {
        None
    } else if s.len() == 0 {
        Some(0)
    } else if s.subrange(0, pat.len() as int) == pat {
        Some(0)
    } else {
        match find_first(s.drop_first(), pat) {
            Some(i) => Some(i + 1),
            None => None,
        }
    }
}

/// An offset that matches, with none matching before it, is the least
/// matching offset.
proof fn lemma_find_first_at(s: Seq<char>, pat: Seq<char>, i: int)
    requires
        0 <= i,
        i + pat.len() <= s.len(),
        s.subrange(i, i + pat.len()) == pat,
        forall|k: int| 0 <= k < i ==> #[trigger] s.subrange(k, k + pat.len()) != pat,
    ensures
        find_first(s, pat) == Some(i),
    decreases i,
{
    if i == 0 {
        if s.len() > 0 {
            assert(s.subrange(0, pat.len() as int) == pat);
        }
    } else {
        assert(s.len() > 0);
        assert(s.subrange(0, pat.len() as int) != pat) by {
            let z: int = 0;
            assert(s.subrange(z, z + pat.len()) != pat);
            assert(s.subrange(z, z + pat.len()) == s.subrange(0, pat.len() as int));
        }
        let t = s.drop_first();
        assert forall|k: int| 0 <= k < i - 1 implies #[trigger] t.subrange(k, k + pat.len())
            != pat by {
            assert(t.subrange(k, k + pat.len()) =~= s.subrange(k + 1, k + 1 + pat.len()));
        }
        assert(t.subrange(i - 1, i - 1 + pat.len()) =~= s.subrange(i, i + pat.len()));
        lemma_find_first_at(t, pat, i - 1);
    }
}

/// A successful search returns a matching offset within bounds.
pub proof fn lemma_find_first_props(s: Seq<char>, pat: Seq<char>)
    ensures
        match find_first(s, pat) {
            Some(i) => 0 <= i && i + pat.len() <= s.len() && s.subrange(i, i + pat.len()) == pat,
            None => true,
        },
    decreases s.len(),
{
    if pat.len() > s.len() {
    } else if s.len() == 0 {
        assert(s.subrange(0, 0) =~= pat);
    } else if s.subrange(0, pat.len() as int) == pat {
    } else {
        lemma_find_first_props(s.drop_first(), pat);
        if let Some(i) = find_first(s.drop_first(), pat) {
            assert(s.drop_first().subrange(i, i + pat.len()) =~= s.subrange(
                i + 1,
                i + 1 + pat.len(),
            ));
        }
    }
}

proof fn lemma_find_first_none(s: Seq<char>, pat: Seq<char>)
    requires
        pat.len() > 0,
        forall|k: int|
            0 <= k && k + pat.len() <= s.len() ==> #[trigger] s.subrange(k, k + pat.len()) != pat,
    ensures
        find_first(s, pat) is None,
    decreases s.len(),
{
    if pat.len() <= s.len() {
        assert(s.len() > 0);
        assert(s.subrange(0, pat.len() as int) != pat) by {
            let z: int = 0;
            assert(s.subrange(z, z + pat.len()) != pat);
            assert(s.subrange(z, z + pat.len()) == s.subrange(0, pat.len() as int));
        }
        let t = s.drop_first();
        assert forall|k: int| 0 <= k && k + pat.len() <= t.len() implies #[trigger] t.subrange(
            k,
            k + pat.len(),
        ) != pat by {
            assert(t.subrange(k, k + pat.len()) =~= s.subrange(k + 1, k + 1 + pat.len()));
        }
        lemma_find_first_none(t, pat);
    }
}

/// Find the least offset at which `pat` occurs in `s`.
pub fn find_substr(s: &str, pat: &str) -> (r: Option<usize>)
    ensures
        match r {
            Some(i) => find_first(s@, pat@) == Some(i as int),
            None => find_first(s@, pat@) is None,
        },
{
    let slen = s.unicode_len();
    let plen = pat.unicode_len();
    if plen == 0 {
        proof {
            if s@.len() > 0 {
                assert(s@.subrange(0, 0) =~= pat@);
            } else {
                assert(s@.subrange(0, 0) =~= pat@);
            }
        }
        return Some(0);
    }
    if plen > slen {
        proof {
            lemma_find_first_none(s@, pat@);
        }
        return None;
    }
    let bound = slen - plen;
    let mut i: usize = 0;
    loop
        invariant
            i <= bound,
            forall|k: int| 0 <= k < i ==> #[trigger] s@.subrange(k, k + pat@.len()) != pat@,
        decreases bound - i,
    {
        if crate::text::matches_at(s, pat, i) {
            proof {
                lemma_find_first_at(s@, pat@, i as int);
            }
            return Some(i);
        }
        if i == bound {
            proof {
                lemma_find_first_none(s@, pat@);
            }
            return None;
        }
        i = i + 1;
    }
}

/// Find the least offset of a single character.
pub fn find_char(s: &str, c: char) -> (r: Option<usize>)
    ensures
        match r {
            Some(i) => find_first(s@, seq![c]) == Some(i as int),
            None => find_first(s@, seq![c]) is None,
        },
{
    let len = s.unicode_len();
    let mut i: usize = 0;
    while i < len
        invariant
            i <= len,
            forall|k: int| 0 <= k < i ==> #[trigger] s@.subrange(k, k + 1) != seq![c],
        decreases len - i,
    {
        if s.get_char(i) == c {
            proof {
                assert(s@.subrange(i as int, i + 1) =~= seq![c]);
                lemma_find_first_at(s@, seq![c], i as int);
            }
            return Some(i);
        }
        proof {
            assert(s@.subrange(i as int, i + 1) =~= seq![s@[i as int]]);
            assert(seq![s@[i as int]][0] == s@[i as int]);
            assert(seq![c][0] == c);
            assert(s@.subrange(i as int, i + 1) != seq![c]);
        }
        i = i + 1;
    }
    proof {
        lemma_find_first_none(s@, seq![c]);
    }
    None
}

/// The value that `parse_by_ident` extracts from the joined argument
/// text: the characters between `ident="` and the next quote that
/// follows at least one value character.
pub open spec fn parse_by_ident_spec(joined: Seq<char>, ident: Seq<char>) -> Option<Seq<char>> {
    let pat = ident + "=\""@;
    match find_first(joined, pat) {
        None => None,
        Some(i) => {
            let from = i + ident.len() + 3;
            if from > joined.len() {
                None
            } else {
                match find_first(joined.skip(from), seq!['"']) {
                    None => None,
                    Some(e) => Some(joined.subrange(i + ident.len() + 2, from + e)),
                }
            }
        },
    }
}

/// Get a named argument out of a list of tokens: the tokens are joined
/// with spaces and the text between `ident="` and the closing quote is
/// returned.
pub fn parse_by_ident(vs: &[String], ident: &str) -> (r: Option<String>)
    ensures
        match r {
            Some(v) => parse_by_ident_spec(join_with(vs.deep_view(), ' '), ident@) == Some(v@),
            None => parse_by_ident_spec(join_with(vs.deep_view(), ' '), ident@) is None,
        },
{
    let mut vv: Vec<String> = Vec::new();
    let n = vs.len();
    let mut i: usize = 0;
    while i < n
        invariant
            i <= n,
            vv.deep_view() == vs.deep_view().subrange(0, i as int),
        decreases n - i,
    {
        vv.push(vs[i].clone());
        proof {
            assert(vv.deep_view() =~= vs.deep_view().subrange(0, i + 1));
        }
        i = i + 1;
    }
    proof {
        assert(vv.deep_view() =~= vs.deep_view());
    }
    let s = join_char(&vv, ' ');
    let mut pat = ident.to_owned();
    pat.append("=\"");
    let ilen = ident.unicode_len();
    let slen = s.as_str().unicode_len();
    match find_substr(s.as_str(), pat.as_str()) {
        None => None,
        Some(idx) => {
            proof {
                reveal_strlit("=\"");
                assert(pat@.len() == ident@.len() + 2);
                lemma_find_first_props(s@, pat@);
            }
            let avail = slen - idx;
            if avail == ilen + 2 {
                return None;
            }
            let from = idx + ilen + 3;
            let rest = s.as_str().substring_char(from, slen);
            match find_char(rest, '"') {
                None => None,
                Some(e) => {
                    proof {
                        assert(rest@ =~= s@.skip(from as int));
                        lemma_find_first_props(rest@, seq!['"']);
                    }
                    let v = s.as_str().substring_char(idx + ilen + 2, from + e);
                    Some(v.to_owned())
                },
            }
        },
    }
}

/// The hour and minute fields of a duration argument of the shape
/// `(XhYm)`: the digits between `(` and `h`, and between `,` and `m`.
pub open spec fn duration_hm_spec(s: Seq<char>) -> Option<(int, int)> {
    match (find_first(s, seq!['(']), find_first(s, seq!['h']), find_first(s, seq![',']),
    find_first(s, seq!['m'])) {
        (Some(o), Some(h), Some(c), Some(m)) => {
            if o + 1 <= h && c + 1 <= m {
                let hs = s.subrange(o + 1, h);
                let ms = s.subrange(c + 1, m);
                if hs.len() > 0 && (forall|j: int| 0 <= j < hs.len() ==> is_dec_digit(
                    #[trigger] hs[j],
                )) && digits_val(hs) <= u64::MAX && ms.len() > 0 && (forall|j: int|
                    0 <= j < ms.len() ==> is_dec_digit(#[trigger] ms[j])) && digits_val(ms)
                    <= u64::MAX {
                    Some((digits_val(hs) as int, digits_val(ms) as int))
                } else {
                    None
                }
            } else {
                None
            }
        },
        _ => None,
    }
}

/// Parse a duration argument of the shape `(XhYm)` into hours and
/// minutes.
pub fn parse_duration_to_hm(s: &str) -> (r: Result<(u64, u64), MyError>)
    ensures
        match r {
            Ok((h, m)) => duration_hm_spec(s@) == Some((h as int, m as int)),
            Err(_) => duration_hm_spec(s@) is None,
        },
{
    let o = match find_char(s, '(') {
        Some(i) => i,
        None => {
            return Err(MyError::NotFound);
        },
    };
    let h = match find_char(s, 'h') {
        Some(i) => i,
        None => {
            return Err(MyError::NotFound);
        },
    };
    let c = match find_char(s, ',') {
        Some(i) => i,
        None => {
            return Err(MyError::NotFound);
        },
    };
    let m = match find_char(s, 'm') {
        Some(i) => i,
        None => {
            return Err(MyError::NotFound);
        },
    };
    if o >= h || c >= m {
        return Err(MyError::NotFound);
    }
    proof {
        lemma_find_first_props(s@, seq!['h']);
        lemma_find_first_props(s@, seq!['m']);
    }
    let hs = s.substring_char(o + 1, h);
    let ms = s.substring_char(c + 1, m);
    let hv = match parse_u64(hs) {
        Some(v) => v,
        None => {
            return Err(MyError::NotFound);
        },
    };
    let mv = match parse_u64(ms) {
        Some(v) => v,
        None => {
            return Err(MyError::NotFound);
        },
    };
    Ok((hv, mv))
}

/// The two language identifiers of an argument of the shape `(l1,l2)`:
/// the text between `(` and `,`, and between `,` and `)`.
pub open spec fn langs_spec(s: Seq<char>) -> Option<(Seq<char>, Seq<char>)> {
    match (find_first(s, seq!['(']), find_first(s, seq![',']), find_first(s, seq![')'])) {
        (Some(o), Some(c), Some(e)) => {
            if o + 1 <= c && c + 1 <= e {
                Some((s.subrange(o + 1, c), s.subrange(c + 1, e)))
            } else {
                None
            }
        },
        _ => None,
    }
}

/// Parse a language pair argument of the shape `(l1,l2)`.
pub fn parse_langs(s: &str) -> (r: Result<(&str, &str), MyError>)
    ensures
        match r {
            Ok((a, b)) => langs_spec(s@) == Some((a@, b@)),
            Err(_) => langs_spec(s@) is None,
        },
{
    let o = match find_char(s, '(') {
        Some(i) => i,
        None => {
            return Err(MyError::NotFound);
        },
    };
    let c = match find_char(s, ',') {
        Some(i) => i,
        None => {
            return Err(MyError::NotFound);
        },
    };
    let e = match find_char(s, ')') {
        Some(i) => i,
        None => {
            return Err(MyError::NotFound);
        },
    };
    if o >= c || c >= e {
        return Err(MyError::NotFound);
    }
    proof {
        lemma_find_first_props(s@, seq![',']);
        lemma_find_first_props(s@, seq![')']);
    }
    let a = s.substring_char(o + 1, c);
    let b = s.substring_char(c + 1, e);
    Ok((a, b))
}

} // verus!

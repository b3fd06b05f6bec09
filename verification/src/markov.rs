//! The per-channel Markov text model: the ingestion filter that turns
//! chat messages into (word, successor) rows, and the sampler that
//! walks those rows. Row multiplicity is the frequency weight: repeated
//! pairs produce repeated rows.

use vstd::prelude::*;

use crate::cache::{knows_emote, EmoteCache};
use crate::text::{contains_char, contains_substr, has_substr, lower_of, lowercase, split_char,
    split_spec, str_eq};

verus! {

/// Characters stripped from the front of a token: quotes, opening
/// brackets, punctuation, the space, and the invisible braille blank.
pub open spec fn is_invalid_front(c: char) -> bool {
    c == '"' || c == '\'' || c == '\u{00AB}' || c == '\u{300C}' || c == '\u{201C}' || c
        == '\u{2018}' || c == '(' || c == '[' || c == '{' || c == ',' || c == '.' || c == ';' || c
        == ' ' || c == '\u{2800}'
}

/// Characters stripped from the back of a token: quotes, closing
/// brackets, punctuation, the space, the invisible braille blank, and
/// sentence-final marks.
pub open spec fn is_invalid_back(c: char) -> bool {
    c == '"' || c == '\'' || c == '\u{00BB}' || c == '\u{300D}' || c == '\u{201D}' || c
        == '\u{2019}' || c == ')' || c == ']' || c == '}' || c == ',' || c == '.' || c == ';' || c
        == ' ' || c == '\u{2800}' || c == '!' || c == '?'
}

/// The token without its stripped front characters.
pub open spec fn strip_front_spec(s: Seq<char>) -> Seq<char>
    decreases s.len(),
{
    if s.len() > 0 && is_invalid_front(s[0]) {
        strip_front_spec(s.drop_first())
    } else {
        s
    }
}

/// The token without its stripped back characters.
pub open spec fn strip_back_spec(s: Seq<char>) -> Seq<char>
    decreases s.len(),
{
    if s.len() > 0 && is_invalid_back(s.last()) {
        strip_back_spec(s.drop_last())
    } else {
        s
    }
}

proof fn lemma_strip_front_range(s: Seq<char>, a: int)
    requires
        0 <= a <= s.len(),
        forall|j: int| 0 <= j < a ==> is_invalid_front(#[trigger] s[j]),
        a < s.len() ==> !is_invalid_front(s[a]),
    ensures
        strip_front_spec(s) == s.subrange(a, s.len() as int),
    decreases a,
{
    if a == 0 {
        assert(s.subrange(0, s.len() as int) =~= s);
    } else {
        lemma_strip_front_range(s.drop_first(), a - 1);
        assert(s.drop_first().subrange(a - 1, s.drop_first().len() as int) =~= s.subrange(
            a,
            s.len() as int,
        ));
    }
}

proof fn lemma_strip_back_range(s: Seq<char>, b: int)
    requires
        0 <= b <= s.len(),
        forall|j: int| b <= j < s.len() ==> is_invalid_back(#[trigger] s[j]),
        b > 0 ==> !is_invalid_back(s[b - 1]),
    ensures
        strip_back_spec(s) == s.subrange(0, b),
    decreases s.len() - b,
{
    if b == s.len() {
        assert(s.subrange(0, s.len() as int) =~= s);
    } else {
        lemma_strip_back_range(s.drop_last(), b);
        assert(s.drop_last().subrange(0, b) =~= s.subrange(0, b));
    }
}

fn char_is_invalid_front(c: char) -> (r: bool)
    ensures
        r == is_invalid_front(c),
{
    c == '"' || c == '\'' || c == '\u{00AB}' || c == '\u{300C}' || c == '\u{201C}' || c
        == '\u{2018}' || c == '(' || c == '[' || c == '{' || c == ',' || c == '.' || c == ';' || c
        == ' ' || c == '\u{2800}'
}

fn char_is_invalid_back(c: char) -> (r: bool)
    ensures
        r == is_invalid_back(c),
{
    c == '"' || c == '\'' || c == '\u{00BB}' || c == '\u{300D}' || c == '\u{201D}' || c
        == '\u{2019}' || c == ')' || c == ']' || c == '}' || c == ',' || c == '.' || c == ';' || c
        == ' ' || c == '\u{2800}' || c == '!' || c == '?'
}

/// Strip the unwanted characters from both ends of a token.
fn strip_token(s: &str) -> (r: String)
    ensures
        r@ == strip_back_spec(strip_front_spec(s@)),
{
    let len = s.unicode_len();
    let mut a: usize = 0;
    while a < len && char_is_invalid_front(s.get_char(a))
        invariant
            a <= len,
            forall|j: int| 0 <= j < a ==> is_invalid_front(#[trigger] s@[j]),
        decreases len - a,
    {
        a = a + 1;
    }
    proof {
        lemma_strip_front_range(s@, a as int);
    }
    let ghost t = s@.subrange(a as int, len as int);
    let mut b: usize = len;
    while b > a && char_is_invalid_back(s.get_char(b - 1))
        invariant
            a <= b <= len,
            forall|j: int| b <= j < len ==> is_invalid_back(#[trigger] s@[j]),
        decreases b,
    {
        b = b - 1;
    }
    proof {
        assert(forall|j: int| (b - a) <= j < t.len() ==> t[j] == s@[j + a] && is_invalid_back(t[j]));
        lemma_strip_back_range(t, b - a);
        assert(t.subrange(0, b - a) =~= s@.subrange(a as int, b as int));
    }
    let r = s.substring_char(a, b);
    r.to_owned()
}

/// What the ingestion filter makes of one token: the token is stripped;
/// a token that is then empty, still holds the invisible blank, or
/// looks like a link is discarded; a surviving token keeps its case
/// exactly when it is a known emote, and is lowercased otherwise.
pub open spec fn format_entry_spec(
    cache: EmoteCache,
    channel_name: Seq<char>,
    msg_emotes: Seq<Seq<char>>,
    s: Seq<char>,
) -> Option<Seq<char>> {
    let t = strip_back_spec(strip_front_spec(s));
    if t.contains('\u{2800}') || has_substr(t, "//"@) || has_substr(t, "www."@) || t.len() == 0 {
        None
    } else if knows_emote(cache, channel_name, msg_emotes, t) {
        Some(t)
    } else {
        Some(lower_of(t))
    }
}

/// Turn one token into the form stored in the adjacency table, if it
/// survives filtering.
pub fn format_markov_entry(
    cache: &EmoteCache,
    channel_name: &str,
    msg_emotes: &Vec<String>,
    s: &str,
) -> (r: Option<String>)
    ensures
        match r {
            Some(v) => format_entry_spec(*cache, channel_name@, msg_emotes.deep_view(), s@)
                == Some(v@),
            None => format_entry_spec(*cache, channel_name@, msg_emotes.deep_view(), s@) is None,
        },
{
    proof {
        reveal_strlit("//");
        reveal_strlit("www.");
    }
    let out = strip_token(s);
    let t = out.as_str();
    if contains_char(t, '\u{2800}') || contains_substr(t, "//") || contains_substr(t, "www.")
        || t.unicode_len() == 0 {
        None
    } else if cache.self_or_privmsg_has_emote(channel_name, msg_emotes, t) {
        Some(out)
    } else {
        Some(lowercase(t))
    }
}

/// One observed (word, successor) pair of a channel.
pub struct MarkovRow {
    pub channel_id: i32,
    pub word: String,
    pub succ: String,
}

/// The pairs a token list contributes to the table: each positionally
/// adjacent pair whose two members both survive the filter, in order.
pub open spec fn ingest_pairs(
    cache: EmoteCache,
    channel_name: Seq<char>,
    msg_emotes: Seq<Seq<char>>,
    words: Seq<Seq<char>>,
) -> Seq<(Seq<char>, Seq<char>)>
    decreases words.len(),
{
    if words.len() < 2 {
        Seq::empty()
    } else {
        let head = format_entry_spec(cache, channel_name, msg_emotes, words[0]);
        let next = format_entry_spec(cache, channel_name, msg_emotes, words[1]);
        let rest = ingest_pairs(cache, channel_name, msg_emotes, words.drop_first());
        if head is Some && next is Some {
            seq![(head->0, next->0)] + rest
        } else {
            rest
        }
    }
}

/// The adjacency table of every channel.
pub struct MarkovTable {
    pub rows: Vec<MarkovRow>,
}

/// Some row of the channel has this word (compared ignoring case) in
/// its first column.
pub open spec fn has_successor(rows: Seq<MarkovRow>, channel_id: i32, word: Seq<char>) -> bool {
    exists|k: int|
        0 <= k < rows.len() && (#[trigger] rows[k]).channel_id == channel_id && lower_of(
            rows[k].word@,
        ) == lower_of(word)
}

/// Some row of the channel relates the word (compared ignoring case) to
/// this successor.
pub open spec fn is_succ(
    rows: Seq<MarkovRow>,
    channel_id: i32,
    word: Seq<char>,
    succ: Seq<char>,
) -> bool {
    exists|k: int|
        0 <= k < rows.len() && (#[trigger] rows[k]).channel_id == channel_id && lower_of(
            rows[k].word@,
        ) == lower_of(word) && rows[k].succ@ == succ
}

impl MarkovTable {
    /// An empty table.
    pub fn new() -> (r: Self)
        ensures
            r.rows@ == Seq::<MarkovRow>::empty(),
    {
        MarkovTable { rows: Vec::new() }
    }

    /// Ingest one message: tokenize on spaces, filter each token, and
    /// append a row for each adjacent pair of surviving tokens. One
    /// discarded token never shifts the pairing.
    pub fn log_markov(
        &mut self,
        cache: &EmoteCache,
        channel_name: &str,
        msg_emotes: &Vec<String>,
        channel_id: i32,
        text: &str,
    )
        ensures
            ({
                let pairs = ingest_pairs(
                    *cache,
                    channel_name@,
                    msg_emotes.deep_view(),
                    split_spec(text@, ' '),
                );
                &&& final(self).rows@.len() == old(self).rows@.len() + pairs.len()
                &&& forall|i: int|
                    0 <= i < old(self).rows@.len() ==> final(self).rows@[i] == old(self).rows@[i]
                &&& forall|i: int|
                    0 <= i < pairs.len() ==> {
                        let row = #[trigger] final(self).rows@[old(self).rows@.len() + i];
                        row.channel_id == channel_id && row.word@ == pairs[i].0 && row.succ@
                            == pairs[i].1
                    }
            }),
    {
        let words = split_char(text, ' ');
        let n = words.len();
        let ghost all = words.deep_view();
        let ghost base = old(self).rows@;
        let ghost mut acc: Seq<(Seq<char>, Seq<char>)> = Seq::empty();
        assert(n >= 1);
        let mut i: usize = 0;
        proof {
            assert(all.skip(0) =~= all);
            assert(Seq::<(Seq<char>, Seq<char>)>::empty() + ingest_pairs(
                *cache,
                channel_name@,
                msg_emotes.deep_view(),
                all,
            ) =~= ingest_pairs(*cache, channel_name@, msg_emotes.deep_view(), all));
        }
        while i < n - 1
            invariant
                i < n || n <= 1,
                n == all.len(),
                ingest_pairs(*cache, channel_name@, msg_emotes.deep_view(), all) == acc
                    + ingest_pairs(
                    *cache,
                    channel_name@,
                    msg_emotes.deep_view(),
                    all.skip(i as int),
                ),
                self.rows@.len() == base.len() + acc.len(),
                forall|k: int| 0 <= k < base.len() ==> self.rows@[k] == base[k],
                forall|k: int|
                    0 <= k < acc.len() ==> {
                        let row = #[trigger] self.rows@[base.len() + k];
                        row.channel_id == channel_id && row.word@ == acc[k].0 && row.succ@
                            == acc[k].1
                    },
            decreases n - i,
        {
            let ghost rest = all.skip(i as int);
            proof {
                assert(rest[0] == all[i as int]);
                assert(rest[1] == all[i + 1]);
                assert(rest.drop_first() =~= all.skip(i + 1));
            }
            let head = format_markov_entry(cache, channel_name, msg_emotes, words[i].as_str());
            let next = format_markov_entry(
                cache,
                channel_name,
                msg_emotes,
                words[i + 1].as_str(),
            );
            if let (Some(w), Some(s)) = (head, next) {
                let ghost acc0 = acc;
                self.rows.push(MarkovRow { channel_id, word: w, succ: s });
                proof {
                    acc = acc0.push((self.rows@.last().word@, self.rows@.last().succ@));
                    assert(acc0 + ingest_pairs(
                        *cache,
                        channel_name@,
                        msg_emotes.deep_view(),
                        rest,
                    ) =~= acc + ingest_pairs(
                        *cache,
                        channel_name@,
                        msg_emotes.deep_view(),
                        all.skip(i + 1),
                    ));
                }
            } else {
                proof {
                    assert(ingest_pairs(*cache, channel_name@, msg_emotes.deep_view(), rest)
                        == ingest_pairs(
                        *cache,
                        channel_name@,
                        msg_emotes.deep_view(),
                        all.skip(i + 1),
                    ));
                }
            }
            i = i + 1;
        }
        proof {
            if n >= 1 {
                assert(all.skip(n - 1).len() == 1);
                assert(ingest_pairs(*cache, channel_name@, msg_emotes.deep_view(), all.skip(n - 1))
                    =~= Seq::<(Seq<char>, Seq<char>)>::empty());
            } else {
                assert(ingest_pairs(*cache, channel_name@, msg_emotes.deep_view(), all.skip(0))
                    =~= Seq::<(Seq<char>, Seq<char>)>::empty());
            }
            assert(acc + Seq::<(Seq<char>, Seq<char>)>::empty() =~= acc);
        }
    }

    /// A uniformly chosen successor of the word in the channel, compared
    /// ignoring case; nothing when the word has no successor row.
    pub fn get_rand_markov_succ(&self, channel_id: i32, word: &str) -> (r: Option<String>)
        ensures
            match r {
                Some(v) => is_succ(self.rows@, channel_id, word@, v@),
                None => forall|k: int|
                    0 <= k < self.rows@.len() ==> !((#[trigger] self.rows@[k]).channel_id
                        == channel_id && lower_of(self.rows@[k].word@) == lower_of(word@)),
            },
    {
        let mut succs: Vec<String> = Vec::new();
        let n = self.rows.len();
        let mut i: usize = 0;
        let low = lowercase(word);
        while i < n
            invariant
                i <= n,
                n == self.rows@.len(),
                low@ == lower_of(word@),
                forall|j: int|
                    0 <= j < succs@.len() ==> is_succ(self.rows@, channel_id, word@,
                    (#[trigger] succs@[j])@),
                succs@.len() > 0 || forall|k: int|
                    0 <= k < i ==> !((#[trigger] self.rows@[k]).channel_id == channel_id
                        && lower_of(self.rows@[k].word@) == lower_of(word@)),
            decreases n - i,
        {
            let row = &self.rows[i];
            if row.channel_id == channel_id {
                let row_low = lowercase(row.word.as_str());
                if str_eq(row_low.as_str(), low.as_str()) {
                    succs.push(row.succ.clone());
                    proof {
                        assert(succs@.last()@ == self.rows@[i as int].succ@);
                        assert(is_succ(self.rows@, channel_id, word@, (succs@.last())@));
                    }
                }
            }
            i = i + 1;
        }
        if succs.len() == 0 {
            return None;
        }
        let pick = crate::rng::rand_below(succs.len() as u64);
        let idx = pick as usize;
        Some(succs[idx].clone())
    }

    /// Walk the table: starting from the seed, append one sampled
    /// successor per round, keeping the seed unchanged on a round whose
    /// lookup misses. Every adjacent pair of the output is related by
    /// some row of the channel.
    pub fn markov_chain(&self, channel_id: i32, seed: &str, rounds: usize) -> (r: Vec<String>)
        requires
            rounds >= 1,
        ensures
            1 <= r@.len() <= rounds,
            r.deep_view()[0] == seed@,
            forall|k: int|
                0 <= k < r@.len() - 1 ==> is_succ(self.rows@, channel_id,
                #[trigger] r.deep_view()[k], r.deep_view()[k + 1]),
            rounds >= 2 && has_successor(self.rows@, channel_id, seed@) ==> r@.len() >= 2,
            !has_successor(self.rows@, channel_id, seed@) ==> r@.len() == 1,
    {
        let mut out: Vec<String> = Vec::new();
        out.push(seed.to_owned());
        let mut current = seed.to_owned();
        let mut round: usize = 0;
        while round < rounds - 1
            invariant
                1 <= out@.len() <= round + 1,
                round < rounds,
                current@ == out.deep_view().last(),
                out.deep_view()[0] == seed@,
                forall|k: int|
                    0 <= k < out@.len() - 1 ==> is_succ(self.rows@, channel_id,
                    #[trigger] out.deep_view()[k], out.deep_view()[k + 1]),
                out@.len() == 1 ==> current@ == seed@,
                round >= 1 && has_successor(self.rows@, channel_id, seed@) ==> out@.len() >= 2,
                !has_successor(self.rows@, channel_id, seed@) ==> out@.len() == 1,
            decreases rounds - round,
        {
            match self.get_rand_markov_succ(channel_id, current.as_str()) {
                Some(succ) => {
                    let ghost dv0 = out.deep_view();
                    proof {
                        assert(is_succ(self.rows@, channel_id, current@, succ@));
                    }
                    out.push(succ.clone());
                    current = succ;
                    proof {
                        assert(out.deep_view() =~= dv0.push(current@));
                        assert(out.deep_view().last() == current@);
                        assert forall|k: int| 0 <= k < out@.len() - 1 implies is_succ(
                            self.rows@,
                            channel_id,
                            #[trigger] out.deep_view()[k],
                            out.deep_view()[k + 1],
                        ) by {
                            if k < out@.len() - 2 {
                                assert(out.deep_view()[k] == dv0[k]);
                                assert(out.deep_view()[k + 1] == dv0[k + 1]);
                            } else {
                                assert(out.deep_view()[k] == dv0.last());
                            }
                        }
                    }
                },
                None => {},
            }
            round = round + 1;
        }
        out
    }
}

} // verus!

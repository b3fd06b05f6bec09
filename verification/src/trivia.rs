//! The per-channel session state: registered hooks and the at most one
//! trivia game in progress, with the state machine that starts,
//! answers, reveals and abandons games.

use vstd::prelude::*;

use vstd::pervasive::VecAdditionalExecFns;
use vstd::multiset::Multiset;
use crate::text::{eq_ignore_case, has_substr, lowercase, str_eq};
use crate::types::{ChannelSpecifics, HookMatchType, MessageHook, TriviaGameInfo};

verus! {

/// The session state of one channel.
pub struct ChannelState {
    pub channel_id: i32,
    pub specifics: ChannelSpecifics,
}

/// The entry belongs to this channel.
pub open spec fn state_matches(e: ChannelState, channel_id: i32) -> bool {
    e.channel_id == channel_id
}

/// The per-channel session state store. One entry exists per configured
/// channel, created at startup.
pub struct ChannelStateStore {
    pub entries: Vec<ChannelState>,
}

/// Some entry belongs to the channel.
pub open spec fn has_state(entries: Seq<ChannelState>, channel_id: i32) -> bool {
    exists|k: int| 0 <= k < entries.len() && state_matches(#[trigger] entries[k], channel_id)
}

/// The first entry of the channel.
pub open spec fn state_of(entries: Seq<ChannelState>, channel_id: i32) -> ChannelState
    decreases entries.len(),
{
    if entries.len() == 0 {
        arbitrary()
    } else if state_matches(entries[0], channel_id) {
        entries[0]
    } else {
        state_of(entries.drop_first(), channel_id)
    }
}

/// A game is in progress in the channel.
pub open spec fn has_ongoing_game(entries: Seq<ChannelState>, channel_id: i32) -> bool {
    has_state(entries, channel_id) && state_of(entries, channel_id).specifics.ongoing_trivia_game
        is Some
}

/// The matching entry at the first matching index is the one the spec
/// lookup selects.
pub proof fn lemma_state_of(entries: Seq<ChannelState>, channel_id: i32, i: int)
    requires
        0 <= i < entries.len(),
        state_matches(entries[i], channel_id),
        forall|j: int| 0 <= j < i ==> !state_matches(#[trigger] entries[j], channel_id),
    ensures
        state_of(entries, channel_id) == entries[i],
        has_state(entries, channel_id),
    decreases i,
{
    if i > 0 {
        lemma_state_of(entries.drop_first(), channel_id, i - 1);
    }
}

/// Copy a hook list.
fn duplicate_hooks(hooks: &Vec<MessageHook>) -> (r: Vec<MessageHook>)
    ensures
        r@ == hooks@,
{
    let mut out: Vec<MessageHook> = Vec::new();
    let n = hooks.len();
    let mut i: usize = 0;
    while i < n
        invariant
            i <= n,
            out@ == hooks@.subrange(0, i as int),
        decreases n - i,
    {
        out.push(hooks[i].duplicate());
        proof {
            assert(out@ =~= hooks@.subrange(0, i + 1));
        }
        i = i + 1;
    }
    proof {
        assert(out@ =~= hooks@);
    }
    out
}

impl TriviaGameInfo {
    /// Take a question over from the shape the trivia service answers
    /// in.
    pub fn from_api_object(s: crate::models::TriviaQuestion) -> (r: Self)
        ensures
            r.question == s.question,
            r.correct_answer == s.correct_answer,
            r.wrong_answers@ == s.incorrect_answers@,
    {
        TriviaGameInfo {
            question: s.question,
            correct_answer: s.correct_answer,
            wrong_answers: s.incorrect_answers,
        }
    }

    /// Copy of the question.
    pub fn duplicate(&self) -> (r: TriviaGameInfo)
        ensures
            r.question == self.question,
            r.correct_answer == self.correct_answer,
            r.wrong_answers@ == self.wrong_answers@,
    {
        let mut wrong: Vec<String> = Vec::new();
        let n = self.wrong_answers.len();
        let mut i: usize = 0;
        while i < n
            invariant
                i <= n,
                wrong@ == self.wrong_answers@.subrange(0, i as int),
            decreases n - i,
        {
            wrong.push(self.wrong_answers[i].clone());
            proof {
                assert(wrong@ =~= self.wrong_answers@.subrange(0, i + 1));
            }
            i = i + 1;
        }
        proof {
            assert(wrong@ =~= self.wrong_answers@);
        }
        TriviaGameInfo {
            question: self.question.clone(),
            correct_answer: self.correct_answer.clone(),
            wrong_answers: wrong,
        }
    }

    /// The four candidate answers in a random order, without saying
    /// which is correct: a permutation of the correct answer and the
    /// three wrong ones.
    pub fn shuffled_answers(&self) -> (r: Vec<String>)
        requires
            self.wrong_answers@.len() == 3,
        ensures
            r@.to_multiset() == seq![
                self.correct_answer,
                self.wrong_answers@[0],
                self.wrong_answers@[1],
                self.wrong_answers@[2],
            ].to_multiset(),
    {
        let mut pool: Vec<String> = Vec::new();
        pool.push(self.correct_answer.clone());
        pool.push(self.wrong_answers[0].clone());
        pool.push(self.wrong_answers[1].clone());
        pool.push(self.wrong_answers[2].clone());
        proof {
            assert(pool@ =~= seq![
                self.correct_answer,
                self.wrong_answers@[0],
                self.wrong_answers@[1],
                self.wrong_answers@[2],
            ]);
        }
        let ghost full = pool@.to_multiset();
        let mut out: Vec<String> = Vec::new();
        proof {
            broadcast use vstd::seq_lib::group_to_multiset_ensures;

            assert(out@.to_multiset() =~= Multiset::<String>::empty());
            assert(out@.to_multiset().add(pool@.to_multiset()) =~= full);
        }
        while pool.len() > 0
            invariant
                out@.to_multiset().add(pool@.to_multiset()) == full,
            decreases pool.len(),
        {
            proof {
                broadcast use vstd::seq_lib::group_to_multiset_ensures;

            }
            let ghost out0 = out@;
            let ghost pool0 = pool@;
            let idx_raw = crate::rng::rand_below(pool.len() as u64);
            let idx = idx_raw as usize;
            let picked = pool.remove(idx);
            out.push(picked);
            proof {
                broadcast use vstd::seq_lib::group_to_multiset_ensures;

                assert(pool@ =~= pool0.remove(idx as int));
                assert(pool@.to_multiset() =~= pool0.to_multiset().remove(pool0[idx as int]));
                assert(out@.to_multiset() =~= out0.to_multiset().insert(pool0[idx as int]));
                assert(out@.to_multiset().add(pool@.to_multiset()) =~= full);
            }
        }
        proof {
            broadcast use vstd::seq_lib::group_to_multiset_ensures;

            assert(pool@.to_multiset() =~= Multiset::<String>::empty());
            assert(out@.to_multiset() =~= full);
        }
        out
    }
}

impl ChannelStateStore {
    /// An empty store.
    pub fn new() -> (r: Self)
        ensures
            r.entries@ == Seq::<ChannelState>::empty(),
    {
        ChannelStateStore { entries: Vec::new() }
    }

    /// Create the entry of a channel, with no hooks and no game, if the
    /// channel has none yet.
    pub fn ensure_channel(&mut self, channel_id: i32)
        ensures
            has_state(final(self).entries@, channel_id),
            has_state(old(self).entries@, channel_id) ==> final(self).entries@ == old(
                self,
            ).entries@,
            !has_state(old(self).entries@, channel_id) ==> final(self).entries@.drop_last() == old(
                self,
            ).entries@ && final(self).entries@.len() == old(self).entries@.len() + 1 && state_of(
                final(self).entries@,
                channel_id,
            ) == final(self).entries@.last() && final(self).entries@.last().channel_id == channel_id
                && final(self).entries@.last().specifics.hooks@ == Seq::<MessageHook>::empty()
                && final(self).entries@.last().specifics.ongoing_trivia_game is None,
    {
        let n = self.entries.len();
        let mut i: usize = 0;
        while i < n
            invariant
                i <= n,
                n == self.entries@.len(),
                forall|j: int| 0 <= j < i ==> !state_matches(#[trigger] self.entries@[j], channel_id),
            decreases n - i,
        {
            if self.entries[i].channel_id == channel_id {
                proof {
                    lemma_state_of(self.entries@, channel_id, i as int);
                }
                return ;
            }
            i = i + 1;
        }
        self.entries.push(
            ChannelState {
                channel_id,
                specifics: ChannelSpecifics { hooks: Vec::new(), ongoing_trivia_game: None },
            },
        );
        proof {
            assert(self.entries@.drop_last() =~= old(self).entries@);
            lemma_state_of(self.entries@, channel_id, self.entries@.len() - 1);
        }
    }

    /// Whether a game is going on in the channel.
    pub fn has_game(&self, channel_id: i32) -> (r: bool)
        ensures
            r == has_ongoing_game(self.entries@, channel_id),
    {
        let n = self.entries.len();
        let mut i: usize = 0;
        while i < n
            invariant
                i <= n,
                forall|j: int| 0 <= j < i ==> !state_matches(#[trigger] self.entries@[j], channel_id),
            decreases n - i,
        {
            if self.entries[i].channel_id == channel_id {
                proof {
                    lemma_state_of(self.entries@, channel_id, i as int);
                }
                return self.entries[i].specifics.ongoing_trivia_game.is_some();
            }
            i = i + 1;
        }
        proof {
            if has_state(self.entries@, channel_id) {
                let k = choose|k: int|
                    0 <= k < self.entries@.len() && state_matches(
                        #[trigger] self.entries@[k],
                        channel_id,
                    );
                assert(false);
            }
        }
        false
    }

    /// Commit a fetched question as the channel's running game,
    /// replacing whatever game stands: the last commit wins, and exactly
    /// one game exists in the channel afterward.
    pub fn commit_trivia(&mut self, channel_id: i32, question: TriviaGameInfo)
        requires
            has_state(old(self).entries@, channel_id),
        ensures
            ({
                let entries = old(self).entries@;
                exists|k: int|
                    0 <= k < entries.len() && state_matches(#[trigger] entries[k], channel_id) && (
                    forall|j: int|
                        0 <= j < k ==> !state_matches(#[trigger] entries[j], channel_id))
                        && final(self).entries@ == entries.update(k, final(self).entries@[k])
                        && final(self).entries@[k].channel_id == channel_id
                        && final(self).entries@[k].specifics.hooks@ == entries[k].specifics.hooks@
                        && is_same_game(
                        final(self).entries@[k].specifics.ongoing_trivia_game,
                        Some(question),
                    )
            }),
            has_ongoing_game(final(self).entries@, channel_id),
            state_of(final(self).entries@, channel_id).specifics.hooks@ == state_of(
                old(self).entries@,
                channel_id,
            ).specifics.hooks@,
            is_same_game(
                state_of(final(self).entries@, channel_id).specifics.ongoing_trivia_game,
                Some(question),
            ),
    {
        let n = self.entries.len();
        let mut i: usize = 0;
        while i < n
            invariant
                i <= n,
                n == self.entries@.len(),
                self.entries@ == old(self).entries@,
                forall|j: int| 0 <= j < i ==> !state_matches(#[trigger] self.entries@[j], channel_id),
            decreases n - i,
        {
            if self.entries[i].channel_id == channel_id {
                let hooks = duplicate_hooks(&self.entries[i].specifics.hooks);
                self.entries.set(
                    i,
                    ChannelState {
                        channel_id,
                        specifics: ChannelSpecifics {
                            hooks,
                            ongoing_trivia_game: Some(question),
                        },
                    },
                );
                proof {
                    let entries = old(self).entries@;
                    assert(state_matches(entries[i as int], channel_id));
                    assert(self.entries@ == entries.update(i as int, self.entries@[i as int]));
                    lemma_state_of(entries, channel_id, i as int);
                    lemma_state_of(self.entries@, channel_id, i as int);
                }
                return ;
            }
            i = i + 1;
        }
        proof {
            let k = choose|k: int|
                0 <= k < self.entries@.len() && state_matches(
                    #[trigger] self.entries@[k],
                    channel_id,
                );
            assert(false);
        }
    }

    /// Abandon the channel's game, if one is going on, and reveal its
    /// correct answer.
    pub fn give_up(&mut self, channel_id: i32) -> (r: Option<String>)
        ensures
            !has_ongoing_game(final(self).entries@, channel_id),
            has_state(old(self).entries@, channel_id) ==> has_state(final(self).entries@, channel_id)
                && state_of(final(self).entries@, channel_id).specifics.hooks@ == state_of(
                old(self).entries@,
                channel_id,
            ).specifics.hooks@,
            match r {
                Some(answer) => has_ongoing_game(old(self).entries@, channel_id) && answer@
                    == state_of(
                    old(self).entries@,
                    channel_id,
                ).specifics.ongoing_trivia_game->0.correct_answer@ && exists|k: int|
                    0 <= k < old(self).entries@.len() && state_matches(
                        #[trigger] old(self).entries@[k],
                        channel_id,
                    ) && final(self).entries@ == old(self).entries@.update(
                        k,
                        final(self).entries@[k],
                    ) && final(self).entries@[k].channel_id == channel_id && final(self).entries@[k].specifics.hooks@ == old(self).entries@[k].specifics.hooks@
                        && final(self).entries@[k].specifics.ongoing_trivia_game is None,
                None => !has_ongoing_game(old(self).entries@, channel_id) && final(self).entries@
                    == old(self).entries@,
            },
    {
        let n = self.entries.len();
        let mut i: usize = 0;
        while i < n
            invariant
                i <= n,
                n == self.entries@.len(),
                self.entries@ == old(self).entries@,
                forall|j: int| 0 <= j < i ==> !state_matches(#[trigger] self.entries@[j], channel_id),
            decreases n - i,
        {
            if self.entries[i].channel_id == channel_id {
                proof {
                    lemma_state_of(self.entries@, channel_id, i as int);
                }
                match &self.entries[i].specifics.ongoing_trivia_game {
                    Some(game) => {
                        let answer = game.correct_answer.clone();
                        let hooks = duplicate_hooks(&self.entries[i].specifics.hooks);
                        self.entries.set(
                            i,
                            ChannelState {
                                channel_id,
                                specifics: ChannelSpecifics {
                                    hooks,
                                    ongoing_trivia_game: None,
                                },
                            },
                        );
                        proof {
                            let entries = old(self).entries@;
                            assert(self.entries@ == entries.update(
                                i as int,
                                self.entries@[i as int],
                            ));
                            lemma_state_of(self.entries@, channel_id, i as int);
                        }
                        return Some(answer);
                    },
                    None => {
                        return None;
                    },
                }
            }
            i = i + 1;
        }
        None
    }

    /// The shuffled candidate answers of the channel's running game, if
    /// one is going on.
    pub fn hint(&self, channel_id: i32) -> (r: Option<Vec<String>>)
        ensures
            match r {
                Some(answers) => has_ongoing_game(self.entries@, channel_id) && ({
                    let game = state_of(self.entries@, channel_id).specifics.ongoing_trivia_game->0;
                    game.wrong_answers@.len() == 3 && answers@.to_multiset() == seq![
                        game.correct_answer,
                        game.wrong_answers@[0],
                        game.wrong_answers@[1],
                        game.wrong_answers@[2],
                    ].to_multiset()
                }),
                None => !has_ongoing_game(self.entries@, channel_id) || state_of(
                    self.entries@,
                    channel_id,
                ).specifics.ongoing_trivia_game->0.wrong_answers@.len() != 3,
            },
    {
        let n = self.entries.len();
        let mut i: usize = 0;
        while i < n
            invariant
                i <= n,
                forall|j: int| 0 <= j < i ==> !state_matches(#[trigger] self.entries@[j], channel_id),
            decreases n - i,
        {
            if self.entries[i].channel_id == channel_id {
                proof {
                    lemma_state_of(self.entries@, channel_id, i as int);
                }
                match &self.entries[i].specifics.ongoing_trivia_game {
                    Some(game) => {
                        if game.wrong_answers.len() == 3 {
                            return Some(game.shuffled_answers());
                        } else {
                            return None;
                        }
                    },
                    None => {
                        return None;
                    },
                }
            }
            i = i + 1;
        }
        proof {
            if has_state(self.entries@, channel_id) {
                let k = choose|k: int|
                    0 <= k < self.entries@.len() && state_matches(
                        #[trigger] self.entries@[k],
                        channel_id,
                    );
                assert(false);
            }
        }
        None
    }

    /// Judge a chat message against the channel's running game: on a
    /// case-insensitive match with the correct answer the game ends and
    /// the answer is confirmed.
    pub fn evaluate_answer(&mut self, channel_id: i32, message_text: &str) -> (r: bool)
        ensures
            r == (has_ongoing_game(old(self).entries@, channel_id) && eq_ignore_case(
                state_of(
                    old(self).entries@,
                    channel_id,
                ).specifics.ongoing_trivia_game->0.correct_answer@,
                message_text@,
            )),
            r ==> !has_ongoing_game(final(self).entries@, channel_id),
            !r ==> final(self).entries@ == old(self).entries@,
    {
        let n = self.entries.len();
        let mut i: usize = 0;
        while i < n
            invariant
                i <= n,
                n == self.entries@.len(),
                self.entries@ == old(self).entries@,
                forall|j: int| 0 <= j < i ==> !state_matches(#[trigger] self.entries@[j], channel_id),
            decreases n - i,
        {
            if self.entries[i].channel_id == channel_id {
                proof {
                    lemma_state_of(self.entries@, channel_id, i as int);
                }
                match &self.entries[i].specifics.ongoing_trivia_game {
                    Some(game) => {
                        let correct = lowercase(game.correct_answer.as_str());
                        let given = lowercase(message_text);
                        if str_eq(correct.as_str(), given.as_str()) {
                            let hooks = duplicate_hooks(&self.entries[i].specifics.hooks);
                            self.entries.set(
                                i,
                                ChannelState {
                                    channel_id,
                                    specifics: ChannelSpecifics {
                                        hooks,
                                        ongoing_trivia_game: None,
                                    },
                                },
                            );
                            proof {
                                lemma_state_of(self.entries@, channel_id, i as int);
                            }
                            return true;
                        } else {
                            return false;
                        }
                    },
                    None => {
                        return false;
                    },
                }
            }
            i = i + 1;
        }
        false
    }

    /// Register a hook in the channel.
    pub fn add_hook(&mut self, channel_id: i32, hook: MessageHook)
        requires
            has_state(old(self).entries@, channel_id),
        ensures
            ({
                let entries = old(self).entries@;
                exists|k: int|
                    0 <= k < entries.len() && state_matches(#[trigger] entries[k], channel_id) && (
                    forall|j: int|
                        0 <= j < k ==> !state_matches(#[trigger] entries[j], channel_id)) && final(self).entries@ == entries.update(k, final(self).entries@[k]) && final(self).entries@[k].channel_id == channel_id && final(self).entries@[k].specifics.hooks@ == entries[k].specifics.hooks@.push(hook)
                        && is_same_game(
                        final(self).entries@[k].specifics.ongoing_trivia_game,
                        entries[k].specifics.ongoing_trivia_game,
                    )
            }),
            has_state(final(self).entries@, channel_id),
            state_of(final(self).entries@, channel_id).specifics.hooks@ == state_of(
                old(self).entries@,
                channel_id,
            ).specifics.hooks@.push(hook),
            is_same_game(
                state_of(final(self).entries@, channel_id).specifics.ongoing_trivia_game,
                state_of(old(self).entries@, channel_id).specifics.ongoing_trivia_game,
            ),
    {
        let n = self.entries.len();
        let mut i: usize = 0;
        while i < n
            invariant
                i <= n,
                n == self.entries@.len(),
                self.entries@ == old(self).entries@,
                forall|j: int| 0 <= j < i ==> !state_matches(#[trigger] self.entries@[j], channel_id),
            decreases n - i,
        {
            if self.entries[i].channel_id == channel_id {
                let mut hooks = duplicate_hooks(&self.entries[i].specifics.hooks);
                hooks.push(hook);
                let game = match &self.entries[i].specifics.ongoing_trivia_game {
                    Some(g) => Some(g.duplicate()),
                    None => None,
                };
                self.entries.set(
                    i,
                    ChannelState {
                        channel_id,
                        specifics: ChannelSpecifics { hooks, ongoing_trivia_game: game },
                    },
                );
                proof {
                    let entries = old(self).entries@;
                    assert(state_matches(entries[i as int], channel_id));
                    assert(self.entries@ == entries.update(i as int, self.entries@[i as int]));
                    lemma_state_of(entries, channel_id, i as int);
                    lemma_state_of(self.entries@, channel_id, i as int);
                }
                return ;
            }
            i = i + 1;
        }
        proof {
            let k = choose|k: int|
                0 <= k < self.entries@.len() && state_matches(
                    #[trigger] self.entries@[k],
                    channel_id,
                );
            assert(false);
        }
    }

    /// The content of the first hook of the channel that the message
    /// triggers: an exact hook matches the whole message, a substring
    /// hook matches anywhere inside it.
    pub fn evaluate_hooks(&self, channel_id: i32, message_text: &str) -> (r: Option<String>)
        ensures
            match r {
                Some(content) => has_state(self.entries@, channel_id) && ({
                    let hooks = state_of(self.entries@, channel_id).specifics.hooks@;
                    exists|k: int|
                        0 <= k < hooks.len() && hook_triggers(#[trigger] hooks[k], message_text@)
                            && content@ == hooks[k].content@ && forall|j: int|
                            0 <= j < k ==> !hook_triggers(#[trigger] hooks[j], message_text@)
                }),
                None => !has_state(self.entries@, channel_id) || forall|k: int|
                    0 <= k < state_of(self.entries@, channel_id).specifics.hooks@.len()
                        ==> !hook_triggers(
                        #[trigger] state_of(self.entries@, channel_id).specifics.hooks@[k],
                        message_text@,
                    ),
            },
    {
        let n = self.entries.len();
        let mut i: usize = 0;
        while i < n
            invariant
                i <= n,
                forall|j: int| 0 <= j < i ==> !state_matches(#[trigger] self.entries@[j], channel_id),
            decreases n - i,
        {
            if self.entries[i].channel_id == channel_id {
                proof {
                    lemma_state_of(self.entries@, channel_id, i as int);
                }
                let hooks = &self.entries[i].specifics.hooks;
                let hn = hooks.len();
                let mut h: usize = 0;
                while h < hn
                    invariant
                        h <= hn,
                        hn == hooks@.len(),
                        forall|j: int| 0 <= j < h ==> !hook_triggers(#[trigger] hooks@[j], message_text@),
                    decreases hn - h,
                {
                    let hook = &hooks[h];
                    let fired = match hook.h_type {
                        HookMatchType::Exact => str_eq(message_text, hook.capture_string.as_str()),
                        HookMatchType::Substring => crate::text::contains_substr(
                            message_text,
                            hook.capture_string.as_str(),
                        ),
                    };
                    if fired {
                        return Some(hook.content.clone());
                    }
                    h = h + 1;
                }
                return None;
            }
            i = i + 1;
        }
        proof {
            if has_state(self.entries@, channel_id) {
                let k = choose|k: int|
                    0 <= k < self.entries@.len() && state_matches(
                        #[trigger] self.entries@[k],
                        channel_id,
                    );
                assert(false);
            }
        }
        None
    }
}

/// Two optional games hold the same question.
pub open spec fn is_same_game(a: Option<TriviaGameInfo>, b: Option<TriviaGameInfo>) -> bool {
    match (a, b) {
        (Some(x), Some(y)) => x.question == y.question && x.correct_answer == y.correct_answer
            && x.wrong_answers@ == y.wrong_answers@,
        (None, None) => true,
        _ => false,
    }
}

/// The message fires the hook.
pub open spec fn hook_triggers(hook: MessageHook, message: Seq<char>) -> bool {
    match hook.h_type {
        HookMatchType::Exact => message == hook.capture_string@,
        HookMatchType::Substring => has_substr(message, hook.capture_string@),
    }
}

} // verus!

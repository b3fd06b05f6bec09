//! The laws the library states of itself: properties that relate
//! several operations, proved over the same models their contracts
//! use.

use vstd::prelude::*;

use crate::cache::{name_matches, NameIdEntry};
use crate::markov::{format_entry_spec, ingest_pairs};
use crate::cache::EmoteCache;
use crate::store::{alias_matches, cmd_matches, AliasRow, CmdRow};
use crate::trivia::{has_ongoing_game, lemma_state_of, state_matches, state_of, ChannelState};

verus! {

/// Alias round trip: storing an alias for a user who had no binding of
/// that name, and then looking the name up, yields exactly the stored
/// expansion — the lookup's first matching row is the stored one.
pub proof fn lemma_alias_round_trip(items0: Seq<AliasRow>, row: AliasRow, owner_id: i32, name: Seq<char>)
    requires
        forall|k: int| 0 <= k < items0.len() ==> !alias_matches(#[trigger] items0[k], owner_id, name),
        alias_matches(row, owner_id, name),
    ensures
        ({
            let items = items0.push(row);
            exists|k: int|
                0 <= k < items.len() && alias_matches(#[trigger] items[k], owner_id, name)
                    && items[k].expansion == row.expansion && forall|j: int|
                    0 <= j < k ==> !alias_matches(#[trigger] items[j], owner_id, name)
        }),
{
    let items = items0.push(row);
    let k = items0.len() as int;
    assert(items[k] == row);
    assert(forall|j: int| 0 <= j < k ==> items[j] == items0[j]);
    assert(alias_matches(items[k], owner_id, name) && items[k].expansion == row.expansion
        && forall|j: int| 0 <= j < k ==> !alias_matches(#[trigger] items[j], owner_id, name));
}

/// Trivia single-session: committing a question installs it as the
/// channel's one running game, whatever stood there before. However
/// many rival starts raced, the state afterward holds exactly the last
/// committed session.
pub proof fn lemma_trivia_single_session(
    entries: Seq<ChannelState>,
    k: int,
    updated: ChannelState,
    channel_id: i32,
)
    requires
        0 <= k < entries.len(),
        state_matches(entries[k], channel_id),
        forall|j: int| 0 <= j < k ==> !state_matches(#[trigger] entries[j], channel_id),
        updated.channel_id == channel_id,
        updated.specifics.ongoing_trivia_game is Some,
    ensures
        has_ongoing_game(entries.update(k, updated), channel_id),
        state_of(entries.update(k, updated), channel_id) == updated,
{
    let after = entries.update(k, updated);
    assert(state_matches(after[k], channel_id));
    assert(forall|j: int| 0 <= j < k ==> after[j] == entries[j]);
    lemma_state_of(after, channel_id, k);
}

/// Cache eviction: in an evicted identity cache no name has a binding,
/// so the next resolution of any name misses and must consult the
/// external collaborator again.
pub proof fn lemma_eviction_forces_miss(items: Seq<NameIdEntry>, name: Seq<char>)
    requires
        items.len() == 0,
    ensures
        forall|k: int| 0 <= k < items.len() ==> !name_matches(#[trigger] items[k], name),
{
}

/// Idempotent ingestion: a message whose every token the filter
/// discards — tokens that are links or hold only the invisible
/// placeholder — contributes no adjacency rows at all.
pub proof fn lemma_ingest_discards_everything(
    cache: EmoteCache,
    channel_name: Seq<char>,
    msg_emotes: Seq<Seq<char>>,
    words: Seq<Seq<char>>,
)
    requires
        forall|k: int|
            0 <= k < words.len() ==> format_entry_spec(cache, channel_name, msg_emotes,
            #[trigger] words[k]) is None,
    ensures
        ingest_pairs(cache, channel_name, msg_emotes, words).len() == 0,
    decreases words.len(),
{
    if words.len() >= 2 {
        assert(format_entry_spec(cache, channel_name, msg_emotes, words[0]) is None);
        let rest = words.drop_first();
        assert(forall|k: int|
            0 <= k < rest.len() ==> format_entry_spec(cache, channel_name, msg_emotes,
            #[trigger] rest[k]) is None);
        lemma_ingest_discards_everything(cache, channel_name, msg_emotes, rest);
    }
}

/// Usage counter monotonicity: after a lookup bumps the counter of an
/// incrementing command, the same row is still the one the next lookup
/// finds, and its stored count has grown by exactly one — so a run of
/// sequential invocations renders strictly increasing values.
pub proof fn lemma_usage_counter_monotonic(
    rows: Seq<CmdRow>,
    k: int,
    channel_id: i32,
    name: Seq<char>,
    bumped: CmdRow,
)
    requires
        0 <= k < rows.len(),
        cmd_matches(rows[k], channel_id, name),
        forall|j: int| 0 <= j < k ==> !cmd_matches(#[trigger] rows[j], channel_id, name),
        rows[k].usage_count < u64::MAX,
        bumped.channel_id == rows[k].channel_id,
        bumped.name == rows[k].name,
        bumped.usage_count == rows[k].usage_count + 1,
    ensures
        ({
            let after = rows.update(k, bumped);
            &&& cmd_matches(after[k], channel_id, name)
            &&& forall|j: int| 0 <= j < k ==> !cmd_matches(#[trigger] after[j], channel_id, name)
            &&& after[k].usage_count > rows[k].usage_count
        }),
{
    let after = rows.update(k, bumped);
    assert(forall|j: int| 0 <= j < k ==> after[j] == rows[j]);
}

} // verus!

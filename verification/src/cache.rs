//! The identity cache (account name to numeric id) and the emote cache
//! (which tokens are known emotes, used to decide case folding).

use vstd::prelude::*;

use vstd::pervasive::VecAdditionalExecFns;
use crate::text::{has_substr, str_eq};

verus! {

/// One cached name-to-id binding.
pub struct NameIdEntry {
    pub name: String,
    pub id: i32,
}

/// The entry binds this name.
pub open spec fn name_matches(e: NameIdEntry, name: Seq<char>) -> bool {
    e.name@ == name
}

/// The ephemeral account-name-to-id cache. Bindings are effectively
/// immutable, so stale entries are acceptable; unbounded growth is not,
/// so the whole cache is cleared periodically.
pub struct NameIdCache {
    pub items: Vec<NameIdEntry>,
}

impl NameIdCache {
    /// An empty cache.
    pub fn new() -> (r: Self)
        ensures
            r.items@ == Seq::<NameIdEntry>::empty(),
    {
        NameIdCache { items: Vec::new() }
    }

    /// How many bindings the cache holds.
    pub fn len(&self) -> (r: usize)
        ensures
            r == self.items@.len(),
    {
        self.items.len()
    }

    /// Bind a name to an id, replacing the binding of the same name if
    /// one exists.
    pub fn insert(&mut self, name: &str, id: i32)
        ensures
            ({
                let items = old(self).items@;
                if exists|k: int|
                    0 <= k < items.len() && name_matches(#[trigger] items[k], name@) {
                    exists|k: int|
                        0 <= k < items.len() && name_matches(#[trigger] items[k], name@) && (
                        forall|j: int|
                            0 <= j < k ==> !name_matches(#[trigger] items[j], name@))
                            && final(self).items@ == items.update(k, final(self).items@[k])
                            && final(self).items@[k].name@ == name@
                            && final(self).items@[k].id == id
                } else {
                    final(self).items@.len() == items.len() + 1 && final(self).items@.drop_last()
                        == items && final(self).items@.last().name@ == name@
                        && final(self).items@.last().id == id
                }
            }),
    {
        let n = self.items.len();
        let mut i: usize = 0;
        while i < n
            invariant
                i <= n,
                n == self.items@.len(),
                self.items@ == old(self).items@,
                forall|j: int| 0 <= j < i ==> !name_matches(#[trigger] self.items@[j], name@),
            decreases n - i,
        {
            if str_eq(self.items[i].name.as_str(), name) {
                self.items.set(i, NameIdEntry { name: name.to_owned(), id });
                proof {
                    let items = old(self).items@;
                    assert(name_matches(items[i as int], name@));
                    assert(self.items@ == items.update(i as int, self.items@[i as int]));
                }
                return ;
            }
            i = i + 1;
        }
        self.items.push(NameIdEntry { name: name.to_owned(), id });
        proof {
            assert(self.items@.drop_last() =~= old(self).items@);
        }
    }

    /// The id bound to the name, if one is.
    pub fn get(&self, name: &str) -> (r: Option<i32>)
        ensures
            match r {
                Some(id) => exists|k: int|
                    0 <= k < self.items@.len() && name_matches(#[trigger] self.items@[k], name@)
                        && id == self.items@[k].id && forall|j: int|
                        0 <= j < k ==> !name_matches(#[trigger] self.items@[j], name@),
                None => forall|k: int|
                    0 <= k < self.items@.len() ==> !name_matches(#[trigger] self.items@[k], name@),
            },
    {
        let n = self.items.len();
        let mut i: usize = 0;
        while i < n
            invariant
                i <= n,
                forall|j: int| 0 <= j < i ==> !name_matches(#[trigger] self.items@[j], name@),
            decreases n - i,
        {
            if str_eq(self.items[i].name.as_str(), name) {
                return Some(self.items[i].id);
            }
            i = i + 1;
        }
        None
    }

    /// Evict every binding, reporting how many there were. Lookups
    /// after the eviction miss until the cache is repopulated.
    pub fn clear(&mut self) -> (r: usize)
        ensures
            r == old(self).items@.len(),
            final(self).items@.len() == 0,
    {
        let n = self.items.len();
        self.items = Vec::new();
        n
    }
}

/// The emote tokens one channel has enabled.
pub struct ChannelEmotes {
    pub channel_name: String,
    pub emotes: Vec<String>,
}

/// The channel entry carries this channel name.
pub open spec fn channel_emotes_matches(e: ChannelEmotes, name: Seq<char>) -> bool {
    e.channel_name@ == name
}

/// The concatenation of all strings in the list.
pub open spec fn concat_all(items: Seq<Seq<char>>) -> Seq<char>
    decreases items.len(),
{
    if items.len() == 0 {
        Seq::empty()
    } else {
        items[0] + concat_all(items.drop_first())
    }
}

/// The per-channel and global sets of known emote tokens.
pub struct EmoteCache {
    pub channels: Vec<ChannelEmotes>,
    pub globals: Vec<String>,
}

/// The emote name counts as known for a message: the channel is listed
/// and the name stands among its emotes or the global emotes, or the
/// name occurs in the concatenation of the message's own emote codes.
/// An unlisted channel knows no emotes at all.
pub open spec fn knows_emote(
    cache: EmoteCache,
    channel_name: Seq<char>,
    msg_emotes: Seq<Seq<char>>,
    emote_name: Seq<char>,
) -> bool {
    (exists|k: int|
        0 <= k < cache.channels@.len() && channel_emotes_matches(
            #[trigger] cache.channels@[k],
            channel_name,
        )) && {
        let chan = first_channel_entry(cache.channels@, channel_name);
        chan.emotes.deep_view().contains(emote_name) || cache.globals.deep_view().contains(
            emote_name,
        ) || has_substr(concat_all(msg_emotes), emote_name)
    }
}

/// The first channel entry carrying the name.
pub open spec fn first_channel_entry(channels: Seq<ChannelEmotes>, name: Seq<char>) -> ChannelEmotes
    decreases channels.len(),
{
    if channels.len() == 0 {
        arbitrary()
    } else if channel_emotes_matches(channels[0], name) {
        channels[0]
    } else {
        first_channel_entry(channels.drop_first(), name)
    }
}

/// One token of the list equals the given string.
pub fn contains_string(items: &Vec<String>, s: &str) -> (r: bool)
    ensures
        r == items.deep_view().contains(s@),
{
    let n = items.len();
    let mut i: usize = 0;
    while i < n
        invariant
            i <= n,
            forall|j: int| 0 <= j < i ==> items.deep_view()[j] != s@,
        decreases n - i,
    {
        if str_eq(items[i].as_str(), s) {
            assert(items.deep_view()[i as int] == s@);
            return true;
        }
        i = i + 1;
    }
    false
}

impl EmoteCache {
    /// A cache with the given channel lists and global list.
    pub fn from_lists(channels: Vec<ChannelEmotes>, globals: Vec<String>) -> (r: Self)
        ensures
            r.channels@ == channels@,
            r.globals@ == globals@,
    {
        EmoteCache { channels, globals }
    }

    /// Replace the contents wholesale, as the periodic refresh does.
    pub fn replace_with(&mut self, other: EmoteCache)
        ensures
            final(self).channels@ == other.channels@,
            final(self).globals@ == other.globals@,
    {
        *self = other;
    }

    /// Whether the token is a known emote for a message in the channel.
    pub fn self_or_privmsg_has_emote(
        &self,
        channel_name: &str,
        msg_emotes: &Vec<String>,
        emote_name: &str,
    ) -> (r: bool)
        ensures
            r == knows_emote(*self, channel_name@, msg_emotes.deep_view(), emote_name@),
    {
        let n = self.channels.len();
        let mut i: usize = 0;
        while i < n
            invariant
                i <= n,
                forall|j: int|
                    0 <= j < i ==> !channel_emotes_matches(
                        #[trigger] self.channels@[j],
                        channel_name@,
                    ),
            decreases n - i,
        {
            if str_eq(self.channels[i].channel_name.as_str(), channel_name) {
                proof {
                    lemma_first_channel_entry(self.channels@, channel_name@, i as int);
                }
                let entry = &self.channels[i];
                if contains_string(&entry.emotes, emote_name) {
                    return true;
                }
                if contains_string(&self.globals, emote_name) {
                    return true;
                }
                let joined = concat_strings(msg_emotes);
                return crate::text::contains_substr(joined.as_str(), emote_name);
            }
            i = i + 1;
        }
        false
    }
}

/// Concatenate all strings of the list.
fn concat_strings(items: &Vec<String>) -> (r: String)
    ensures
        r@ == concat_all(items.deep_view()),
{
    let mut out = String::new();
    let n = items.len();
    let mut i: usize = 0;
    proof {
        assert(Seq::<char>::empty() + concat_all(items.deep_view()) =~= concat_all(
            items.deep_view(),
        ));
        assert(items.deep_view().subrange(0, n as int) =~= items.deep_view());
    }
    while i < n
        invariant
            i <= n,
            n == items@.len(),
            concat_all(items.deep_view()) == out@ + concat_all(
                items.deep_view().subrange(i as int, n as int),
            ),
        decreases n - i,
    {
        let ghost out0 = out@;
        let ghost rest = items.deep_view().subrange(i as int, n as int);
        proof {
            assert(rest[0] == items.deep_view()[i as int]);
            assert(rest.drop_first() =~= items.deep_view().subrange(i + 1, n as int));
        }
        out.append(items[i].as_str());
        proof {
            assert(out0 + concat_all(rest) =~= out@ + concat_all(
                items.deep_view().subrange(i + 1, n as int),
            ));
        }
        i = i + 1;
    }
    proof {
        assert(items.deep_view().subrange(n as int, n as int) =~= Seq::<Seq<char>>::empty());
        assert(out@ + Seq::<char>::empty() =~= out@);
    }
    out
}

/// The matching entry at the first matching index is the one the spec
/// lookup selects.
proof fn lemma_first_channel_entry(channels: Seq<ChannelEmotes>, name: Seq<char>, i: int)
    requires
        0 <= i < channels.len(),
        channel_emotes_matches(channels[i], name),
        forall|j: int| 0 <= j < i ==> !channel_emotes_matches(#[trigger] channels[j], name),
    ensures
        first_channel_entry(channels, name) == channels[i],
    decreases i,
{
    if i > 0 {
        lemma_first_channel_entry(channels.drop_first(), name, i - 1);
    }
}

} // verus!

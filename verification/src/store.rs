//! The storage model: the tables the bot reads and writes, held as
//! plain rows. Lookups return the first matching row, as the queries of
//! the original storage layout do.

use vstd::prelude::*;

verus! {

use vstd::pervasive::VecAdditionalExecFns;

/// Filtering a sequence extended by one element keeps the element
/// exactly when it satisfies the predicate.
pub(crate) proof fn lemma_filter_push<A>(s: Seq<A>, pred: spec_fn(A) -> bool, x: A)
    ensures
        s.push(x).filter(pred) == if pred(x) {
            s.filter(pred).push(x)
        } else {
            s.filter(pred)
        },
{
    reveal(Seq::filter);
    assert(s.push(x).drop_last() =~= s);
    assert(s.push(x).last() == x);
}

/// A stricter predicate never keeps more elements.
pub(crate) proof fn lemma_filter_stronger<A>(s: Seq<A>, p1: spec_fn(A) -> bool, p2: spec_fn(A) -> bool)
    requires
        forall|x: A| #[trigger] p1(x) ==> p2(x),
    ensures
        s.filter(p1).len() <= s.filter(p2).len(),
    decreases s.len(),
{
    reveal(Seq::filter);
    if s.len() > 0 {
        lemma_filter_stronger(s.drop_last(), p1, p2);
    }
}

/// Filtering the empty sequence yields the empty sequence.
pub(crate) proof fn lemma_filter_empty<A>(pred: spec_fn(A) -> bool)
    ensures
        Seq::<A>::empty().filter(pred) == Seq::<A>::empty(),
{
    reveal(Seq::filter);
}

/// A reminder one user leaves for another.
pub struct Reminder {
    pub id: i32,
    pub from_user_id: i32,
    pub for_user_id: i32,
    pub raise_timestamp: i64,
    pub message: String,
}

impl Reminder {
    /// Copy of the reminder.
    pub fn duplicate(&self) -> (r: Reminder)
        ensures
            r == *self,
    {
        Reminder {
            id: self.id,
            from_user_id: self.from_user_id,
            for_user_id: self.for_user_id,
            raise_timestamp: self.raise_timestamp,
            message: self.message.clone(),
        }
    }
}

/// The reminder is due for this user at this time.
pub open spec fn reminder_due(r: Reminder, user_id: i32, now: i64) -> bool {
    r.for_user_id == user_id && r.raise_timestamp <= now
}

/// The reminders table.
pub struct ReminderStore {
    pub items: Vec<Reminder>,
}

impl ReminderStore {
    /// An empty table.
    pub fn new() -> (r: Self)
        ensures
            r.items@ == Seq::<Reminder>::empty(),
    {
        ReminderStore { items: Vec::new() }
    }

    /// Store a reminder.
    pub fn insert_reminder(&mut self, reminder: Reminder)
        ensures
            final(self).items@ == old(self).items@.push(reminder),
    {
        self.items.push(reminder);
    }

    /// Return and delete every reminder that is due for the user, in
    /// stored order; nothing when none is due.
    pub fn check_for_reminders(&mut self, user_id: i32, now: i64) -> (r: Option<Vec<Reminder>>)
        ensures
            final(self).items@ == old(self).items@.filter(
                |x: Reminder| !reminder_due(x, user_id, now),
            ),
            match r {
                Some(v) => v@ == old(self).items@.filter(
                    |x: Reminder| reminder_due(x, user_id, now),
                ) && v@.len() > 0,
                None => old(self).items@.filter(
                    |x: Reminder| reminder_due(x, user_id, now),
                ).len() == 0,
            },
    {
        let mut kept: Vec<Reminder> = Vec::new();
        let mut due: Vec<Reminder> = Vec::new();
        let n = self.items.len();
        let mut i: usize = 0;
        proof {
            assert(self.items@.subrange(0, 0) =~= Seq::<Reminder>::empty());
            lemma_filter_empty(|x: Reminder| !reminder_due(x, user_id, now));
            lemma_filter_empty(|x: Reminder| reminder_due(x, user_id, now));
        }
        while i < n
            invariant
                i <= n,
                n == self.items@.len(),
                kept@ == self.items@.subrange(0, i as int).filter(
                    |x: Reminder| !reminder_due(x, user_id, now),
                ),
                due@ == self.items@.subrange(0, i as int).filter(
                    |x: Reminder| reminder_due(x, user_id, now),
                ),
            decreases n - i,
        {
            let ghost pre = self.items@.subrange(0, i as int);
            let row = &self.items[i];
            proof {
                assert(self.items@.subrange(0, i + 1) =~= pre.push(self.items@[i as int]));
                lemma_filter_push(pre, |x: Reminder| !reminder_due(x, user_id, now), self.items@[i as int]);
                lemma_filter_push(pre, |x: Reminder| reminder_due(x, user_id, now), self.items@[i as int]);
            }
            if row.for_user_id == user_id && row.raise_timestamp <= now {
                due.push(row.duplicate());
            } else {
                kept.push(row.duplicate());
            }
            i = i + 1;
        }
        proof {
            assert(self.items@.subrange(0, n as int) =~= self.items@);
        }
        self.items = kept;
        if due.len() == 0 {
            None
        } else {
            Some(due)
        }
    }

    /// The reminders currently due for the user, in stored order,
    /// without delivering them.
    pub fn due_reminders(&self, user_id: i32, now: i64) -> (r: Vec<Reminder>)
        ensures
            r@ == self.items@.filter(|x: Reminder| reminder_due(x, user_id, now)),
    {
        let mut due: Vec<Reminder> = Vec::new();
        let n = self.items.len();
        let mut i: usize = 0;
        proof {
            assert(self.items@.subrange(0, 0) =~= Seq::<Reminder>::empty());
            lemma_filter_empty(|x: Reminder| reminder_due(x, user_id, now));
        }
        while i < n
            invariant
                i <= n,
                n == self.items@.len(),
                due@ == self.items@.subrange(0, i as int).filter(
                    |x: Reminder| reminder_due(x, user_id, now),
                ),
            decreases n - i,
        {
            let ghost pre = self.items@.subrange(0, i as int);
            let row = &self.items[i];
            proof {
                assert(self.items@.subrange(0, i + 1) =~= pre.push(self.items@[i as int]));
                lemma_filter_push(
                    pre,
                    |x: Reminder| reminder_due(x, user_id, now),
                    self.items@[i as int],
                );
            }
            if row.for_user_id == user_id && row.raise_timestamp <= now {
                due.push(row.duplicate());
            }
            i = i + 1;
        }
        proof {
            assert(self.items@.subrange(0, n as int) =~= self.items@);
        }
        due
    }

    /// Delete every reminder the user has set, returning how many there
    /// were.
    pub fn clear_users_sent_reminders(&mut self, user_id: i32) -> (r: usize)
        ensures
            final(self).items@ == old(self).items@.filter(
                |x: Reminder| x.from_user_id != user_id,
            ),
            r == old(self).items@.len() - final(self).items@.len(),
    {
        let mut kept: Vec<Reminder> = Vec::new();
        let n = self.items.len();
        let mut i: usize = 0;
        proof {
            assert(self.items@.subrange(0, 0) =~= Seq::<Reminder>::empty());
            lemma_filter_empty(|x: Reminder| x.from_user_id != user_id);
        }
        while i < n
            invariant
                i <= n,
                n == self.items@.len(),
                kept@ == self.items@.subrange(0, i as int).filter(
                    |x: Reminder| x.from_user_id != user_id,
                ),
            decreases n - i,
        {
            let ghost pre = self.items@.subrange(0, i as int);
            let row = &self.items[i];
            proof {
                assert(self.items@.subrange(0, i + 1) =~= pre.push(self.items@[i as int]));
                lemma_filter_push(pre, |x: Reminder| x.from_user_id != user_id, self.items@[i as int]);
            }
            if row.from_user_id != user_id {
                kept.push(row.duplicate());
            }
            i = i + 1;
        }
        proof {
            assert(self.items@.subrange(0, n as int) =~= self.items@);
            self.items@.lemma_filter_len(|x: Reminder| x.from_user_id != user_id);
        }
        let removed = self.items.len() - kept.len();
        self.items = kept;
        removed
    }
}

/// One stored alias row.
pub struct AliasRow {
    pub owner_id: i32,
    pub alias: String,
    pub expansion: String,
}

/// The row binds this alias name for this owner.
pub open spec fn alias_matches(row: AliasRow, owner_id: i32, name: Seq<char>) -> bool {
    row.owner_id == owner_id && row.alias@ == name
}

/// The per-user alias table.
pub struct AliasStore {
    pub items: Vec<AliasRow>,
}

impl AliasStore {
    /// An empty table.
    pub fn new() -> (r: Self)
        ensures
            r.items@ == Seq::<AliasRow>::empty(),
    {
        AliasStore { items: Vec::new() }
    }

    /// Store an alias for a user.
    pub fn set_alias(&mut self, owner_id: i32, alias: &str, expansion: &str)
        ensures
            final(self).items@.len() == old(self).items@.len() + 1,
            final(self).items@.drop_last() == old(self).items@,
            alias_matches(final(self).items@.last(), owner_id, alias@),
            final(self).items@.last().expansion@ == expansion@,
    {
        let row = AliasRow {
            owner_id,
            alias: alias.to_owned(),
            expansion: expansion.to_owned(),
        };
        self.items.push(row);
        proof {
            assert(self.items@.drop_last() =~= old(self).items@);
        }
    }

    /// The expansion of the first row that binds the alias for the
    /// user, if one does.
    pub fn get_alias_cmd(&self, owner_id: i32, alias: &str) -> (r: Option<String>)
        ensures
            match r {
                Some(v) => exists|k: int|
                    0 <= k < self.items@.len() && alias_matches(
                        #[trigger] self.items@[k],
                        owner_id,
                        alias@,
                    ) && v@ == self.items@[k].expansion@ && forall|j: int|
                        0 <= j < k ==> !alias_matches(#[trigger] self.items@[j], owner_id, alias@),
                None => forall|k: int|
                    0 <= k < self.items@.len() ==> !alias_matches(
                        #[trigger] self.items@[k],
                        owner_id,
                        alias@,
                    ),
            },
    {
        let n = self.items.len();
        let mut i: usize = 0;
        while i < n
            invariant
                i <= n,
                forall|j: int| 0 <= j < i ==> !alias_matches(#[trigger] self.items@[j], owner_id, alias@),
            decreases n - i,
        {
            let row = &self.items[i];
            if row.owner_id == owner_id && crate::text::str_eq(row.alias.as_str(), alias) {
                return Some(row.expansion.clone());
            }
            i = i + 1;
        }
        None
    }

    /// Delete every row binding the alias for the user, returning how
    /// many there were.
    pub fn remove_alias(&mut self, owner_id: i32, alias: &str) -> (r: usize)
        ensures
            final(self).items@ == old(self).items@.filter(
                |x: AliasRow| !alias_matches(x, owner_id, alias@),
            ),
            r == old(self).items@.len() - final(self).items@.len(),
    {
        let mut kept: Vec<AliasRow> = Vec::new();
        let n = self.items.len();
        let mut i: usize = 0;
        proof {
            assert(self.items@.subrange(0, 0) =~= Seq::<AliasRow>::empty());
            lemma_filter_empty(|x: AliasRow| !alias_matches(x, owner_id, alias@));
        }
        while i < n
            invariant
                i <= n,
                n == self.items@.len(),
                kept@ == self.items@.subrange(0, i as int).filter(
                    |x: AliasRow| !alias_matches(x, owner_id, alias@),
                ),
            decreases n - i,
        {
            let ghost pre = self.items@.subrange(0, i as int);
            let row = &self.items[i];
            proof {
                assert(self.items@.subrange(0, i + 1) =~= pre.push(self.items@[i as int]));
                lemma_filter_push(pre, |x: AliasRow| !alias_matches(x, owner_id, alias@), self.items@[i as int]);
            }
            if !(row.owner_id == owner_id && crate::text::str_eq(row.alias.as_str(), alias)) {
                kept.push(
                    AliasRow {
                        owner_id: row.owner_id,
                        alias: row.alias.clone(),
                        expansion: row.expansion.clone(),
                    },
                );
                proof {
                    assert(kept@.last() == self.items@[i as int]);
                    assert(kept@ =~= pre.push(self.items@[i as int]).filter(
                        |x: AliasRow| !alias_matches(x, owner_id, alias@),
                    ));
                }
            }
            i = i + 1;
        }
        proof {
            assert(self.items@.subrange(0, n as int) =~= self.items@);
            self.items@.lemma_filter_len(|x: AliasRow| !alias_matches(x, owner_id, alias@));
        }
        let removed = self.items.len() - kept.len();
        self.items = kept;
        removed
    }
}

/// One stored error-code explanation.
pub struct ExplanationRow {
    pub code: String,
    pub message: String,
}

/// The error-code explanation table.
pub struct Explanations {
    pub items: Vec<ExplanationRow>,
}

/// The row explains this code.
pub open spec fn explanation_matches(row: ExplanationRow, code: Seq<char>) -> bool {
    row.code@ == code
}

impl Explanations {
    /// A table with the given rows.
    pub fn new(items: Vec<ExplanationRow>) -> (r: Self)
        ensures
            r.items@ == items@,
    {
        Explanations { items }
    }

    /// The message of the first row explaining the code, or the fixed
    /// text for an unknown code.
    pub fn get_explanation(&self, code: &str) -> (r: String)
        ensures
            (exists|k: int|
                0 <= k < self.items@.len() && explanation_matches(
                    #[trigger] self.items@[k],
                    code@,
                )) ==> exists|k: int|
                0 <= k < self.items@.len() && explanation_matches(#[trigger] self.items@[k], code@)
                    && r@ == self.items@[k].message@ && forall|j: int|
                    0 <= j < k ==> !explanation_matches(#[trigger] self.items@[j], code@),
            (forall|k: int|
                0 <= k < self.items@.len() ==> !explanation_matches(
                    #[trigger] self.items@[k],
                    code@,
                )) ==> r@ == "no such error code"@,
    {
        let n = self.items.len();
        let mut i: usize = 0;
        while i < n
            invariant
                i <= n,
                forall|j: int| 0 <= j < i ==> !explanation_matches(#[trigger] self.items@[j], code@),
            decreases n - i,
        {
            let row = &self.items[i];
            if crate::text::str_eq(row.code.as_str(), code) {
                return row.message.clone();
            }
            i = i + 1;
        }
        "no such error code".to_owned()
    }
}

/// One stored user suggestion.
pub struct SuggestionRow {
    pub sender_id: i32,
    pub sender_name: String,
    pub text: String,
    pub timestamp: i64,
}

/// The suggestion table.
pub struct Suggestions {
    pub items: Vec<SuggestionRow>,
}

impl Suggestions {
    /// An empty table.
    pub fn new() -> (r: Self)
        ensures
            r.items@ == Seq::<SuggestionRow>::empty(),
    {
        Suggestions { items: Vec::new() }
    }

    /// Store a suggestion.
    pub fn save_suggestion(&mut self, sender_id: i32, sender_name: &str, text: &str, dt: i64)
        ensures
            final(self).items@.len() == old(self).items@.len() + 1,
            final(self).items@.drop_last() == old(self).items@,
            final(self).items@.last().sender_id == sender_id,
            final(self).items@.last().sender_name@ == sender_name@,
            final(self).items@.last().text@ == text@,
            final(self).items@.last().timestamp == dt,
    {
        self.items.push(
            SuggestionRow {
                sender_id,
                sender_name: sender_name.to_owned(),
                text: text.to_owned(),
                timestamp: dt,
            },
        );
        proof {
            assert(self.items@.drop_last() =~= old(self).items@);
        }
    }
}

/// One user gone AFK, with the time they left.
pub struct LurkerRow {
    pub lurker_id: i32,
    pub timestamp: i64,
}

/// The lurker table.
pub struct Lurkers {
    pub items: Vec<LurkerRow>,
}

/// The row belongs to this user.
pub open spec fn lurker_matches(row: LurkerRow, user_id: i32) -> bool {
    row.lurker_id == user_id
}

impl Lurkers {
    /// An empty table.
    pub fn new() -> (r: Self)
        ensures
            r.items@ == Seq::<LurkerRow>::empty(),
    {
        Lurkers { items: Vec::new() }
    }

    /// Record that the user went AFK.
    pub fn set_lurk_status(&mut self, sender_id: i32, timestamp: i64)
        ensures
            final(self).items@.len() == old(self).items@.len() + 1,
            final(self).items@.drop_last() == old(self).items@,
            final(self).items@.last() == (LurkerRow { lurker_id: sender_id, timestamp }),
    {
        self.items.push(LurkerRow { lurker_id: sender_id, timestamp });
        proof {
            assert(self.items@.drop_last() =~= old(self).items@);
        }
    }

    /// If the user is AFK, return when they left and clear their rows.
    pub fn is_lurker(&mut self, sender_id: i32) -> (r: Option<i64>)
        ensures
            final(self).items@ == old(self).items@.filter(
                |x: LurkerRow| !lurker_matches(x, sender_id),
            ),
            match r {
                Some(ts) => exists|k: int|
                    0 <= k < old(self).items@.len() && lurker_matches(
                        #[trigger] old(self).items@[k],
                        sender_id,
                    ) && ts == old(self).items@[k].timestamp && forall|j: int|
                        0 <= j < k ==> !lurker_matches(#[trigger] old(self).items@[j], sender_id),
                None => forall|k: int|
                    0 <= k < old(self).items@.len() ==> !lurker_matches(
                        #[trigger] old(self).items@[k],
                        sender_id,
                    ),
            },
    {
        let mut kept: Vec<LurkerRow> = Vec::new();
        let mut found: Option<i64> = None;
        let n = self.items.len();
        let mut i: usize = 0;
        proof {
            assert(self.items@.subrange(0, 0) =~= Seq::<LurkerRow>::empty());
            lemma_filter_empty(|x: LurkerRow| !lurker_matches(x, sender_id));
        }
        while i < n
            invariant
                i <= n,
                n == self.items@.len(),
                kept@ == self.items@.subrange(0, i as int).filter(
                    |x: LurkerRow| !lurker_matches(x, sender_id),
                ),
                match found {
                    Some(ts) => exists|k: int|
                        0 <= k < i && lurker_matches(#[trigger] self.items@[k], sender_id) && ts
                            == self.items@[k].timestamp && forall|j: int|
                            0 <= j < k ==> !lurker_matches(#[trigger] self.items@[j], sender_id),
                    None => forall|k: int|
                        0 <= k < i ==> !lurker_matches(#[trigger] self.items@[k], sender_id),
                },
            decreases n - i,
        {
            let ghost pre = self.items@.subrange(0, i as int);
            let row = &self.items[i];
            proof {
                assert(self.items@.subrange(0, i + 1) =~= pre.push(self.items@[i as int]));
                lemma_filter_push(
                    pre,
                    |x: LurkerRow| !lurker_matches(x, sender_id),
                    self.items@[i as int],
                );
            }
            if row.lurker_id == sender_id {
                if found.is_none() {
                    found = Some(row.timestamp);
                }
            } else {
                kept.push(LurkerRow { lurker_id: row.lurker_id, timestamp: row.timestamp });
            }
            i = i + 1;
        }
        proof {
            assert(self.items@.subrange(0, n as int) =~= self.items@);
        }
        self.items = kept;
        found
    }
}

/// One executed command, as kept for the history.
pub struct HistoryRow {
    pub sender_id: i32,
    pub sender_name: String,
    pub command: String,
    pub args: Vec<String>,
    pub elapsed_ms: u64,
    pub output: String,
    pub timestamp: i64,
}

/// The command history table.
pub struct CommandHistory {
    pub items: Vec<HistoryRow>,
}

impl CommandHistory {
    /// An empty table.
    pub fn new() -> (r: Self)
        ensures
            r.items@ == Seq::<HistoryRow>::empty(),
    {
        CommandHistory { items: Vec::new() }
    }

    /// Record one executed command.
    pub fn log_command(
        &mut self,
        sender_id: i32,
        sender_name: &str,
        command: &str,
        args: &Vec<String>,
        elapsed_ms: u64,
        output: &str,
        timestamp: i64,
    )
        ensures
            final(self).items@.len() == old(self).items@.len() + 1,
            final(self).items@.drop_last() == old(self).items@,
            final(self).items@.last().sender_id == sender_id,
            final(self).items@.last().sender_name@ == sender_name@,
            final(self).items@.last().command@ == command@,
            final(self).items@.last().args.deep_view() == args.deep_view(),
            final(self).items@.last().elapsed_ms == elapsed_ms,
            final(self).items@.last().output@ == output@,
            final(self).items@.last().timestamp == timestamp,
    {
        let mut args_copy: Vec<String> = Vec::new();
        let n = args.len();
        let mut i: usize = 0;
        while i < n
            invariant
                i <= n,
                args_copy.deep_view() == args.deep_view().subrange(0, i as int),
            decreases n - i,
        {
            args_copy.push(args[i].clone());
            proof {
                assert(args_copy.deep_view() =~= args.deep_view().subrange(0, i + 1));
            }
            i = i + 1;
        }
        proof {
            assert(args_copy.deep_view() =~= args.deep_view());
        }
        self.items.push(
            HistoryRow {
                sender_id,
                sender_name: sender_name.to_owned(),
                command: command.to_owned(),
                args: args_copy,
                elapsed_ms,
                output: output.to_owned(),
                timestamp,
            },
        );
        proof {
            assert(self.items@.drop_last() =~= old(self).items@);
        }
    }
}

/// Offline chat time credited to a user in a channel.
pub struct OfflinerRow {
    pub channel_id: i32,
    pub offliner_id: i32,
    pub seconds: u64,
}

/// The row credits this user in this channel.
pub open spec fn offliner_matches(row: OfflinerRow, channel_id: i32, offliner_id: i32) -> bool {
    row.channel_id == channel_id && row.offliner_id == offliner_id
}

/// The first row crediting the user in the channel, if any.
pub open spec fn first_offliner_index(
    rows: Seq<OfflinerRow>,
    channel_id: i32,
    offliner_id: i32,
) -> Option<int>
    decreases rows.len(),
{
    if rows.len() == 0 {
        None
    } else if offliner_matches(rows[0], channel_id, offliner_id) {
        Some(0)
    } else {
        match first_offliner_index(rows.drop_first(), channel_id, offliner_id) {
            Some(i) => Some(i + 1),
            None => None,
        }
    }
}

/// The table after crediting one polling interval: the first matching
/// row grows by sixty seconds, or a fresh row starts at sixty.
pub open spec fn upsert_minute(
    rows: Seq<OfflinerRow>,
    channel_id: i32,
    offliner_id: i32,
) -> Seq<OfflinerRow> {
    match first_offliner_index(rows, channel_id, offliner_id) {
        Some(k) => rows.update(
            k,
            OfflinerRow {
                channel_id,
                offliner_id,
                seconds: if rows[k].seconds <= u64::MAX - 60 {
                    (rows[k].seconds + 60) as u64
                } else {
                    rows[k].seconds
                },
            },
        ),
        None => rows.push(OfflinerRow { channel_id, offliner_id, seconds: 60 }),
    }
}

/// A matching row at the first matching index is the one the spec
/// lookup selects.
pub proof fn lemma_first_offliner_index_at(
    rows: Seq<OfflinerRow>,
    channel_id: i32,
    offliner_id: i32,
    i: int,
)
    requires
        0 <= i < rows.len(),
        offliner_matches(rows[i], channel_id, offliner_id),
        forall|j: int| 0 <= j < i ==> !offliner_matches(#[trigger] rows[j], channel_id, offliner_id),
    ensures
        first_offliner_index(rows, channel_id, offliner_id) == Some(i),
    decreases i,
{
    if i > 0 {
        lemma_first_offliner_index_at(rows.drop_first(), channel_id, offliner_id, i - 1);
    }
}

/// With no matching row the spec lookup finds nothing.
pub proof fn lemma_first_offliner_index_none(
    rows: Seq<OfflinerRow>,
    channel_id: i32,
    offliner_id: i32,
)
    requires
        forall|j: int|
            0 <= j < rows.len() ==> !offliner_matches(#[trigger] rows[j], channel_id, offliner_id),
    ensures
        first_offliner_index(rows, channel_id, offliner_id) is None,
    decreases rows.len(),
{
    if rows.len() > 0 {
        lemma_first_offliner_index_none(rows.drop_first(), channel_id, offliner_id);
    }
}

/// The per-channel offline-time accrual table.
pub struct Offliners {
    pub rows: Vec<OfflinerRow>,
}

impl Offliners {
    /// An empty table.
    pub fn new() -> (r: Self)
        ensures
            r.rows@ == Seq::<OfflinerRow>::empty(),
    {
        Offliners { rows: Vec::new() }
    }

    /// Credit one polling interval of offline time: a new row starts at
    /// sixty seconds, an existing row grows by sixty.
    pub fn add_offliner_minute(&mut self, channel_id: i32, offliner_id: i32)
        ensures
            final(self).rows@ == upsert_minute(old(self).rows@, channel_id, offliner_id),
    {
        let n = self.rows.len();
        let mut i: usize = 0;
        while i < n
            invariant
                i <= n,
                n == self.rows@.len(),
                self.rows@ == old(self).rows@,
                forall|j: int|
                    0 <= j < i ==> !offliner_matches(#[trigger] self.rows@[j], channel_id,
                    offliner_id),
            decreases n - i,
        {
            let row = &self.rows[i];
            if row.channel_id == channel_id && row.offliner_id == offliner_id {
                proof {
                    lemma_first_offliner_index_at(self.rows@, channel_id, offliner_id, i as int);
                }
                let secs = row.seconds;
                let grown: u64 = if secs <= u64::MAX - 60 {
                    secs + 60
                } else {
                    secs
                };
                self.rows.set(i, OfflinerRow { channel_id, offliner_id, seconds: grown });
                return ;
            }
            i = i + 1;
        }
        proof {
            lemma_first_offliner_index_none(self.rows@, channel_id, offliner_id);
        }
        self.rows.push(OfflinerRow { channel_id, offliner_id, seconds: 60 });
    }

    /// The offline seconds credited to the user in the channel, zero
    /// when none are.
    pub fn get_offline_time(&self, channel_id: i32, offliner_id: i32) -> (r: u64)
        ensures
            (exists|k: int|
                0 <= k < self.rows@.len() && offliner_matches(#[trigger] self.rows@[k], channel_id,
                offliner_id)) ==> exists|k: int|
                0 <= k < self.rows@.len() && offliner_matches(#[trigger] self.rows@[k], channel_id,
                offliner_id) && r == self.rows@[k].seconds && forall|j: int|
                    0 <= j < k ==> !offliner_matches(#[trigger] self.rows@[j], channel_id,
                    offliner_id),
            (forall|k: int|
                0 <= k < self.rows@.len() ==> !offliner_matches(#[trigger] self.rows@[k],
                channel_id, offliner_id)) ==> r == 0,
    {
        let n = self.rows.len();
        let mut i: usize = 0;
        while i < n
            invariant
                i <= n,
                forall|j: int|
                    0 <= j < i ==> !offliner_matches(#[trigger] self.rows@[j], channel_id,
                    offliner_id),
            decreases n - i,
        {
            let row = &self.rows[i];
            if row.channel_id == channel_id && row.offliner_id == offliner_id {
                return row.seconds;
            }
            i = i + 1;
        }
        0
    }
}

/// The kinds of custom channel commands.
#[derive(Clone, Copy, PartialEq, Eq, Structural, Debug)]
pub enum CommandKind {
    Template,
    Paste,
    Incrementing,
}

/// The kind a stored kind name denotes.
pub open spec fn kind_of(s: Seq<char>) -> Option<CommandKind> {
    if s == "templ"@ {
        Some(CommandKind::Template)
    } else if s == "paste"@ {
        Some(CommandKind::Paste)
    } else if s == "incr"@ {
        Some(CommandKind::Incrementing)
    } else {
        None
    }
}

impl CommandKind {
    /// Parse the stored kind name.
    pub fn from_str(s: &str) -> (r: Option<Self>)
        ensures
            r == kind_of(s@),
    {
        proof {
            reveal_strlit("templ");
            reveal_strlit("paste");
            reveal_strlit("incr");
            assert("templ"@.len() == 5);
            assert("paste"@.len() == 5);
            assert("incr"@.len() == 4);
            assert("templ"@[0] == 't' && "paste"@[0] == 'p');
        }
        if crate::text::str_eq(s, "templ") {
            Some(CommandKind::Template)
        } else if crate::text::str_eq(s, "paste") {
            Some(CommandKind::Paste)
        } else if crate::text::str_eq(s, "incr") {
            Some(CommandKind::Incrementing)
        } else {
            None
        }
    }
}

/// One custom channel command.
pub struct CmdRow {
    pub channel_id: i32,
    pub name: String,
    pub kind: CommandKind,
    pub expression: String,
    pub usage_count: u64,
}

/// The row defines this command name in this channel.
pub open spec fn cmd_matches(row: CmdRow, channel_id: i32, name: Seq<char>) -> bool {
    row.channel_id == channel_id && row.name@ == name
}

/// The per-channel custom command table.
pub struct ChannelCommands {
    pub rows: Vec<CmdRow>,
}

impl ChannelCommands {
    /// An empty table.
    pub fn new() -> (r: Self)
        ensures
            r.rows@ == Seq::<CmdRow>::empty(),
    {
        ChannelCommands { rows: Vec::new() }
    }

    /// Create a command, or replace an existing one of the same name;
    /// either way its usage count starts at zero.
    pub fn new_cmd(&mut self, channel_id: i32, cmd_name: &str, kind: CommandKind, cmd_expr: &str)
        ensures
            ({
                let rows = old(self).rows@;
                if exists|k: int|
                    0 <= k < rows.len() && cmd_matches(#[trigger] rows[k], channel_id, cmd_name@) {
                    exists|k: int|
                        0 <= k < rows.len() && cmd_matches(#[trigger] rows[k], channel_id,
                        cmd_name@) && (forall|j: int|
                            0 <= j < k ==> !cmd_matches(#[trigger] rows[j], channel_id, cmd_name@))
                            && final(self).rows@.len() == rows.len() && final(self).rows@
                            == rows.update(k, final(self).rows@[k]) && cmd_row_is(
                            final(self).rows@[k],
                            channel_id,
                            cmd_name@,
                            kind,
                            cmd_expr@,
                            0,
                        )
                } else {
                    final(self).rows@.len() == rows.len() + 1 && final(self).rows@.drop_last()
                        == rows && cmd_row_is(
                        final(self).rows@.last(),
                        channel_id,
                        cmd_name@,
                        kind,
                        cmd_expr@,
                        0,
                    )
                }
            }),
    {
        let n = self.rows.len();
        let mut i: usize = 0;
        while i < n
            invariant
                i <= n,
                n == self.rows@.len(),
                self.rows@ == old(self).rows@,
                forall|j: int|
                    0 <= j < i ==> !cmd_matches(#[trigger] self.rows@[j], channel_id, cmd_name@),
            decreases n - i,
        {
            let row = &self.rows[i];
            if row.channel_id == channel_id && crate::text::str_eq(row.name.as_str(), cmd_name) {
                self.rows.set(
                    i,
                    CmdRow {
                        channel_id,
                        name: cmd_name.to_owned(),
                        kind,
                        expression: cmd_expr.to_owned(),
                        usage_count: 0,
                    },
                );
                proof {
                    let rows = old(self).rows@;
                    assert(cmd_matches(rows[i as int], channel_id, cmd_name@));
                    assert(self.rows@ == rows.update(i as int, self.rows@[i as int]));
                    assert(cmd_row_is(self.rows@[i as int], channel_id, cmd_name@, kind,
                    cmd_expr@, 0));
                }
                return ;
            }
            i = i + 1;
        }
        self.rows.push(
            CmdRow {
                channel_id,
                name: cmd_name.to_owned(),
                kind,
                expression: cmd_expr.to_owned(),
                usage_count: 0,
            },
        );
        proof {
            assert(self.rows@.drop_last() =~= old(self).rows@);
        }
    }

    /// Look a command up and count the use: the first matching row's
    /// usage count grows by one and the incremented count is returned
    /// with the kind and expression.
    pub fn get_channel_cmd(&mut self, channel_id: i32, cmd_name: &str) -> (r: Option<
        (CommandKind, String, u64),
    >)
        ensures
            ({
                let rows = old(self).rows@;
                match r {
                    Some((kind, expr, count)) => exists|k: int|
                        0 <= k < rows.len() && cmd_matches(#[trigger] rows[k], channel_id,
                        cmd_name@) && (forall|j: int|
                            0 <= j < k ==> !cmd_matches(#[trigger] rows[j], channel_id, cmd_name@))
                            && kind == rows[k].kind && expr@ == rows[k].expression@ && count == (
                        if rows[k].usage_count < u64::MAX {
                            (rows[k].usage_count + 1) as u64
                        } else {
                            rows[k].usage_count
                        }) && final(self).rows@ == rows.update(
                            k,
                            CmdRow {
                                channel_id: rows[k].channel_id,
                                name: rows[k].name,
                                kind: rows[k].kind,
                                expression: rows[k].expression,
                                usage_count: count,
                            },
                        ),
                    None => final(self).rows@ == rows && forall|k: int|
                        0 <= k < rows.len() ==> !cmd_matches(#[trigger] rows[k], channel_id,
                        cmd_name@),
                }
            }),
    {
        let n = self.rows.len();
        let mut i: usize = 0;
        while i < n
            invariant
                i <= n,
                n == self.rows@.len(),
                self.rows@ == old(self).rows@,
                forall|j: int|
                    0 <= j < i ==> !cmd_matches(#[trigger] self.rows@[j], channel_id, cmd_name@),
            decreases n - i,
        {
            let row = &self.rows[i];
            if row.channel_id == channel_id && crate::text::str_eq(row.name.as_str(), cmd_name) {
                let kind = row.kind;
                let expr = row.expression.clone();
                let count: u64 = if row.usage_count < u64::MAX {
                    row.usage_count + 1
                } else {
                    row.usage_count
                };
                let updated = CmdRow {
                    channel_id: row.channel_id,
                    name: row.name.clone(),
                    kind: row.kind,
                    expression: row.expression.clone(),
                    usage_count: count,
                };
                self.rows.set(i, updated);
                return Some((kind, expr, count));
            }
            i = i + 1;
        }
        None
    }

    /// Delete every row defining the command in the channel, returning
    /// how many there were.
    pub fn remove_channel_command(&mut self, channel_id: i32, cmd_name: &str) -> (r: usize)
        ensures
            final(self).rows@ == old(self).rows@.filter(
                |x: CmdRow| !cmd_matches(x, channel_id, cmd_name@),
            ),
            r == old(self).rows@.len() - final(self).rows@.len(),
    {
        let mut kept: Vec<CmdRow> = Vec::new();
        let n = self.rows.len();
        let mut i: usize = 0;
        proof {
            assert(self.rows@.subrange(0, 0) =~= Seq::<CmdRow>::empty());
            lemma_filter_empty(|x: CmdRow| !cmd_matches(x, channel_id, cmd_name@));
        }
        while i < n
            invariant
                i <= n,
                n == self.rows@.len(),
                kept@ == self.rows@.subrange(0, i as int).filter(
                    |x: CmdRow| !cmd_matches(x, channel_id, cmd_name@),
                ),
            decreases n - i,
        {
            let ghost pre = self.rows@.subrange(0, i as int);
            let row = &self.rows[i];
            proof {
                assert(self.rows@.subrange(0, i + 1) =~= pre.push(self.rows@[i as int]));
                lemma_filter_push(
                    pre,
                    |x: CmdRow| !cmd_matches(x, channel_id, cmd_name@),
                    self.rows@[i as int],
                );
            }
            if !(row.channel_id == channel_id && crate::text::str_eq(row.name.as_str(), cmd_name)) {
                kept.push(
                    CmdRow {
                        channel_id: row.channel_id,
                        name: row.name.clone(),
                        kind: row.kind,
                        expression: row.expression.clone(),
                        usage_count: row.usage_count,
                    },
                );
                proof {
                    assert(kept@.last() == self.rows@[i as int]);
                }
            }
            i = i + 1;
        }
        proof {
            assert(self.rows@.subrange(0, n as int) =~= self.rows@);
            self.rows@.lemma_filter_len(|x: CmdRow| !cmd_matches(x, channel_id, cmd_name@));
        }
        let removed = self.rows.len() - kept.len();
        self.rows = kept;
        removed
    }
}

/// One logged chat message.
pub struct LogLine {
    pub channel_id: i32,
    pub sender_id: i32,
    pub sender_name: String,
    pub timestamp: i64,
    pub message: String,
}

/// The line was sent by this user in this channel.
pub open spec fn line_of(line: LogLine, channel_id: i32, sender_id: i32) -> bool {
    line.channel_id == channel_id && line.sender_id == sender_id
}

/// The raw per-channel message log.
pub struct ChatLog {
    pub lines: Vec<LogLine>,
}

impl ChatLog {
    /// An empty log.
    pub fn new() -> (r: Self)
        ensures
            r.lines@ == Seq::<LogLine>::empty(),
    {
        ChatLog { lines: Vec::new() }
    }

    /// Record one inbound message.
    pub fn log(
        &mut self,
        channel_id: i32,
        sender_id: i32,
        sender_name: &str,
        timestamp: i64,
        message: &str,
    )
        ensures
            final(self).lines@.len() == old(self).lines@.len() + 1,
            final(self).lines@.drop_last() == old(self).lines@,
            final(self).lines@.last().channel_id == channel_id,
            final(self).lines@.last().sender_id == sender_id,
            final(self).lines@.last().sender_name@ == sender_name@,
            final(self).lines@.last().timestamp == timestamp,
            final(self).lines@.last().message@ == message@,
    {
        self.lines.push(
            LogLine {
                channel_id,
                sender_id,
                sender_name: sender_name.to_owned(),
                timestamp,
                message: message.to_owned(),
            },
        );
        proof {
            assert(self.lines@.drop_last() =~= old(self).lines@);
        }
    }

    /// The first logged message of the user in the channel.
    pub fn get_first_message(&self, sender_id: i32, channel_id: i32) -> (r: Option<String>)
        ensures
            match r {
                Some(v) => exists|k: int|
                    0 <= k < self.lines@.len() && line_of(#[trigger] self.lines@[k], channel_id,
                    sender_id) && v@ == self.lines@[k].message@ && forall|j: int|
                        0 <= j < k ==> !line_of(#[trigger] self.lines@[j], channel_id, sender_id),
                None => forall|k: int|
                    0 <= k < self.lines@.len() ==> !line_of(#[trigger] self.lines@[k], channel_id,
                    sender_id),
            },
    {
        let n = self.lines.len();
        let mut i: usize = 0;
        while i < n
            invariant
                i <= n,
                forall|j: int|
                    0 <= j < i ==> !line_of(#[trigger] self.lines@[j], channel_id, sender_id),
            decreases n - i,
        {
            let line = &self.lines[i];
            if line.channel_id == channel_id && line.sender_id == sender_id {
                return Some(line.message.clone());
            }
            i = i + 1;
        }
        None
    }

    /// When the user was last seen in the channel: the greatest logged
    /// timestamp of their messages there.
    pub fn latest_message_date(&self, channel_id: i32, sender_id: i32) -> (r: Option<i64>)
        ensures
            match r {
                Some(t) => (exists|k: int|
                    0 <= k < self.lines@.len() && line_of(#[trigger] self.lines@[k], channel_id,
                    sender_id) && self.lines@[k].timestamp == t) && forall|k: int|
                    0 <= k < self.lines@.len() && line_of(#[trigger] self.lines@[k], channel_id,
                    sender_id) ==> self.lines@[k].timestamp <= t,
                None => forall|k: int|
                    0 <= k < self.lines@.len() ==> !line_of(#[trigger] self.lines@[k], channel_id,
                    sender_id),
            },
    {
        let n = self.lines.len();
        let mut i: usize = 0;
        let mut best: Option<i64> = None;
        while i < n
            invariant
                i <= n,
                match best {
                    Some(t) => (exists|k: int|
                        0 <= k < i && line_of(#[trigger] self.lines@[k], channel_id, sender_id)
                            && self.lines@[k].timestamp == t) && forall|k: int|
                        0 <= k < i && line_of(#[trigger] self.lines@[k], channel_id, sender_id)
                            ==> self.lines@[k].timestamp <= t,
                    None => forall|k: int|
                        0 <= k < i ==> !line_of(#[trigger] self.lines@[k], channel_id, sender_id),
                },
            decreases n - i,
        {
            let line = &self.lines[i];
            if line.channel_id == channel_id && line.sender_id == sender_id {
                best = match best {
                    Some(t) => if line.timestamp > t {
                        Some(line.timestamp)
                    } else {
                        Some(t)
                    },
                    None => Some(line.timestamp),
                };
            }
            i = i + 1;
        }
        best
    }

    /// The line counts behind the word-ratio command: how many of the
    /// user's logged non-command messages in the channel contain the
    /// word, and how many there are in all. A command is a message that
    /// starts with the prefix character.
    pub fn word_ratio_counts(
        &self,
        channel_id: i32,
        sender_id: i32,
        word: &str,
        cmd_prefix: char,
    ) -> (r: (usize, usize))
        ensures
            r.0 == self.lines@.filter(
                |l: LogLine|
                    line_of(l, channel_id, sender_id) && crate::text::has_substr(l.message@, word@)
                        && !(l.message@.len() > 0 && l.message@[0] == cmd_prefix),
            ).len(),
            r.1 == self.lines@.filter(
                |l: LogLine|
                    line_of(l, channel_id, sender_id) && !(l.message@.len() > 0 && l.message@[0]
                        == cmd_prefix),
            ).len(),
    {
        let n = self.lines.len();
        let mut i: usize = 0;
        let mut with_count: usize = 0;
        let mut total_count: usize = 0;
        proof {
            assert(self.lines@.subrange(0, 0) =~= Seq::<LogLine>::empty());
            lemma_filter_empty(
                |l: LogLine|
                    line_of(l, channel_id, sender_id) && crate::text::has_substr(l.message@, word@)
                        && !(l.message@.len() > 0 && l.message@[0] == cmd_prefix),
            );
            lemma_filter_empty(
                |l: LogLine|
                    line_of(l, channel_id, sender_id) && !(l.message@.len() > 0 && l.message@[0]
                        == cmd_prefix),
            );
        }
        while i < n
            invariant
                i <= n,
                n == self.lines@.len(),
                with_count == self.lines@.subrange(0, i as int).filter(
                    |l: LogLine|
                        line_of(l, channel_id, sender_id) && crate::text::has_substr(
                            l.message@,
                            word@,
                        ) && !(l.message@.len() > 0 && l.message@[0] == cmd_prefix),
                ).len(),
                total_count == self.lines@.subrange(0, i as int).filter(
                    |l: LogLine|
                        line_of(l, channel_id, sender_id) && !(l.message@.len() > 0 && l.message@[0]
                            == cmd_prefix),
                ).len(),
                with_count <= i,
                total_count <= i,
            decreases n - i,
        {
            let ghost pre = self.lines@.subrange(0, i as int);
            let line = &self.lines[i];
            proof {
                assert(self.lines@.subrange(0, i + 1) =~= pre.push(self.lines@[i as int]));
                lemma_filter_push(
                    pre,
                    |l: LogLine|
                        line_of(l, channel_id, sender_id) && crate::text::has_substr(
                            l.message@,
                            word@,
                        ) && !(l.message@.len() > 0 && l.message@[0] == cmd_prefix),
                    self.lines@[i as int],
                );
                lemma_filter_push(
                    pre,
                    |l: LogLine|
                        line_of(l, channel_id, sender_id) && !(l.message@.len() > 0 && l.message@[0]
                            == cmd_prefix),
                    self.lines@[i as int],
                );
            }
            if line.channel_id == channel_id && line.sender_id == sender_id {
                let mlen = line.message.as_str().unicode_len();
                let is_command = mlen > 0 && line.message.as_str().get_char(0) == cmd_prefix;
                if !is_command {
                    total_count = total_count + 1;
                    if crate::text::contains_substr(line.message.as_str(), word) {
                        with_count = with_count + 1;
                    }
                }
            }
            i = i + 1;
        }
        proof {
            assert(self.lines@.subrange(0, n as int) =~= self.lines@);
        }
        (with_count, total_count)
    }
}

/// The row has these fields.
pub open spec fn cmd_row_is(
    row: CmdRow,
    channel_id: i32,
    name: Seq<char>,
    kind: CommandKind,
    expression: Seq<char>,
    usage_count: u64,
) -> bool {
    row.channel_id == channel_id && row.name@ == name && row.kind == kind && row.expression@
        == expression && row.usage_count == usage_count
}

} // verus!

//! The command dispatcher: the bot's shared state, the recursive
//! resolution of an invocation to a handler, and the pipe, demultiplex
//! and bench composition operators.
//!
//! The engine is synchronous. Work only the runtime can do — a network
//! lookup, an upload, a fetched trivia question — is returned as an
//! [`ExtRequest`]; the caller performs it, appends the answer to the
//! list it passes in, and dispatches the same invocation again.

use vstd::prelude::*;

use crate::cache::{EmoteCache, NameIdCache};
use crate::fmt::fmt_duration;
use crate::markov::MarkovTable;
use crate::models::{Data2___, HolyBook as VerseInfo, IPGeolocationResponse, TriviaQuestion};
use crate::options::HolyBook;
use crate::store::{
    AliasStore, ChannelCommands, ChatLog, CommandHistory, CommandKind, Explanations, Lurkers,
    Offliners, Reminder, ReminderStore, Suggestions,
};
use crate::text::{
    dec_rep, dec_rep_signed, digits_val, is_dec_digit, join_char, join_with, lower_of, lowercase,
    parse_u64, split_char, str_eq, u64_to_string,
};
use crate::trivia::ChannelStateStore;
use crate::types::{Channel, CommandSource, MyError, Sender};

verus! {

/// Work the engine asks the runtime to perform: each request is an
/// independent, stateless, fallible call against an external
/// collaborator, or a multi-line message only the runtime can pace.
pub enum ExtRequest {
    /// Resolve an account name to its numeric id.
    ResolveId(String),
    /// Fetch a trivia question for the category, difficulty and type
    /// indexes.
    FetchTrivia(String, String, String),
    /// Upload text to the paste service and return its address.
    Paste(String),
    /// A weather report for the location, already rendered.
    Weather(String),
    /// The introduction extract of the encyclopedia article.
    Wiki(String),
    /// A dictionary definition of the word, already rendered.
    Define(String),
    /// A crowd-sourced definition of the term, already rendered.
    Urban(String),
    /// The local time of the location.
    TimeQuery(String),
    /// An answer to a generic question.
    QueryGeneric(String),
    /// The bundled copypasta list.
    Pasta,
    /// An inspirational image address.
    Inspire,
    /// The top posts of the subreddit within the relevancy window.
    Reddit(String, String),
    /// A verse from the given book.
    Verse(HolyBook),
    /// When the account was created.
    AccCreation(String),
    /// When the user followed the channel: (channel id, user id).
    Followage(i32, i32),
    /// When the channel's running stream started, if it is live.
    StreamInfo(String),
    /// The chatter names currently in the channel.
    Chatters(String),
    /// The account name of a numeric id.
    NickFromId(i32),
    /// Speak these lines one by one, paced by a non-blocking timer.
    SayLines(Vec<String>),
    /// Evaluate the binomial-probability command over these arguments;
    /// the evaluation uses floating point, which the library does not
    /// hold.
    Binomial(Vec<String>),
}

/// The runtime's answer to one request.
pub enum ExtResponse {
    MaybeId(Option<i32>),
    Trivia(Option<TriviaQuestion>),
    Text(String),
    MaybeText(Option<String>),
    MaybeTime(Option<IPGeolocationResponse>),
    Texts(Vec<String>),
    MaybePosts(Option<Vec<Data2___>>),
    MaybeVerse(Option<VerseInfo>),
    MaybeStamp(Option<i64>),
    MaybeNames(Option<Vec<String>>),
    Ack,
}

/// Two requests ask for the same thing.
pub open spec fn req_eq_spec(a: ExtRequest, b: ExtRequest) -> bool {
    match (a, b) {
        (ExtRequest::ResolveId(x), ExtRequest::ResolveId(y)) => x@ == y@,
        (ExtRequest::FetchTrivia(c1, d1, t1), ExtRequest::FetchTrivia(c2, d2, t2)) => c1@ == c2@
            && d1@ == d2@ && t1@ == t2@,
        (ExtRequest::Paste(x), ExtRequest::Paste(y)) => x@ == y@,
        (ExtRequest::Weather(x), ExtRequest::Weather(y)) => x@ == y@,
        (ExtRequest::Wiki(x), ExtRequest::Wiki(y)) => x@ == y@,
        (ExtRequest::Define(x), ExtRequest::Define(y)) => x@ == y@,
        (ExtRequest::Urban(x), ExtRequest::Urban(y)) => x@ == y@,
        (ExtRequest::TimeQuery(x), ExtRequest::TimeQuery(y)) => x@ == y@,
        (ExtRequest::QueryGeneric(x), ExtRequest::QueryGeneric(y)) => x@ == y@,
        (ExtRequest::Pasta, ExtRequest::Pasta) => true,
        (ExtRequest::Inspire, ExtRequest::Inspire) => true,
        (ExtRequest::Reddit(s1, r1), ExtRequest::Reddit(s2, r2)) => s1@ == s2@ && r1@ == r2@,
        (ExtRequest::Verse(x), ExtRequest::Verse(y)) => x == y,
        (ExtRequest::AccCreation(x), ExtRequest::AccCreation(y)) => x@ == y@,
        (ExtRequest::Followage(c1, u1), ExtRequest::Followage(c2, u2)) => c1 == c2 && u1 == u2,
        (ExtRequest::StreamInfo(x), ExtRequest::StreamInfo(y)) => x@ == y@,
        (ExtRequest::Chatters(x), ExtRequest::Chatters(y)) => x@ == y@,
        (ExtRequest::NickFromId(x), ExtRequest::NickFromId(y)) => x == y,
        (ExtRequest::SayLines(x), ExtRequest::SayLines(y)) => x.deep_view() == y.deep_view(),
        (ExtRequest::Binomial(x), ExtRequest::Binomial(y)) => x.deep_view() == y.deep_view(),
        _ => false,
    }
}

/// Two string lists hold the same texts.
fn string_vec_eq(a: &Vec<String>, b: &Vec<String>) -> (r: bool)
    ensures
        r == (a.deep_view() == b.deep_view()),
{
    let n = a.len();
    if n != b.len() {
        proof {
            assert(a.deep_view().len() != b.deep_view().len());
        }
        return false;
    }
    let mut i: usize = 0;
    while i < n
        invariant
            i <= n,
            n == a@.len() == b@.len(),
            forall|j: int| 0 <= j < i ==> a.deep_view()[j] == b.deep_view()[j],
        decreases n - i,
    {
        if !str_eq(a[i].as_str(), b[i].as_str()) {
            proof {
                assert(a.deep_view()[i as int] == a@[i as int]@);
                assert(b.deep_view()[i as int] == b@[i as int]@);
            }
            return false;
        }
        proof {
            assert(a.deep_view()[i as int] == a@[i as int]@);
            assert(b.deep_view()[i as int] == b@[i as int]@);
        }
        i = i + 1;
    }
    proof {
        assert(a.deep_view() =~= b.deep_view());
    }
    true
}

/// Test whether two requests ask for the same thing.
pub fn req_matches(a: &ExtRequest, b: &ExtRequest) -> (r: bool)
    ensures
        r == req_eq_spec(*a, *b),
{
    match (a, b) {
        (ExtRequest::ResolveId(x), ExtRequest::ResolveId(y)) => str_eq(x.as_str(), y.as_str()),
        (ExtRequest::FetchTrivia(c1, d1, t1), ExtRequest::FetchTrivia(c2, d2, t2)) => str_eq(
            c1.as_str(),
            c2.as_str(),
        ) && str_eq(d1.as_str(), d2.as_str()) && str_eq(t1.as_str(), t2.as_str()),
        (ExtRequest::Paste(x), ExtRequest::Paste(y)) => str_eq(x.as_str(), y.as_str()),
        (ExtRequest::Weather(x), ExtRequest::Weather(y)) => str_eq(x.as_str(), y.as_str()),
        (ExtRequest::Wiki(x), ExtRequest::Wiki(y)) => str_eq(x.as_str(), y.as_str()),
        (ExtRequest::Define(x), ExtRequest::Define(y)) => str_eq(x.as_str(), y.as_str()),
        (ExtRequest::Urban(x), ExtRequest::Urban(y)) => str_eq(x.as_str(), y.as_str()),
        (ExtRequest::TimeQuery(x), ExtRequest::TimeQuery(y)) => str_eq(x.as_str(), y.as_str()),
        (ExtRequest::QueryGeneric(x), ExtRequest::QueryGeneric(y)) => str_eq(
            x.as_str(),
            y.as_str(),
        ),
        (ExtRequest::Pasta, ExtRequest::Pasta) => true,
        (ExtRequest::Inspire, ExtRequest::Inspire) => true,
        (ExtRequest::Reddit(s1, r1), ExtRequest::Reddit(s2, r2)) => str_eq(s1.as_str(), s2.as_str())
            && str_eq(r1.as_str(), r2.as_str()),
        (ExtRequest::Verse(x), ExtRequest::Verse(y)) => *x == *y,
        (ExtRequest::AccCreation(x), ExtRequest::AccCreation(y)) => str_eq(x.as_str(), y.as_str()),
        (ExtRequest::Followage(c1, u1), ExtRequest::Followage(c2, u2)) => *c1 == *c2 && *u1 == *u2,
        (ExtRequest::StreamInfo(x), ExtRequest::StreamInfo(y)) => str_eq(x.as_str(), y.as_str()),
        (ExtRequest::Chatters(x), ExtRequest::Chatters(y)) => str_eq(x.as_str(), y.as_str()),
        (ExtRequest::NickFromId(x), ExtRequest::NickFromId(y)) => *x == *y,
        (ExtRequest::SayLines(x), ExtRequest::SayLines(y)) => string_vec_eq(x, y),
        (ExtRequest::Binomial(x), ExtRequest::Binomial(y)) => string_vec_eq(x, y),
        _ => false,
    }
}

/// The answers the runtime has collected for this dispatch attempt.
pub type Fetched = Vec<(ExtRequest, ExtResponse)>;

/// The request has an answer in the list.
pub open spec fn is_fetched(fetched: Seq<(ExtRequest, ExtResponse)>, req: ExtRequest) -> bool {
    exists|k: int| 0 <= k < fetched.len() && req_eq_spec((#[trigger] fetched[k]).0, req)
}

/// The answer the engine reads for a request: the response of the first
/// entry asking for the same thing.
pub open spec fn response_for(
    fetched: Seq<(ExtRequest, ExtResponse)>,
    req: ExtRequest,
) -> Option<ExtResponse>
    decreases fetched.len(),
{
    if fetched.len() == 0 {
        None
    } else if req_eq_spec(fetched[0].0, req) {
        Some(fetched[0].1)
    } else {
        response_for(fetched.drop_first(), req)
    }
}

/// The first matching entry is the one the spec lookup reads.
proof fn lemma_response_for_at(fetched: Seq<(ExtRequest, ExtResponse)>, req: ExtRequest, i: int)
    requires
        0 <= i < fetched.len(),
        req_eq_spec(fetched[i].0, req),
        forall|j: int| 0 <= j < i ==> !req_eq_spec((#[trigger] fetched[j]).0, req),
    ensures
        response_for(fetched, req) == Some(fetched[i].1),
    decreases i,
{
    if i > 0 {
        lemma_response_for_at(fetched.drop_first(), req, i - 1);
    }
}

/// With no matching entry the spec lookup reads nothing.
proof fn lemma_response_for_none(fetched: Seq<(ExtRequest, ExtResponse)>, req: ExtRequest)
    requires
        forall|j: int| 0 <= j < fetched.len() ==> !req_eq_spec((#[trigger] fetched[j]).0, req),
    ensures
        response_for(fetched, req) is None,
    decreases fetched.len(),
{
    if fetched.len() > 0 {
        lemma_response_for_none(fetched.drop_first(), req);
    }
}

/// A request no entry answers reads nothing.
proof fn lemma_response_for_none_from_unfetched(
    fetched: Seq<(ExtRequest, ExtResponse)>,
    req: ExtRequest,
)
    requires
        !is_fetched(fetched, req),
    ensures
        response_for(fetched, req) is None,
    decreases fetched.len(),
{
    if fetched.len() > 0 {
        assert(!req_eq_spec(fetched[0].0, req));
        assert forall|k: int| 0 <= k < fetched.drop_first().len() implies !req_eq_spec(
            (#[trigger] fetched.drop_first()[k]).0,
            req,
        ) by {
            assert(fetched.drop_first()[k] == fetched[k + 1]);
        }
        lemma_response_for_none_from_unfetched(fetched.drop_first(), req);
    }
}

/// Requests that ask for the same thing read the same answer.
proof fn lemma_response_for_congruent(
    fetched: Seq<(ExtRequest, ExtResponse)>,
    a: ExtRequest,
    b: ExtRequest,
)
    requires
        req_eq_spec(a, b),
    ensures
        response_for(fetched, a) == response_for(fetched, b),
    decreases fetched.len(),
{
    if fetched.len() > 0 {
        assert(req_eq_spec(fetched[0].0, a) == req_eq_spec(fetched[0].0, b));
        lemma_response_for_congruent(fetched.drop_first(), a, b);
    }
}

/// Find the first answer to the request.
fn find_response(fetched: &Fetched, req: &ExtRequest) -> (r: Option<usize>)
    ensures
        match r {
            Some(k) => k < fetched@.len() && req_eq_spec(fetched@[k as int].0, *req)
                && response_for(fetched@, *req) == Some(fetched@[k as int].1),
            None => !is_fetched(fetched@, *req) && response_for(fetched@, *req) is None,
        },
{
    let n = fetched.len();
    let mut i: usize = 0;
    while i < n
        invariant
            i <= n,
            forall|j: int| 0 <= j < i ==> !req_eq_spec((#[trigger] fetched@[j]).0, *req),
        decreases n - i,
    {
        if req_matches(&fetched[i].0, req) {
            proof {
                lemma_response_for_at(fetched@, *req, i as int);
            }
            return Some(i);
        }
        i = i + 1;
    }
    proof {
        lemma_response_for_none(fetched@, *req);
    }
    None
}

/// What one dispatch attempt produced: a finished result (text to
/// speak, or nothing), or a request the runtime must answer before
/// dispatching the same invocation again.
pub enum Dispatched {
    Done(Option<String>),
    Need(ExtRequest),
}

/// The message-length limit of the hosting service: longer outgoing
/// text is cut.
pub const MESSAGE_LIMIT: usize = 500;

/// The outgoing text, cut to the message-length limit.
pub open spec fn truncated(s: Seq<char>) -> Seq<char> {
    if s.len() > MESSAGE_LIMIT {
        s.subrange(0, MESSAGE_LIMIT as int)
    } else {
        s
    }
}

/// Cut outgoing text to the message-length limit.
pub fn truncate_message(s: String) -> (r: String)
    ensures
        r@ == truncated(s@),
{
    let len = s.as_str().unicode_len();
    if len > MESSAGE_LIMIT {
        s.as_str().substring_char(0, MESSAGE_LIMIT).to_owned()
    } else {
        s
    }
}

/// The configuration the bot is constructed with.
pub struct BotConfig {
    /// The channels the bot joins, by name.
    pub channels: Vec<String>,
    /// Users the bot ignores, lowercased.
    pub disregarded_users: Vec<String>,
    /// The address of the command reference.
    pub commands_reference_path: String,
    /// Whether chat is indexed into the text model.
    pub index_markov: bool,
    /// Whether offline chat time is accrued.
    pub track_offliners: bool,
    /// The command prefix character.
    pub prefix: char,
    /// When the process started, in seconds since the epoch.
    pub startup_time: i64,
}

/// The dispatcher with all the state it routes commands over.
pub struct Bot {
    pub config: BotConfig,
    pub name_id_cache: NameIdCache,
    pub emote_cache: EmoteCache,
    pub channel_states: ChannelStateStore,
    pub markov: MarkovTable,
    pub commands: ChannelCommands,
    pub aliases: AliasStore,
    pub reminders: ReminderStore,
    pub lurkers: Lurkers,
    pub suggestions: Suggestions,
    pub explanations: Explanations,
    pub offliners: Offliners,
    pub chat_log: ChatLog,
    pub history: CommandHistory,
}

/// Flip a coin and report the side.
pub fn coinflip() -> (r: String)
    ensures
        r@ == "Tails!"@ || r@ == "Heads!"@,
{
    let side = crate::rng::rand_below(2);
    if side == 0 {
        "Tails!".to_owned()
    } else {
        "Heads!".to_owned()
    }
}

/// Every binding the cache holds keeps resolving to the same id: the
/// operations between two states only appended fresh entries.
pub open spec fn bindings_kept(
    pre: Seq<crate::cache::NameIdEntry>,
    post: Seq<crate::cache::NameIdEntry>,
) -> bool {
    forall|n: Seq<char>| #[trigger] cached_id(pre, n) is Some ==> cached_id(post, n) == cached_id(
        pre,
        n,
    )
}

/// The count argument of the sampling command parses: a nonempty run
/// of digits whose value fits the count type.
pub open spec fn markov_count_parses(n: Seq<char>) -> bool {
    n.len() > 0 && (forall|j: int| 0 <= j < n.len() ==> is_dec_digit(#[trigger] n[j]))
        && digits_val(n) <= u64::MAX
}

/// The number of sampling rounds the arguments ask for: seven when no
/// count is given, otherwise the count clamped into one to one hundred.
pub open spec fn markov_rounds(args: Seq<Seq<char>>) -> int {
    if args.len() == 1 {
        7
    } else {
        let n = digits_val(args[1]);
        if n < 1 {
            1
        } else if n > 100 {
            100
        } else {
            n as int
        }
    }
}

/// What the echo command answers: the arguments as given for a
/// privileged sender, the rejection otherwise.
pub open spec fn echo_spec(cmd: CommandSource) -> Seq<char> {
    echo_output(cmd.sender.statuses@, cmd.args.deep_view())
}

/// The echo reply as a function of the sender's badges and the
/// arguments alone.
pub open spec fn echo_output(statuses: Seq<crate::types::TwitchBadge>, args: Seq<Seq<char>>) -> Seq<
    char,
> {
    if crate::types::is_mvb_spec(statuses) {
        join_with(args, ' ')
    } else {
        "\u{274C} requires MVB privileges | E4"@
    }
}

/// What a dispatched sub-invocation is known to answer, as a function
/// of its name, arguments and sender alone: the dispatcher's contract
/// pins the echo command, so a composition operator that dispatches an
/// echo stage knows the stage's exact output. Other commands leave the
/// value unconstrained here; their own contracts speak at the
/// dispatcher.
pub open spec fn sub_output_law(
    name: Seq<char>,
    args: Seq<Seq<char>>,
    statuses: Seq<crate::types::TwitchBadge>,
    is_pipe: bool,
    v: Option<Seq<char>>,
) -> bool {
    name == "echo"@ ==> v == Some(
        if is_pipe {
            echo_output(statuses, args)
        } else {
            truncated(echo_output(statuses, args))
        },
    )
}

/// The trimmed text of a pipe stage.
pub open spec fn stage_tokens(stage: Seq<char>) -> Seq<Seq<char>> {
    crate::text::split_spec(crate::text::trim_spec(stage), ' ')
}

/// The command name a stage or expansion token denotes: the token with
/// the prefix character removed when it carries one.
pub open spec fn token_command_name(token: Seq<char>, prefix: char) -> Seq<char> {
    if token.len() > 0 && token[0] == prefix {
        token.skip(1)
    } else {
        token
    }
}

/// The stage is one of the local transform verbs.
pub open spec fn is_transform_verb(t: Seq<char>) -> bool {
    t == "lower"@ || t == "upper"@ || t == "stdout"@ || t == "/dev/null"@ || t == "devnull"@
}

/// The answer the runtime gave to uploading this text: the response of
/// the first entry asking to paste it.
pub open spec fn paste_response(
    fetched: Seq<(ExtRequest, ExtResponse)>,
    text: Seq<char>,
) -> Option<ExtResponse>
    decreases fetched.len(),
{
    if fetched.len() == 0 {
        None
    } else if fetched[0].0 matches ExtRequest::Paste(s) && s@ == text {
        Some(fetched[0].1)
    } else {
        paste_response(fetched.drop_first(), text)
    }
}

/// The address an answered upload yields; a missing or malformed answer
/// yields the empty accumulator.
pub open spec fn paste_url(fetched: Seq<(ExtRequest, ExtResponse)>, text: Seq<char>) -> Seq<char> {
    match paste_response(fetched, text) {
        Some(ExtResponse::Text(u)) => u@,
        _ => Seq::empty(),
    }
}

/// The accumulator after the first `i` pipe stages: transform verbs map
/// it, an answered upload replaces it by the address, and an ordinary
/// stage replaces it outright by that stage's own output — the stage
/// never reads it.
pub open spec fn pipe_fold(
    stages: Seq<Seq<char>>,
    vals: Seq<Option<Seq<char>>>,
    fetched: Seq<(ExtRequest, ExtResponse)>,
    i: int,
) -> Seq<char>
    decreases i,
{
    if i <= 0 {
        Seq::empty()
    } else {
        let acc = pipe_fold(stages, vals, fetched, i - 1);
        let t = crate::text::trim_spec(stages[i - 1]);
        if t == "pastebin"@ {
            paste_url(fetched, acc)
        } else if t == "lower"@ {
            lower_of(acc)
        } else if t == "upper"@ {
            crate::text::upper_of(acc)
        } else if t == "stdout"@ {
            acc
        } else if t == "/dev/null"@ || t == "devnull"@ {
            Seq::empty()
        } else {
            match vals[i - 1] {
                Some(x) => x,
                None => Seq::empty(),
            }
        }
    }
}

/// The fold reads only the first `i` stage outputs.
proof fn lemma_pipe_fold_prefix(
    stages: Seq<Seq<char>>,
    vals1: Seq<Option<Seq<char>>>,
    vals2: Seq<Option<Seq<char>>>,
    fetched: Seq<(ExtRequest, ExtResponse)>,
    i: int,
)
    requires
        forall|j: int| 0 <= j < i ==> vals1[j] == vals2[j],
    ensures
        pipe_fold(stages, vals1, fetched, i) == pipe_fold(stages, vals2, fetched, i),
    decreases i,
{
    if i > 0 {
        lemma_pipe_fold_prefix(stages, vals1, vals2, fetched, i - 1);
    }
}

/// The two spec lookups for an upload agree.
proof fn lemma_paste_response_is_response_for(
    fetched: Seq<(ExtRequest, ExtResponse)>,
    req: ExtRequest,
    text: Seq<char>,
)
    requires
        req matches ExtRequest::Paste(s) && s@ == text,
    ensures
        paste_response(fetched, text) == response_for(fetched, req),
    decreases fetched.len(),
{
    if fetched.len() > 0 {
        lemma_paste_response_is_response_for(fetched.drop_first(), req, text);
    }
}

/// Say whatever the caller said; requires mod, VIP or broadcaster
/// standing.
pub fn echo(cmd: &CommandSource) -> (r: String)
    ensures
        r@ == echo_spec(*cmd),
{
    if cmd.sender.is_mvb() {
        join_char(&cmd.args, ' ')
    } else {
        "\u{274C} requires MVB privileges | E4".to_owned()
    }
}

/// What the ping command answers: the liveness reply, with the process
/// uptime when the invocation time is not before startup.
pub open spec fn ping_spec(startup_time: int, now: int) -> Seq<char> {
    if now >= startup_time {
        let diff = if now - startup_time <= u64::MAX {
            (now - startup_time) as nat
        } else {
            u64::MAX as nat
        };
        "Pong! | uptime: "@ + crate::fmt::fmt_duration_spec(diff, false)
    } else {
        "Pong!"@
    }
}

/// The rendering of a custom command: a template substitutes its
/// positional `{1}`, `{2}`, ... markers with the arguments in order, a
/// paste is returned verbatim, and an incrementing command substitutes
/// `{}` with its already-incremented usage count.
pub open spec fn rendered_command(
    kind: CommandKind,
    expr: Seq<char>,
    args: Seq<Seq<char>>,
    count: u64,
) -> Seq<char> {
    match kind {
        CommandKind::Template => render_template(expr, args, 0),
        CommandKind::Paste => expr,
        CommandKind::Incrementing => crate::text::replaced(expr, "{}"@, dec_rep(count as nat)),
    }
}

/// The template text after substituting the markers of the arguments
/// from position `i` on.
pub open spec fn render_template(expr: Seq<char>, args: Seq<Seq<char>>, i: int) -> Seq<char>
    decreases args.len() - i,
{
    if i < 0 || i >= args.len() {
        expr
    } else {
        render_template(
            crate::text::replaced(expr, seq!['{'] + dec_rep((i + 1) as nat) + seq!['}'], args[i]),
            args,
            i + 1,
        )
    }
}

impl Bot {
    /// Answer the liveness check with the process uptime.
    pub fn ping(&self, cmd: &CommandSource) -> (r: String)
        ensures
            r@ == ping_spec(self.config.startup_time as int, cmd.timestamp as int),
    {
        if cmd.timestamp >= self.config.startup_time {
            let wide: i128 = (cmd.timestamp as i128) - (self.config.startup_time as i128);
            let elapsed: u64 = if wide <= u64::MAX as i128 {
                wide as u64
            } else {
                u64::MAX
            };
            let mut out = "Pong! | uptime: ".to_owned();
            let dur = fmt_duration(elapsed, false);
            out.append(dur.as_str());
            out
        } else {
            "Pong!".to_owned()
        }
    }

    /// Point at the command reference.
    pub fn get_commands_reference_link(&self) -> (r: String)
        ensures
            r@ == "\u{1F6E0}\u{FE0F} "@ + self.config.commands_reference_path@,
    {
        let mut out = "\u{1F6E0}\u{FE0F} ".to_owned();
        out.append(self.config.commands_reference_path.as_str());
        out
    }

    /// Go AFK: record when the sender left.
    pub fn set_lurk_status(&mut self, cmd: &CommandSource) -> (r: String)
        ensures
            final(self).history.items@ == old(self).history.items@,
            final(self).name_id_cache == old(self).name_id_cache,
            final(self).lurkers.items@.len() == old(self).lurkers.items@.len() + 1,
            final(self).lurkers.items@.drop_last() == old(self).lurkers.items@,
            final(self).lurkers.items@.last() == (crate::store::LurkerRow {
                lurker_id: cmd.sender.id,
                timestamp: cmd.timestamp,
            }),
            r@ == cmd.sender.name@ + " is now AFK"@,
    {
        self.lurkers.set_lurk_status(cmd.sender.id, cmd.timestamp);
        let mut out = cmd.sender.name.clone();
        out.append(" is now AFK");
        out
    }

    /// Save a suggestion for later reading.
    pub fn suggest(&mut self, cmd: &CommandSource) -> (r: String)
        ensures
            final(self).history.items@ == old(self).history.items@,
            final(self).name_id_cache == old(self).name_id_cache,
            cmd.args@.len() == 0 ==> r@ == "\u{274C} no message"@ && final(self).suggestions.items@
                == old(self).suggestions.items@,
            cmd.args@.len() > 0 ==> r@ == "\u{2705} suggestion saved"@ && final(self).suggestions.items@.len() == old(self).suggestions.items@.len() + 1 && final(self).suggestions.items@.last().text@ == join_with(cmd.args.deep_view(), ' '),
    {
        if cmd.args.len() == 0 {
            return "\u{274C} no message".to_owned();
        }
        let text = join_char(&cmd.args, ' ');
        self.suggestions.save_suggestion(
            cmd.sender.id,
            cmd.sender.name.as_str(),
            text.as_str(),
            cmd.timestamp,
        );
        "\u{2705} suggestion saved".to_owned()
    }

    /// Explain a stored error code.
    pub fn explain(&self, cmd: &CommandSource) -> (r: String)
        ensures
            cmd.args@.len() == 0 ==> r@ == "\u{274C} no such explanation"@,
            cmd.args@.len() > 0 ==> ({
                let items = self.explanations.items@;
                let code = cmd.args.deep_view()[0];
                (exists|k: int|
                    0 <= k < items.len() && crate::store::explanation_matches(#[trigger] items[k],
                    code) && r@ == items[k].message@ && forall|j: int|
                        0 <= j < k ==> !crate::store::explanation_matches(#[trigger] items[j],
                        code)) || ((forall|k: int|
                    0 <= k < items.len() ==> !crate::store::explanation_matches(#[trigger] items[k],
                    code)) && r@ == "no such error code"@)
            }),
    {
        match cmd.args.get(0) {
            Some(code) => self.explanations.get_explanation(code.as_str()),
            None => "\u{274C} no such explanation".to_owned(),
        }
    }

    /// Create an alias of the sender's own.
    pub fn set_alias(&mut self, cmd: &CommandSource) -> (r: String)
        ensures
            final(self).history.items@ == old(self).history.items@,
            final(self).name_id_cache == old(self).name_id_cache,
            cmd.args@.len() == 0 ==> r@ == "\u{274C} no alias name provided"@ && final(self).aliases.items@ == old(self).aliases.items@,
            cmd.args@.len() == 1 ==> r@ == "\u{274C} no alias command provided"@ && final(self).aliases.items@ == old(self).aliases.items@,
            cmd.args@.len() >= 2 ==> r@ == "\u{2705} alias created"@ && final(self).aliases.items@.len() == old(self).aliases.items@.len() + 1 && final(self).aliases.items@.drop_last() == old(self).aliases.items@ && crate::store::alias_matches(
                final(self).aliases.items@.last(),
                cmd.sender.id,
                cmd.args.deep_view()[0],
            ) && final(self).aliases.items@.last().expansion@ == join_with(
                cmd.args.deep_view().drop_first(),
                ' ',
            ),
    {
        if cmd.args.len() == 0 {
            return "\u{274C} no alias name provided".to_owned();
        }
        if cmd.args.len() == 1 {
            return "\u{274C} no alias command provided".to_owned();
        }
        let alias = &cmd.args[0];
        let mut rest: Vec<String> = Vec::new();
        let n = cmd.args.len();
        let mut i: usize = 1;
        while i < n
            invariant
                1 <= i <= n,
                n == cmd.args@.len(),
                rest.deep_view() == cmd.args.deep_view().subrange(1, i as int),
            decreases n - i,
        {
            rest.push(cmd.args[i].clone());
            proof {
                assert(rest.deep_view() =~= cmd.args.deep_view().subrange(1, i + 1));
            }
            i = i + 1;
        }
        proof {
            assert(rest.deep_view() =~= cmd.args.deep_view().drop_first());
        }
        let expansion = join_char(&rest, ' ');
        self.aliases.set_alias(cmd.sender.id, alias.as_str(), expansion.as_str());
        "\u{2705} alias created".to_owned()
    }

    /// Remove an alias of the sender's own.
    pub fn remove_alias(&mut self, cmd: &CommandSource) -> (r: String)
        ensures
            final(self).history.items@ == old(self).history.items@,
            final(self).name_id_cache == old(self).name_id_cache,
            cmd.args@.len() == 0 ==> r@ == "\u{274C} no alias provided"@ && final(self).aliases.items@ == old(self).aliases.items@,
            cmd.args@.len() > 0 ==> final(self).aliases.items@ == old(self).aliases.items@.filter(
                |x: crate::store::AliasRow|
                    !crate::store::alias_matches(x, cmd.sender.id, cmd.args.deep_view()[0]),
            ) && if final(self).aliases.items@.len() == old(self).aliases.items@.len() {
                r@ == "\u{274C} no such alias"@
            } else {
                r@ == "\u{2705} alias removed"@
            },
    {
        if cmd.args.len() == 0 {
            return "\u{274C} no alias provided".to_owned();
        }
        let removed = self.aliases.remove_alias(cmd.sender.id, cmd.args[0].as_str());
        if removed == 0 {
            proof {
                old(self).aliases.items@.lemma_filter_len(
                    |x: crate::store::AliasRow|
                        !crate::store::alias_matches(x, cmd.sender.id, cmd.args.deep_view()[0]),
                );
            }
            "\u{274C} no such alias".to_owned()
        } else {
            "\u{2705} alias removed".to_owned()
        }
    }

    /// Clear the reminders the sender has set, reporting the count.
    pub fn clear_reminders(&mut self, user_id: i32) -> (r: String)
        ensures
            final(self).history.items@ == old(self).history.items@,
            final(self).name_id_cache == old(self).name_id_cache,
            final(self).reminders.items@ == old(self).reminders.items@.filter(
                |x: Reminder| x.from_user_id != user_id,
            ),
            final(self).reminders.items@.len() == old(self).reminders.items@.len() ==> r@
                == "\u{274C} no reminders set, nothing happened"@,
            final(self).reminders.items@.len() != old(self).reminders.items@.len() ==> r@
                == "\u{2705} cleared "@ + dec_rep(
                (old(self).reminders.items@.len() - final(self).reminders.items@.len()) as nat,
            ) + " reminders"@,
    {
        let count = self.reminders.clear_users_sent_reminders(user_id);
        if count == 0 {
            "\u{274C} no reminders set, nothing happened".to_owned()
        } else {
            let mut out = "\u{2705} cleared ".to_owned();
            let num = u64_to_string(count as u64);
            out.append(num.as_str());
            out.append(" reminders");
            out
        }
    }

    /// Create or replace a custom channel command; requires mod, VIP or
    /// broadcaster standing.
    pub fn set_cmd(&mut self, cmd: &CommandSource) -> (r: String)
        ensures
            final(self).history.items@ == old(self).history.items@,
            final(self).name_id_cache == old(self).name_id_cache,
            !crate::types::is_mvb_spec(cmd.sender.statuses@) ==> r@
                == "\u{274C} not high enough status"@ && final(self).commands.rows@ == old(self).commands.rows@,
            crate::types::is_mvb_spec(cmd.sender.statuses@) && cmd.args@.len() == 0 ==> r@
                == "\u{274C} no name provided"@ && final(self).commands.rows@ == old(self).commands.rows@,
            crate::types::is_mvb_spec(cmd.sender.statuses@) && cmd.args@.len() == 1 ==> r@
                == "\u{274C} no type provided"@ && final(self).commands.rows@ == old(self).commands.rows@,
            crate::types::is_mvb_spec(cmd.sender.statuses@) && cmd.args@.len() >= 2
                && crate::store::kind_of(cmd.args.deep_view()[1]) is None ==> r@
                == "\u{274C} command type not recognized"@ && final(self).commands.rows@ == old(self).commands.rows@,
            crate::types::is_mvb_spec(cmd.sender.statuses@) && cmd.args@.len() == 2
                && crate::store::kind_of(cmd.args.deep_view()[1]) is Some ==> r@
                == "\u{274C} no expression provided"@ && final(self).commands.rows@ == old(self).commands.rows@,
            crate::types::is_mvb_spec(cmd.sender.statuses@) && cmd.args@.len() >= 3
                && crate::store::kind_of(cmd.args.deep_view()[1]) is Some ==> r@
                == "\u{1F527} command created successfully"@ && ({
                let rows = old(self).commands.rows@;
                let kind = crate::store::kind_of(cmd.args.deep_view()[1])->0;
                let name = cmd.args.deep_view()[0];
                let expr = join_with(cmd.args.deep_view().skip(2), ' ');
                if exists|k: int|
                    0 <= k < rows.len() && crate::store::cmd_matches(#[trigger] rows[k],
                    cmd.channel.id, name) {
                    exists|k: int|
                        0 <= k < rows.len() && crate::store::cmd_matches(#[trigger] rows[k],
                        cmd.channel.id, name) && (forall|j: int|
                            0 <= j < k ==> !crate::store::cmd_matches(#[trigger] rows[j],
                            cmd.channel.id, name)) && final(self).commands.rows@ == rows.update(
                            k,
                            final(self).commands.rows@[k],
                        ) && crate::store::cmd_row_is(
                            final(self).commands.rows@[k],
                            cmd.channel.id,
                            name,
                            kind,
                            expr,
                            0,
                        )
                } else {
                    final(self).commands.rows@.len() == rows.len() + 1
                        && final(self).commands.rows@.drop_last() == rows
                        && crate::store::cmd_row_is(
                        final(self).commands.rows@.last(),
                        cmd.channel.id,
                        name,
                        kind,
                        expr,
                        0,
                    )
                }
            }),
    {
        if !cmd.sender.is_mvb() {
            return "\u{274C} not high enough status".to_owned();
        }
        if cmd.args.len() == 0 {
            return "\u{274C} no name provided".to_owned();
        }
        if cmd.args.len() == 1 {
            return "\u{274C} no type provided".to_owned();
        }
        let kind = match CommandKind::from_str(cmd.args[1].as_str()) {
            Some(k) => k,
            None => {
                return "\u{274C} command type not recognized".to_owned();
            },
        };
        if cmd.args.len() == 2 {
            return "\u{274C} no expression provided".to_owned();
        }
        let mut rest: Vec<String> = Vec::new();
        let n = cmd.args.len();
        let mut i: usize = 2;
        while i < n
            invariant
                2 <= i <= n,
                n == cmd.args@.len(),
                rest.deep_view() == cmd.args.deep_view().subrange(2, i as int),
            decreases n - i,
        {
            rest.push(cmd.args[i].clone());
            proof {
                assert(rest.deep_view() =~= cmd.args.deep_view().subrange(2, i + 1));
            }
            i = i + 1;
        }
        let expr = join_char(&rest, ' ');
        self.commands.new_cmd(cmd.channel.id, cmd.args[0].as_str(), kind, expr.as_str());
        "\u{1F527} command created successfully".to_owned()
    }

    /// Remove a custom channel command.
    pub fn remove_channel_command(&mut self, cmd: &CommandSource) -> (r: String)
        ensures
            final(self).history.items@ == old(self).history.items@,
            final(self).name_id_cache == old(self).name_id_cache,
            cmd.args@.len() == 0 ==> r@ == "\u{274C} no command name provided"@ && final(self).commands.rows@ == old(self).commands.rows@,
            cmd.args@.len() > 0 ==> final(self).commands.rows@ == old(self).commands.rows@.filter(
                |x: crate::store::CmdRow|
                    !crate::store::cmd_matches(x, cmd.channel.id, cmd.args.deep_view()[0]),
            ) && if final(self).commands.rows@.len() == old(self).commands.rows@.len() {
                r@ == "\u{274C} no such command existed"@
            } else {
                r@ == "\u{2705} removed successfully"@
            },
    {
        if cmd.args.len() == 0 {
            return "\u{274C} no command name provided".to_owned();
        }
        let removed = self.commands.remove_channel_command(cmd.channel.id, cmd.args[0].as_str());
        if removed == 0 {
            proof {
                old(self).commands.rows@.lemma_filter_len(
                    |x: crate::store::CmdRow|
                        !crate::store::cmd_matches(x, cmd.channel.id, cmd.args.deep_view()[0]),
                );
            }
            "\u{274C} no such command existed".to_owned()
        } else {
            "\u{2705} removed successfully".to_owned()
        }
    }

    /// Look the invocation up as a custom channel command: when one is
    /// defined under the name, its usage count grows by one and it is
    /// rendered by its kind; an unknown name changes no counter and is
    /// answered that the command is not recognized.
    pub fn try_execute_channel_command(&mut self, cmd: &CommandSource) -> (r: String)
        ensures
            final(self).history.items@ == old(self).history.items@,
            final(self).name_id_cache == old(self).name_id_cache,
            ({
                let rows = old(self).commands.rows@;
                if exists|k: int|
                    0 <= k < rows.len() && crate::store::cmd_matches(#[trigger] rows[k],
                    cmd.channel.id, cmd.cmd@) {
                    exists|k: int|
                        0 <= k < rows.len() && crate::store::cmd_matches(#[trigger] rows[k],
                        cmd.channel.id, cmd.cmd@) && (forall|j: int|
                            0 <= j < k ==> !crate::store::cmd_matches(#[trigger] rows[j],
                            cmd.channel.id, cmd.cmd@)) && ({
                            let count = if rows[k].usage_count < u64::MAX {
                                (rows[k].usage_count + 1) as u64
                            } else {
                                rows[k].usage_count
                            };
                            r@ == rendered_command(
                                rows[k].kind,
                                rows[k].expression@,
                                cmd.args.deep_view(),
                                count,
                            ) && final(self).commands.rows@ == rows.update(
                                k,
                                crate::store::CmdRow {
                                    channel_id: rows[k].channel_id,
                                    name: rows[k].name,
                                    kind: rows[k].kind,
                                    expression: rows[k].expression,
                                    usage_count: count,
                                },
                            )
                        })
                } else {
                    final(self).commands.rows@ == rows && r@ == "command not recognized"@
                }
            }),
    {
        let looked = self.commands.get_channel_cmd(cmd.channel.id, cmd.cmd.as_str());
        match looked {
            None => "command not recognized".to_owned(),
            Some((kind, expr, count)) => {
                let ghost expr0 = expr@;
                match kind {
                    CommandKind::Paste => expr,
                    CommandKind::Incrementing => {
                        let num = u64_to_string(count);
                        proof {
                            reveal_strlit("{}");
                            assert("{}"@.len() == 2);
                        }
                        crate::text::replace_all(expr.as_str(), "{}", num.as_str())
                    },
                    CommandKind::Template => {
                        let mut out = expr;
                        let n = cmd.args.len();
                        let mut i: usize = 0;
                        while i < n
                            invariant
                                i <= n,
                                n == cmd.args@.len(),
                                render_template(out@, cmd.args.deep_view(), i as int)
                                    == render_template(expr0, cmd.args.deep_view(), 0),
                            decreases n - i,
                        {
                            let mut pat = "{".to_owned();
                            let num = u64_to_string((i as u64) + 1);
                            pat.append(num.as_str());
                            pat.append("}");
                            proof {
                                reveal_strlit("{");
                                reveal_strlit("}");
                                assert(pat@ =~= seq!['{'] + dec_rep((i + 1) as nat) + seq!['}']);
                                assert(cmd.args.deep_view()[i as int] == cmd.args@[i as int]@);
                            }
                            out = crate::text::replace_all(
                                out.as_str(),
                                pat.as_str(),
                                cmd.args[i].as_str(),
                            );
                            i = i + 1;
                        }
                        out
                    },
                }
            },
        }
    }
}

/// How the target user and channel of a command were inferred from its
/// arguments.
pub enum TargetInfo {
    Found(Channel, Channel),
    Failed(String),
    Need(ExtRequest),
}

/// The id the cache binds a name to: the first matching entry's.
pub open spec fn cached_id(items: Seq<crate::cache::NameIdEntry>, name: Seq<char>) -> Option<i32>
    decreases items.len(),
{
    if items.len() == 0 {
        None
    } else if crate::cache::name_matches(items[0], name) {
        Some(items[0].id)
    } else {
        cached_id(items.drop_first(), name)
    }
}

/// The runtime's answer to resolving a name: the response of the first
/// entry that asks for this name.
pub open spec fn resolve_response(
    fetched: Seq<(ExtRequest, ExtResponse)>,
    name: Seq<char>,
) -> Option<ExtResponse>
    decreases fetched.len(),
{
    if fetched.len() == 0 {
        None
    } else if fetched[0].0 matches ExtRequest::ResolveId(s) && s@ == name {
        Some(fetched[0].1)
    } else {
        resolve_response(fetched.drop_first(), name)
    }
}

/// What resolving a name yields, the cache consulted first: the id, a
/// definite miss, or nothing until the runtime answers.
pub open spec fn resolution_of(
    items: Seq<crate::cache::NameIdEntry>,
    fetched: Seq<(ExtRequest, ExtResponse)>,
    name: Seq<char>,
) -> Option<Option<i32>> {
    match cached_id(items, name) {
        Some(id) => Some(Some(id)),
        None => match resolve_response(fetched, name) {
            Some(ExtResponse::MaybeId(o)) => Some(o),
            Some(_) => Some(None),
            None => None,
        },
    }
}

/// The two spec lookups agree: reading the answer of a resolve request
/// is reading the first entry that names the same account.
proof fn lemma_resolve_response_is_response_for(
    fetched: Seq<(ExtRequest, ExtResponse)>,
    req: ExtRequest,
    name: Seq<char>,
)
    requires
        req matches ExtRequest::ResolveId(s) && s@ == name,
    ensures
        resolve_response(fetched, name) == response_for(fetched, req),
    decreases fetched.len(),
{
    if fetched.len() > 0 {
        lemma_resolve_response_is_response_for(fetched.drop_first(), req, name);
    }
}

/// A matching cache entry at the first matching index is the binding
/// the spec lookup reads.
proof fn lemma_cached_id_at(items: Seq<crate::cache::NameIdEntry>, name: Seq<char>, i: int)
    requires
        0 <= i < items.len(),
        crate::cache::name_matches(items[i], name),
        forall|j: int| 0 <= j < i ==> !crate::cache::name_matches(#[trigger] items[j], name),
    ensures
        cached_id(items, name) == Some(items[i].id),
    decreases i,
{
    if i > 0 {
        lemma_cached_id_at(items.drop_first(), name, i - 1);
    }
}

/// With no matching entry the cache binds nothing.
proof fn lemma_cached_id_none(items: Seq<crate::cache::NameIdEntry>, name: Seq<char>)
    requires
        forall|j: int| 0 <= j < items.len() ==> !crate::cache::name_matches(#[trigger] items[j], name),
    ensures
        cached_id(items, name) is None,
    decreases items.len(),
{
    if items.len() > 0 {
        lemma_cached_id_none(items.drop_first(), name);
    }
}

/// Caching one freshly answered binding changes no name's resolution:
/// the cached name now hits the cache with the very id the runtime gave
/// it, and every other name reads the entries it read before.
proof fn lemma_resolution_after_push(
    items: Seq<crate::cache::NameIdEntry>,
    fetched: Seq<(ExtRequest, ExtResponse)>,
    entry: crate::cache::NameIdEntry,
    name0: Seq<char>,
    name: Seq<char>,
)
    requires
        entry.name@ == name0,
        cached_id(items, name0) is None,
        resolution_of(items, fetched, name0) == Some(Some(entry.id)),
    ensures
        resolution_of(items.push(entry), fetched, name) == resolution_of(items, fetched, name),
    decreases items.len(),
{
    lemma_cached_id_push(items, entry, name);
    if name == name0 {
        assert(cached_id(items.push(entry), name) == Some(entry.id));
    }
}

/// Appending a cache entry leaves earlier bindings in place; a name
/// bound nowhere before is bound by the new entry exactly when it
/// carries that name.
proof fn lemma_cached_id_push(
    items: Seq<crate::cache::NameIdEntry>,
    entry: crate::cache::NameIdEntry,
    name: Seq<char>,
)
    ensures
        cached_id(items.push(entry), name) == if cached_id(items, name) is Some {
            cached_id(items, name)
        } else if crate::cache::name_matches(entry, name) {
            Some(entry.id)
        } else {
            None::<i32>
        },
    decreases items.len(),
{
    let pushed = items.push(entry);
    assert(pushed.len() == items.len() + 1);
    if items.len() == 0 {
        assert(pushed[0] == entry);
        assert(pushed.drop_first() =~= Seq::<crate::cache::NameIdEntry>::empty());
        if crate::cache::name_matches(entry, name) {
            assert(cached_id(pushed, name) == Some(entry.id));
        } else {
            assert(cached_id(pushed, name) == cached_id(pushed.drop_first(), name));
            assert(cached_id(pushed.drop_first(), name) is None);
        }
    } else {
        assert(pushed[0] == items[0]);
        assert(pushed.drop_first() =~= items.drop_first().push(entry));
        lemma_cached_id_push(items.drop_first(), entry, name);
        if crate::cache::name_matches(items[0], name) {
            assert(cached_id(pushed, name) == Some(items[0].id));
            assert(cached_id(items, name) == Some(items[0].id));
        } else {
            assert(cached_id(pushed, name) == cached_id(items.drop_first().push(entry), name));
            assert(cached_id(items, name) == cached_id(items.drop_first(), name));
        }
    }
}

impl Bot {
    /// The id a name resolves to: the cache first, then the runtime's
    /// answer; a request when neither knows. A fresh answer is cached.
    fn resolve_id(&mut self, name: &str, fetched: &Fetched) -> (r: Result<
        Option<i32>,
        ExtRequest,
    >)
        ensures
            r matches Result::Err(req) ==> (req matches ExtRequest::ResolveId(n) && n@ == name@
                && !is_fetched(fetched@, ExtRequest::ResolveId(n)) && *final(self) == *old(self)),
            match r {
                Result::Ok(o) => resolution_of(
                    old(self).name_id_cache.items@,
                    fetched@,
                    name@,
                ) == Some(o),
                Result::Err(_) => resolution_of(
                    old(self).name_id_cache.items@,
                    fetched@,
                    name@,
                ) is None,
            },
            bindings_kept(old(self).name_id_cache.items@, final(self).name_id_cache.items@),
            final(self).name_id_cache.items@ == old(self).name_id_cache.items@ || (
            r matches Result::Ok(o) && o matches Some(id) && cached_id(
                old(self).name_id_cache.items@,
                name@,
            ) is None && final(self).name_id_cache.items@.len() == old(
                self,
            ).name_id_cache.items@.len() + 1 && final(self).name_id_cache.items@.drop_last()
                == old(self).name_id_cache.items@ && final(self).name_id_cache.items@.last().name@
                == name@ && final(self).name_id_cache.items@.last().id == id),
            final(self).config == old(self).config,
            final(self).emote_cache == old(self).emote_cache,
            final(self).channel_states == old(self).channel_states,
            final(self).markov == old(self).markov,
            final(self).commands == old(self).commands,
            final(self).aliases == old(self).aliases,
            final(self).reminders == old(self).reminders,
            final(self).lurkers == old(self).lurkers,
            final(self).suggestions == old(self).suggestions,
            final(self).explanations == old(self).explanations,
            final(self).offliners == old(self).offliners,
            final(self).chat_log == old(self).chat_log,
            final(self).history == old(self).history,
    {
        match self.name_id_cache.get(name) {
            Some(id) => {
                proof {
                    let items = self.name_id_cache.items@;
                    let k = choose|k: int|
                        0 <= k < items.len() && crate::cache::name_matches(
                            #[trigger] items[k],
                            name@,
                        ) && id == items[k].id && forall|j: int|
                            0 <= j < k ==> !crate::cache::name_matches(#[trigger] items[j], name@);
                    lemma_cached_id_at(items, name@, k);
                }
                Ok(Some(id))
            },
            None => {
                proof {
                    lemma_cached_id_none(self.name_id_cache.items@, name@);
                }
                let req = ExtRequest::ResolveId(name.to_owned());
                let ghost greq = req;
                proof {
                    lemma_resolve_response_is_response_for(fetched@, greq, name@);
                }
                match find_response(fetched, &req) {
                    Some(k) => match &fetched[k].1 {
                        ExtResponse::MaybeId(opt) => {
                            match opt {
                                Some(id) => {
                                    let ghost pre_items = self.name_id_cache.items@;
                                    self.name_id_cache.insert(name, *id);
                                    proof {
                                        assert(self.name_id_cache.items@ =~= pre_items.push(
                                            self.name_id_cache.items@.last(),
                                        ));
                                        assert forall|n: Seq<char>|
                                            #[trigger] cached_id(pre_items, n) is Some
                                            implies cached_id(self.name_id_cache.items@, n)
                                            == cached_id(pre_items, n) by {
                                            lemma_cached_id_push(
                                                pre_items,
                                                self.name_id_cache.items@.last(),
                                                n,
                                            );
                                        }
                                    }
                                    Ok(Some(*id))
                                },
                                None => Ok(None),
                            }
                        },
                        _ => Ok(None),
                    },
                    None => Err(req),
                }
            },
        }
    }

    /// Infer the target user and channel: no arguments name the sender
    /// in the current channel, one argument names a user in the current
    /// channel, two name a user and a channel.
    pub fn user_channel_info_from_args(&mut self, cmd: &CommandSource, fetched: &Fetched) -> (r:
        TargetInfo)
        ensures
            final(self).history.items@ == old(self).history.items@,
            bindings_kept(old(self).name_id_cache.items@, final(self).name_id_cache.items@),
            final(self).chat_log == old(self).chat_log,
            final(self).offliners == old(self).offliners,
            cmd.args@.len() == 0 ==> (r matches TargetInfo::Found(u, c) && u.id == cmd.sender.id
                && u.name@ == cmd.sender.name@ && c.id == cmd.channel.id && c.name@
                == cmd.channel.name@ && *final(self) == *old(self)),
            cmd.args@.len() == 1 ==> ({
                let items = old(self).name_id_cache.items@;
                let uname = cmd.args.deep_view()[0];
                match r {
                    TargetInfo::Need(q) => q matches ExtRequest::ResolveId(s) && s@ == uname
                        && resolution_of(items, fetched@, uname) is None,
                    TargetInfo::Failed(m) => resolution_of(items, fetched@, uname) == Some(
                        None::<i32>,
                    ) && m@ == "\u{1F4A2} User `"@ + uname + "` was not found"@,
                    TargetInfo::Found(u, c) => resolution_of(items, fetched@, uname) == Some(
                        Some(u.id),
                    ) && u.name@ == uname && c.id == cmd.channel.id && c.name@
                        == cmd.channel.name@,
                }
            }),
            cmd.args@.len() >= 2 ==> ({
                let items = old(self).name_id_cache.items@;
                let uname = cmd.args.deep_view()[0];
                let cname = cmd.args.deep_view()[1];
                let ru = resolution_of(items, fetched@, uname);
                let rc = resolution_of(items, fetched@, cname);
                match r {
                    TargetInfo::Need(q) => q matches ExtRequest::ResolveId(s) && ((s@ == uname
                        && ru is None) || (s@ == cname && (ru matches Some(o) && o is Some)
                        && rc is None)),
                    TargetInfo::Failed(m) => (ru == Some(None::<i32>) && m@ == "\u{1F4A2} User `"@
                        + uname + "` was not found"@) || ((ru matches Some(o) && o is Some) && rc
                        == Some(None::<i32>) && m@ == "\u{1F4A2} Channel `"@ + cname
                        + "` was not found"@),
                    TargetInfo::Found(u, c) => ru == Some(Some(u.id)) && rc == Some(Some(c.id))
                        && u.name@ == uname && c.name@ == cname,
                }
            }),
    {
        if cmd.args.len() == 0 {
            return TargetInfo::Found(
                Channel { name: cmd.sender.name.clone(), id: cmd.sender.id },
                cmd.channel.duplicate(),
            );
        }
        let user_name = &cmd.args[0];
        let user_id = match self.resolve_id(user_name.as_str(), fetched) {
            Ok(Some(id)) => id,
            Ok(None) => {
                let mut m = "\u{1F4A2} User `".to_owned();
                m.append(user_name.as_str());
                m.append("` was not found");
                return TargetInfo::Failed(m);
            },
            Err(req) => {
                return TargetInfo::Need(req);
            },
        };
        if cmd.args.len() == 1 {
            return TargetInfo::Found(
                Channel { name: user_name.clone(), id: user_id },
                cmd.channel.duplicate(),
            );
        }
        let channel_name = &cmd.args[1];
        proof {
            let items = old(self).name_id_cache.items@;
            let mid = self.name_id_cache.items@;
            if mid != items {
                lemma_resolution_after_push(
                    items,
                    fetched@,
                    mid.last(),
                    cmd.args.deep_view()[0],
                    cmd.args.deep_view()[1],
                );
                assert(mid =~= items.push(mid.last()));
            }
        }
        let channel_id = match self.resolve_id(channel_name.as_str(), fetched) {
            Ok(Some(id)) => id,
            Ok(None) => {
                let mut m = "\u{1F4A2} Channel `".to_owned();
                m.append(channel_name.as_str());
                m.append("` was not found");
                return TargetInfo::Failed(m);
            },
            Err(req) => {
                return TargetInfo::Need(req);
            },
        };
        TargetInfo::Found(
            Channel { name: user_name.clone(), id: user_id },
            Channel { name: channel_name.clone(), id: channel_id },
        )
    }

    /// Choose among comma- or `or`-separated options, or answer a
    /// yes/no question.
    pub fn decide(&self, cmd: &CommandSource) -> (r: String)
        ensures
            cmd.args@.len() == 0 ==> r@ == "\u{274C} no options provided"@,
            cmd.args@.len() > 0 ==> r@ == "\u{274C} prompt not recognized"@ || r@
                == "\u{1F3B1} No, I don't think so"@ || r@ == "\u{1F3B1} Yes, I do think so"@ || (
            exists|p: Seq<char>| r@ == "\u{1F3B1} I choose... "@ + p),
            ({
                let opts = crate::text::split_spec(join_with(cmd.args.deep_view(), ' '), ',');
                cmd.args@.len() > 0 && opts.len() >= 2 ==> exists|k: int|
                    0 <= k < opts.len() && r@ == "\u{1F3B1} I choose... "@ + #[trigger] opts[k]
            }),
    {
        if cmd.args.len() == 0 {
            return "\u{274C} no options provided".to_owned();
        }
        let joined = join_char(&cmd.args, ' ');
        let mut options = split_char(joined.as_str(), ',');
        if options.len() == 1 {
            proof {
                reveal_strlit("or");
                assert("or"@.len() == 2);
            }
            options = crate::text::split_str(joined.as_str(), "or");
        }
        if options.len() <= 1 {
            let low = lowercase(cmd.args[0].as_str());
            let w = low.as_str();
            if str_eq(w, "is") || str_eq(w, "does") || str_eq(w, "will") || str_eq(w, "should")
                || str_eq(w, "do") {
                if crate::rng::rand_below(2) == 0 {
                    "\u{1F3B1} No, I don't think so".to_owned()
                } else {
                    "\u{1F3B1} Yes, I do think so".to_owned()
                }
            } else {
                "\u{274C} prompt not recognized".to_owned()
            }
        } else {
            let pick = crate::rng::rand_below(options.len() as u64);
            let opt = &options[pick as usize];
            let mut out = "\u{1F3B1} I choose... ".to_owned();
            out.append(opt.as_str());
            proof {
                assert(options.deep_view()[pick as int] == options@[pick as int]@);
                assert(out@ == "\u{1F3B1} I choose... "@ + options@[pick as int]@);
            }
            out
        }
    }

    /// A random number from a range: one bound means one to the bound,
    /// two bounds give the range itself.
    pub fn rand_int_from_range(&self, cmd: &CommandSource) -> (r: String)
        ensures
            cmd.args@.len() == 0 ==> r@ == "\u{274C} number expected"@,
            cmd.args@.len() > 0 ==> r@ == "\u{274C} number expected"@ || exists|v: int|
                r@ == dec_rep_signed(v),
            ({
                let p0 = crate::text::parse_int_spec(cmd.args.deep_view()[0]);
                cmd.args@.len() == 1 && p0 is Some && -0x8000 <= p0->0 <= 0x7FFF && 1 <= p0->0
                    ==> exists|v: int| 1 <= v <= p0->0 && r@ == dec_rep_signed(v)
            }),
            ({
                let p0 = crate::text::parse_int_spec(cmd.args.deep_view()[0]);
                let p1 = crate::text::parse_int_spec(cmd.args.deep_view()[1]);
                cmd.args@.len() >= 2 && p0 is Some && p1 is Some && -0x8000 <= p0->0 <= 0x7FFF
                    && -0x8000 <= p1->0 <= 0x7FFF && p0->0 <= p1->0 ==> exists|v: int|
                    p0->0 <= v <= p1->0 && r@ == dec_rep_signed(v)
            }),
    {
        let (min, max): (i64, i64) = if cmd.args.len() == 0 {
            return "\u{274C} number expected".to_owned();
        } else if cmd.args.len() == 1 {
            let n = match parse_i16(cmd.args[0].as_str()) {
                Some(n) => n,
                None => {
                    return "\u{274C} number expected".to_owned();
                },
            };
            (1, n)
        } else {
            let n1 = match parse_i16(cmd.args[0].as_str()) {
                Some(n) => n,
                None => {
                    return "\u{274C} number expected".to_owned();
                },
            };
            let n2 = match parse_i16(cmd.args[1].as_str()) {
                Some(n) => n,
                None => {
                    return "\u{274C} number expected".to_owned();
                },
            };
            (n1, n2)
        };
        if min > max {
            return "\u{274C} number expected".to_owned();
        }
        let span: u64 = (max - min) as u64;
        let offset = if span == u64::MAX {
            crate::rng::rand_below(u64::MAX)
        } else {
            crate::rng::rand_below(span + 1)
        };
        let value: i64 = ((min as i128) + (offset as i128)) as i64;
        crate::text::i64_to_string(value)
    }

    /// Walk the channel's text model from a seed word.
    pub fn markov(&self, cmd: &CommandSource) -> (r: String)
        ensures
            cmd.args@.len() == 0 ==> r@ == "\u{274C} insufficient args"@,
            cmd.args@.len() >= 2 && !markov_count_parses(cmd.args.deep_view()[1]) ==> r@
                == "\u{274C} expected positive integer"@,
            (cmd.args@.len() == 1 || (cmd.args@.len() >= 2 && markov_count_parses(
                cmd.args.deep_view()[1],
            ))) && (markov_rounds(cmd.args.deep_view()) == 1 || !crate::markov::has_successor(
                self.markov.rows@,
                cmd.channel.id,
                cmd.args.deep_view()[0],
            )) ==> r@ == "\u{274C} word not indexed yet | E1"@,
            (cmd.args@.len() == 1 || (cmd.args@.len() >= 2 && markov_count_parses(
                cmd.args.deep_view()[1],
            ))) && markov_rounds(cmd.args.deep_view()) >= 2 && crate::markov::has_successor(
                self.markov.rows@,
                cmd.channel.id,
                cmd.args.deep_view()[0],
            ) ==> exists|walk: Seq<Seq<char>>|
                (#[trigger] walk.len()) >= 2 && walk.len() <= markov_rounds(cmd.args.deep_view())
                    && walk[0] == cmd.args.deep_view()[0] && (forall|k: int|
                    0 <= k < walk.len() - 1 ==> crate::markov::is_succ(
                        self.markov.rows@,
                        cmd.channel.id,
                        #[trigger] walk[k],
                        walk[k + 1],
                    )) && r@ == "\u{1F52E} "@ + join_with(walk, ' '),
    {
        if cmd.args.len() == 0 {
            return "\u{274C} insufficient args".to_owned();
        }
        let rounds: u64 = if cmd.args.len() == 1 {
            7
        } else {
            match parse_u64(cmd.args[1].as_str()) {
                Some(n) => if n < 1 {
                    1
                } else if n > 100 {
                    100
                } else {
                    n
                },
                None => {
                    return "\u{274C} expected positive integer".to_owned();
                },
            }
        };
        let out = self.markov.markov_chain(
            cmd.channel.id,
            cmd.args[0].as_str(),
            rounds as usize,
        );
        if out.len() == 1 {
            return "\u{274C} word not indexed yet | E1".to_owned();
        }
        let joined = join_char(&out, ' ');
        let mut msg = "\u{1F52E} ".to_owned();
        msg.append(joined.as_str());
        proof {
            assert(out.deep_view().len() >= 2);
            assert(msg@ == "\u{1F52E} "@ + join_with(out.deep_view(), ' '));
        }
        msg
    }

    /// Abandon the channel's trivia game and reveal the answer.
    pub fn give_up_trivia(&mut self, cmd: &CommandSource) -> (r: String)
        ensures
            final(self).history.items@ == old(self).history.items@,
            final(self).name_id_cache == old(self).name_id_cache,
            !crate::trivia::has_ongoing_game(final(self).channel_states.entries@, cmd.channel.id),
            crate::trivia::has_state(old(self).channel_states.entries@, cmd.channel.id) ==> (
            crate::trivia::has_state(final(self).channel_states.entries@, cmd.channel.id)
                && crate::trivia::state_of(
                final(self).channel_states.entries@,
                cmd.channel.id,
            ).specifics.hooks@ == crate::trivia::state_of(
                old(self).channel_states.entries@,
                cmd.channel.id,
            ).specifics.hooks@),
            !crate::trivia::has_ongoing_game(old(self).channel_states.entries@, cmd.channel.id)
                ==> final(self).channel_states.entries@ == old(self).channel_states.entries@,
            crate::trivia::has_ongoing_game(old(self).channel_states.entries@, cmd.channel.id)
                ==> r@ == "So bad LUL | The answer was '"@ + crate::trivia::state_of(
                old(self).channel_states.entries@,
                cmd.channel.id,
            ).specifics.ongoing_trivia_game->0.correct_answer@ + "'"@,
            !crate::trivia::has_ongoing_game(old(self).channel_states.entries@, cmd.channel.id)
                ==> r@ == "\u{274C} there was no game going on LUL"@,
    {
        match self.channel_states.give_up(cmd.channel.id) {
            Some(answer) => {
                let mut out = "So bad LUL | The answer was '".to_owned();
                out.append(answer.as_str());
                out.append("'");
                out
            },
            None => "\u{274C} there was no game going on LUL".to_owned(),
        }
    }

    /// List the candidate answers of the channel's trivia game in a
    /// random order.
    pub fn give_trivia_hint(&self, cmd: &CommandSource) -> (r: String)
        ensures
            !crate::trivia::has_ongoing_game(self.channel_states.entries@, cmd.channel.id) ==> r@
                == "\u{274C} there is no game going on FeelsDankMan"@,
            crate::trivia::has_ongoing_game(self.channel_states.entries@, cmd.channel.id)
                && crate::trivia::state_of(
                self.channel_states.entries@,
                cmd.channel.id,
            ).specifics.ongoing_trivia_game->0.wrong_answers@.len() != 3 ==> r@
                == "\u{274C} there is no game going on FeelsDankMan"@,
            crate::trivia::has_ongoing_game(self.channel_states.entries@, cmd.channel.id)
                && crate::trivia::state_of(
                self.channel_states.entries@,
                cmd.channel.id,
            ).specifics.ongoing_trivia_game->0.wrong_answers@.len() == 3 ==> ({
                let game = crate::trivia::state_of(
                    self.channel_states.entries@,
                    cmd.channel.id,
                ).specifics.ongoing_trivia_game->0;
                exists|answers: Seq<String>|
                    (#[trigger] answers.to_multiset()) == seq![
                        game.correct_answer,
                        game.wrong_answers@[0],
                        game.wrong_answers@[1],
                        game.wrong_answers@[2],
                    ].to_multiset() && r@ == "The options are: \""@ + crate::text::join_with_seq(
                        Seq::new(answers.len(), |i: int| answers[i]@),
                        "\", \""@,
                    ) + "\""@
            }),
    {
        match self.channel_states.hint(cmd.channel.id) {
            Some(answers) => {
                let joined = crate::text::join_str(&answers, "\", \"");
                let mut out = "The options are: \"".to_owned();
                out.append(joined.as_str());
                out.append("\"");
                proof {
                    assert(answers.deep_view() =~= Seq::new(answers@.len(), |i: int| answers@[i]@));
                }
                out
            },
            None => "\u{274C} there is no game going on FeelsDankMan".to_owned(),
        }
    }

    /// Start a trivia game if none is going on: the state is checked,
    /// the question is fetched by the runtime, and the fetched question
    /// is committed; of two rival commits the later one wins.
    #[verifier::rlimit(100)]
    #[verifier::spinoff_prover]
    pub fn attempt_start_trivia_game(&mut self, cmd: &CommandSource, fetched: &Fetched) -> (r:
        Dispatched)
        ensures
            final(self).history.items@ == old(self).history.items@,
            final(self).name_id_cache == old(self).name_id_cache,
            crate::trivia::has_ongoing_game(old(self).channel_states.entries@, cmd.channel.id)
                ==> (r matches Dispatched::Done(o) && o matches Some(t) && t@
                == "\u{274C} there is currently a game going on!"@ && final(self).channel_states
                == old(self).channel_states),
            crate::trivia::has_state(old(self).channel_states.entries@, cmd.channel.id) ==> (
            crate::trivia::has_state(final(self).channel_states.entries@, cmd.channel.id)
                && crate::trivia::state_of(
                final(self).channel_states.entries@,
                cmd.channel.id,
            ).specifics.hooks@ == crate::trivia::state_of(
                old(self).channel_states.entries@,
                cmd.channel.id,
            ).specifics.hooks@),
            !crate::trivia::has_state(old(self).channel_states.entries@, cmd.channel.id)
                && crate::trivia::has_state(final(self).channel_states.entries@, cmd.channel.id)
                ==> crate::trivia::state_of(
                final(self).channel_states.entries@,
                cmd.channel.id,
            ).specifics.hooks@ == Seq::<crate::types::MessageHook>::empty(),
            ({
                let entries0 = old(self).channel_states.entries@;
                forall|q: ExtRequest|
                    (q matches ExtRequest::FetchTrivia(c, d, ty) && c@
                        == crate::options::opentdb_category_index(
                        crate::options::category_of(cmd.args.deep_view()),
                    ) && d@ == crate::options::opentdb_difficulty_index(
                        crate::options::difficulty_of(cmd.args.deep_view()),
                    ) && ty@ == crate::options::opentdb_type_index(
                        crate::options::trivia_type_of(cmd.args.deep_view()),
                    ) && #[trigger] response_for(fetched@, q) == Some(
                        ExtResponse::Trivia(None),
                    ) && !crate::trivia::has_ongoing_game(entries0, cmd.channel.id)) ==> (
                    r matches Dispatched::Done(o) && o matches Some(t) && t@
                        == "\u{274C} an unknown error has occured, sorry PoroSad"@
                        && final(self).channel_states == old(self).channel_states)
            }),
            r matches Dispatched::Need(q) ==> (q matches ExtRequest::FetchTrivia(c, d, t) && c@
                == crate::options::opentdb_category_index(
                crate::options::category_of(cmd.args.deep_view()),
            ) && d@ == crate::options::opentdb_difficulty_index(
                crate::options::difficulty_of(cmd.args.deep_view()),
            ) && t@ == crate::options::opentdb_type_index(
                crate::options::trivia_type_of(cmd.args.deep_view()),
            ) && response_for(fetched@, q) is None),
            ({
                let entries0 = old(self).channel_states.entries@;
                forall|q: ExtRequest, question: TriviaQuestion|
                    #![trigger response_for(fetched@, q), crate::fmt::from_html_entities_spec(question.question@)]
                    (q matches ExtRequest::FetchTrivia(c, d, ty) && c@
                        == crate::options::opentdb_category_index(
                        crate::options::category_of(cmd.args.deep_view()),
                    ) && d@ == crate::options::opentdb_difficulty_index(
                        crate::options::difficulty_of(cmd.args.deep_view()),
                    ) && ty@ == crate::options::opentdb_type_index(
                        crate::options::trivia_type_of(cmd.args.deep_view()),
                    ) && response_for(fetched@, q) == Some(
                        ExtResponse::Trivia(Some(question)),
                    ) && !crate::trivia::has_ongoing_game(entries0, cmd.channel.id)) ==> ({
                        let game = crate::trivia::state_of(
                            final(self).channel_states.entries@,
                            cmd.channel.id,
                        ).specifics.ongoing_trivia_game;
                        &&& (r matches Dispatched::Done(o) && o matches Some(t) && t@
                            == crate::fmt::from_html_entities_spec(question.question@))
                        &&& crate::trivia::has_ongoing_game(
                            final(self).channel_states.entries@,
                            cmd.channel.id,
                        )
                        &&& (game matches Some(g) && g.question@
                            == crate::fmt::from_html_entities_spec(question.question@)
                            && g.correct_answer@ == crate::fmt::from_html_entities_spec(
                            question.correct_answer@,
                        ) && g.wrong_answers@.len() == question.incorrect_answers@.len() && forall|
                            w: int,
                        |
                            0 <= w < g.wrong_answers@.len() ==> (#[trigger] g.wrong_answers@[w])@
                                == crate::fmt::from_html_entities_spec(
                                question.incorrect_answers@[w]@,
                            ))
                    })
            }),
    {
        if self.channel_states.has_game(cmd.channel.id) {
            return Dispatched::Done(
                Some("\u{274C} there is currently a game going on!".to_owned()),
            );
        }
        let cat = crate::options::TriviaCategory::from_vec(&cmd.args);
        let dif = crate::options::TriviaDifficulty::from_vec(&cmd.args);
        let typ = crate::options::TriviaType::from_vec(&cmd.args);
        let req = ExtRequest::FetchTrivia(
            cat.to_opentdb_index().to_owned(),
            dif.to_opentdb_index().to_owned(),
            typ.to_opentdb_index().to_owned(),
        );
        let ghost greq = req;
        proof {
            assert forall|q2: ExtRequest|
                req_eq_spec(q2, greq) implies #[trigger] response_for(fetched@, q2)
                == response_for(fetched@, greq) by {
                lemma_response_for_congruent(fetched@, q2, greq);
            }
        }
        let k = match find_response(fetched, &req) {
            Some(k) => k,
            None => {
                return Dispatched::Need(req);
            },
        };
        match &fetched[k].1 {
            ExtResponse::Trivia(Some(q)) => {
                let question = crate::fmt::convert_from_html_entities(q.question.clone());
                let correct = crate::fmt::convert_from_html_entities(q.correct_answer.clone());
                let mut wrong: Vec<String> = Vec::new();
                let n = q.incorrect_answers.len();
                let mut i: usize = 0;
                while i < n
                    invariant
                        i <= n,
                        n == q.incorrect_answers@.len(),
                        wrong@.len() == i,
                        forall|w: int|
                            0 <= w < i ==> (#[trigger] wrong@[w])@
                                == crate::fmt::from_html_entities_spec(
                                q.incorrect_answers@[w]@,
                            ),
                    decreases n - i,
                {
                    wrong.push(
                        crate::fmt::convert_from_html_entities(q.incorrect_answers[i].clone()),
                    );
                    i = i + 1;
                }
                let game = crate::types::TriviaGameInfo {
                    question: question.clone(),
                    correct_answer: correct,
                    wrong_answers: wrong,
                };
                self.channel_states.ensure_channel(cmd.channel.id);
                self.channel_states.commit_trivia(cmd.channel.id, game);
                Dispatched::Done(Some(question))
            },
            ExtResponse::Trivia(None) => {
                Dispatched::Done(
                    Some("\u{274C} an unknown error has occured, sorry PoroSad".to_owned()),
                )
            },
            _ => {
                Dispatched::Done(
                    Some("\u{274C} an internal error has occured, sorry PoroSad".to_owned()),
                )
            },
        }
    }

    /// Leave a reminder for oneself or another user.
    pub fn add_reminder(&mut self, cmd: &CommandSource, fetched: &Fetched, is_for_self: bool) -> (r:
        Dispatched)
        ensures
            final(self).history.items@ == old(self).history.items@,
            bindings_kept(old(self).name_id_cache.items@, final(self).name_id_cache.items@),
            cmd.args@.len() == 0 ==> (r matches Dispatched::Done(o) && o matches Some(t) && t@
                == "\u{274C} insufficient args"@ && *final(self) == *old(self)),
            cmd.args@.len() > 0 && crate::parse::duration_hm_spec(cmd.args.deep_view()[0]) is Some
                && !is_for_self && cmd.args@.len() < 2 ==> (r matches Dispatched::Done(o)
                && o matches Some(t) && t@ == "\u{274C} no name provided"@
                && *final(self) == *old(self)),
            cmd.args@.len() > 0 && crate::parse::duration_hm_spec(cmd.args.deep_view()[0]) is Some
                && (is_for_self || cmd.args@.len() >= 2) && cmd.args@.len() <= (if is_for_self {
                1int
            } else {
                2int
            }) ==> (r matches Dispatched::Done(o) && o matches Some(t) && t@
                == "\u{274C} no message provided"@ && *final(self) == *old(self)),
            cmd.args@.len() > 0 && crate::parse::duration_hm_spec(cmd.args.deep_view()[0]) is None
                ==> (r matches Dispatched::Done(o) && o matches Some(t) && t@
                == "\u{274C} bad time formatting"@ && final(self).reminders.items@ == old(
                self,
            ).reminders.items@),
            ({
                let dv = cmd.args.deep_view();
                let items = old(self).name_id_cache.items@;
                let start: int = if is_for_self {
                    1
                } else {
                    2
                };
                let tname = if is_for_self {
                    cmd.sender.name@
                } else {
                    dv[1]
                };
                let dur = crate::parse::duration_hm_spec(dv[0]);
                dv.len() > start && (is_for_self || dv.len() >= 2) && dur is Some ==> match r {
                    Dispatched::Need(q) => q matches ExtRequest::ResolveId(s) && s@ == tname
                        && resolution_of(items, fetched@, tname) is None,
                    Dispatched::Done(o) => o matches Some(t) && if resolution_of(
                        items,
                        fetched@,
                        tname,
                    ) == Some(None::<i32>) {
                        t@ == "\u{274C} user nonexistant"@ && final(self).reminders.items@ == old(
                            self,
                        ).reminders.items@
                    } else {
                        &&& t@ == "\u{2705} set successfully"@
                        &&& final(self).reminders.items@.len() == old(
                            self,
                        ).reminders.items@.len() + 1
                        &&& final(self).reminders.items@.drop_last() == old(self).reminders.items@
                        &&& ({
                            let stored = final(self).reminders.items@.last();
                            &&& stored.from_user_id == cmd.sender.id
                            &&& resolution_of(items, fetched@, tname) == Some(
                                Some(stored.for_user_id),
                            )
                            &&& stored.raise_timestamp == ({
                                let wide = cmd.timestamp + (dur->0).0 * 3600 + (dur->0).1 * 60;
                                if wide > i64::MAX {
                                    i64::MAX as int
                                } else {
                                    wide
                                }
                            })
                            &&& stored.message@ == join_with(dv.skip(start), ' ')
                        })
                    },
                }
            }),
    {
        if cmd.args.len() == 0 {
            return Dispatched::Done(Some("\u{274C} insufficient args".to_owned()));
        }
        let (h, m) = match crate::parse::parse_duration_to_hm(cmd.args[0].as_str()) {
            Ok(hm) => hm,
            Err(_) => {
                return Dispatched::Done(Some("\u{274C} bad time formatting".to_owned()));
            },
        };
        let wide: i128 = (cmd.timestamp as i128) + (h as i128) * 3600 + (m as i128) * 60;
        let remind_time: i64 = if wide > i64::MAX as i128 {
            i64::MAX
        } else {
            wide as i64
        };
        let to_user_name: String = if is_for_self {
            cmd.sender.name.clone()
        } else {
            match cmd.args.get(1) {
                Some(n) => n.clone(),
                None => {
                    return Dispatched::Done(Some("\u{274C} no name provided".to_owned()));
                },
            }
        };
        let start_idx: usize = if is_for_self {
            1
        } else {
            2
        };
        if cmd.args.len() <= start_idx {
            return Dispatched::Done(Some("\u{274C} no message provided".to_owned()));
        }
        let mut rest: Vec<String> = Vec::new();
        let n = cmd.args.len();
        let mut i: usize = start_idx;
        proof {
            assert(rest.deep_view() =~= cmd.args.deep_view().subrange(
                start_idx as int,
                start_idx as int,
            ));
        }
        while i < n
            invariant
                start_idx <= i <= n,
                n == cmd.args@.len(),
                rest.deep_view() == cmd.args.deep_view().subrange(start_idx as int, i as int),
            decreases n - i,
        {
            rest.push(cmd.args[i].clone());
            proof {
                assert(rest.deep_view() =~= cmd.args.deep_view().subrange(
                    start_idx as int,
                    i + 1,
                ));
            }
            i = i + 1;
        }
        proof {
            assert(rest.deep_view() =~= cmd.args.deep_view().skip(start_idx as int));
        }
        let message = join_char(&rest, ' ');
        let for_user_id = match self.resolve_id(to_user_name.as_str(), fetched) {
            Ok(Some(id)) => id,
            Ok(None) => {
                return Dispatched::Done(Some("\u{274C} user nonexistant".to_owned()));
            },
            Err(req) => {
                return Dispatched::Need(req);
            },
        };
        self.reminders.insert_reminder(
            Reminder {
                id: 0,
                from_user_id: cmd.sender.id,
                for_user_id,
                raise_timestamp: remind_time,
                message,
            },
        );
        Dispatched::Done(Some("\u{2705} set successfully".to_owned()))
    }

    /// The first logged message of the target user in the target
    /// channel.
    pub fn first_message(&mut self, cmd: &CommandSource, fetched: &Fetched) -> (r: Dispatched)
        ensures
            final(self).history.items@ == old(self).history.items@,
            bindings_kept(old(self).name_id_cache.items@, final(self).name_id_cache.items@),
            cmd.args@.len() == 1 ==> ({
                let uname = cmd.args.deep_view()[0];
                let res = resolution_of(old(self).name_id_cache.items@, fetched@, uname);
                let lines = old(self).chat_log.lines@;
                match r {
                    Dispatched::Need(q) => q matches ExtRequest::ResolveId(s) && s@ == uname
                        && res is None,
                    Dispatched::Done(o) => o matches Some(t) && ((res == Some(None::<i32>) && t@
                        == "\u{1F4A2} User `"@ + uname + "` was not found"@) || (
                    res matches Some(ou) && ou matches Some(uid) && ((exists|k: int|
                        0 <= k < lines.len() && crate::store::line_of(#[trigger] lines[k],
                        cmd.channel.id, uid) && t@ == lines[k].message@ && forall|j: int|
                            0 <= j < k ==> !crate::store::line_of(#[trigger] lines[j],
                            cmd.channel.id, uid)) || ((forall|k: int|
                        0 <= k < lines.len() ==> !crate::store::line_of(#[trigger] lines[k],
                        cmd.channel.id, uid)) && t@ == "\u{274C} nothing found | E2"@)))),
                }
            }),
            cmd.args@.len() == 0 ==> (r matches Dispatched::Done(o) && o matches Some(t) && ({
                let lines = old(self).chat_log.lines@;
                (exists|k: int|
                    0 <= k < lines.len() && crate::store::line_of(#[trigger] lines[k],
                    cmd.channel.id, cmd.sender.id) && t@ == lines[k].message@ && forall|j: int|
                        0 <= j < k ==> !crate::store::line_of(#[trigger] lines[j], cmd.channel.id,
                        cmd.sender.id)) || ((forall|k: int|
                    0 <= k < lines.len() ==> !crate::store::line_of(#[trigger] lines[k],
                    cmd.channel.id, cmd.sender.id)) && t@ == "\u{274C} nothing found | E2"@)
            })),
    {
        let (user, channel) = match self.user_channel_info_from_args(cmd, fetched) {
            TargetInfo::Found(u, c) => (u, c),
            TargetInfo::Failed(msg) => {
                return Dispatched::Done(Some(msg));
            },
            TargetInfo::Need(req) => {
                return Dispatched::Need(req);
            },
        };
        match self.chat_log.get_first_message(user.id, channel.id) {
            Some(msg) => Dispatched::Done(Some(msg)),
            None => Dispatched::Done(Some("\u{274C} nothing found | E2".to_owned())),
        }
    }

    /// How long the target user has sat in the target channel's offline
    /// chat.
    pub fn get_offline_time(&mut self, cmd: &CommandSource, fetched: &Fetched) -> (r: Dispatched)
        ensures
            final(self).history.items@ == old(self).history.items@,
            bindings_kept(old(self).name_id_cache.items@, final(self).name_id_cache.items@),
            cmd.args@.len() == 1 ==> ({
                let uname = cmd.args.deep_view()[0];
                let res = resolution_of(old(self).name_id_cache.items@, fetched@, uname);
                match r {
                    Dispatched::Need(q) => q matches ExtRequest::ResolveId(s) && s@ == uname
                        && res is None,
                    Dispatched::Done(o) => o matches Some(t) && ((res == Some(None::<i32>) && t@
                        == "\u{1F4A2} User `"@ + uname + "` was not found"@) || (
                    res matches Some(ou) && ou is Some)),
                }
            }),
            cmd.args@.len() == 0 ==> (r matches Dispatched::Done(o) && o matches Some(t) && exists|secs: u64|
                (#[trigger] crate::fmt::fmt_duration_spec(secs as nat, false)).len() >= 0 && t@
                    == cmd.sender.name@ + " has spent "@ + crate::fmt::fmt_duration_spec(
                    secs as nat,
                    false,
                ) + " in "@ + cmd.channel.name@ + "'s offline chat!"@ && ({
                    let rows = old(self).offliners.rows@;
                    (exists|k: int|
                        0 <= k < rows.len() && crate::store::offliner_matches(#[trigger] rows[k],
                        cmd.channel.id, cmd.sender.id) && secs == rows[k].seconds && forall|j: int|
                            0 <= j < k ==> !crate::store::offliner_matches(#[trigger] rows[j],
                            cmd.channel.id, cmd.sender.id)) || ((forall|k: int|
                        0 <= k < rows.len() ==> !crate::store::offliner_matches(#[trigger] rows[k],
                        cmd.channel.id, cmd.sender.id)) && secs == 0)
                })),
    {
        let (user, channel) = match self.user_channel_info_from_args(cmd, fetched) {
            TargetInfo::Found(u, c) => (u, c),
            TargetInfo::Failed(msg) => {
                return Dispatched::Done(Some(msg));
            },
            TargetInfo::Need(req) => {
                return Dispatched::Need(req);
            },
        };
        let secs = self.offliners.get_offline_time(channel.id, user.id);
        let mut out = user.name.clone();
        out.append(" has spent ");
        let dur = fmt_duration(secs, false);
        out.append(dur.as_str());
        out.append(" in ");
        out.append(channel.name.as_str());
        out.append("'s offline chat!");
        Dispatched::Done(Some(out))
    }

    /// How many of the sender's (or a named user's) logged messages in
    /// the channel contain a word, as a percentage with two decimals.
    #[verifier::rlimit(100)]
    #[verifier::spinoff_prover]
    pub fn get_word_ratio(&mut self, cmd: &CommandSource, fetched: &Fetched) -> (r: Dispatched)
        ensures
            final(self).history.items@ == old(self).history.items@,
            bindings_kept(old(self).name_id_cache.items@, final(self).name_id_cache.items@),
            cmd.args@.len() == 0 ==> (r matches Dispatched::Done(o) && o matches Some(t) && t@
                == "\u{274C} no word provided"@),
            cmd.args@.len() == 1 ==> (r matches Dispatched::Done(o) && o matches Some(t) && ({
                let lines = old(self).chat_log.lines@;
                let word = cmd.args.deep_view()[0];
                let prefix = old(self).config.prefix;
                let with_count = lines.filter(
                    |l: crate::store::LogLine|
                        crate::store::line_of(l, cmd.channel.id, cmd.sender.id)
                            && crate::text::has_substr(l.message@, word) && !(l.message@.len() > 0
                            && l.message@[0] == prefix),
                ).len();
                let total_count = lines.filter(
                    |l: crate::store::LogLine|
                        crate::store::line_of(l, cmd.channel.id, cmd.sender.id) && !(
                        l.message@.len() > 0 && l.message@[0] == prefix),
                ).len();
                let hundredths: int = if total_count == 0 {
                    0
                } else {
                    (with_count * 10000) as int / total_count as int
                };
                t@ == dec_rep((hundredths / 100) as nat) + seq!['.'] + (if hundredths % 100 < 10 {
                    seq!['0']
                } else {
                    Seq::<char>::empty()
                }) + dec_rep((hundredths % 100) as nat) + "% of tracked "@ + cmd.sender.name@
                    + "'s messages in this channel contain the word "@ + word
            })),
    {
        if cmd.args.len() == 0 {
            return Dispatched::Done(Some("\u{274C} no word provided".to_owned()));
        }
        let (user_name, user_id, word): (String, i32, String) = if cmd.args.len() == 1 {
            (cmd.sender.name.clone(), cmd.sender.id, cmd.args[0].clone())
        } else {
            match self.resolve_id(cmd.args[0].as_str(), fetched) {
                Ok(Some(id)) => (cmd.args[0].clone(), id, cmd.args[1].clone()),
                Ok(None) => {
                    return Dispatched::Done(Some("\u{274C} user does not exist".to_owned()));
                },
                Err(req) => {
                    return Dispatched::Need(req);
                },
            }
        };
        let (with_count, total_count) = self.chat_log.word_ratio_counts(
            cmd.channel.id,
            user_id,
            word.as_str(),
            self.config.prefix,
        );
        proof {
            crate::store::lemma_filter_stronger(
                self.chat_log.lines@,
                |l: crate::store::LogLine|
                    crate::store::line_of(l, cmd.channel.id, user_id) && crate::text::has_substr(
                        l.message@,
                        word@,
                    ) && !(l.message@.len() > 0 && l.message@[0] == self.config.prefix),
                |l: crate::store::LogLine|
                    crate::store::line_of(l, cmd.channel.id, user_id) && !(l.message@.len() > 0
                        && l.message@[0] == self.config.prefix),
            );
            assert(with_count <= total_count);
        }
        let hundredths: u64 = if total_count == 0 {
            0
        } else {
            proof {
                let w = with_count as int;
                let tt = total_count as int;
                assert(w * 10000 <= tt * 10000) by (nonlinear_arith)
                    requires
                        w <= tt,
                ;
                vstd::arithmetic::div_mod::lemma_div_is_ordered(w * 10000, tt * 10000, tt);
                vstd::arithmetic::div_mod::lemma_div_multiples_vanish(10000, tt);
                assert((tt * 10000) / tt == 10000);
                assert((w * 10000) / tt <= 10000);
            }
            (((with_count as u128) * 10000) / (total_count as u128)) as u64
        };
        let mut out = u64_to_string(hundredths / 100);
        out.push('.');
        let frac = hundredths % 100;
        if frac < 10 {
            out.push('0');
        }
        let frac_digits = u64_to_string(frac);
        out.append(frac_digits.as_str());
        out.append("% of tracked ");
        out.append(user_name.as_str());
        out.append("'s messages in this channel contain the word ");
        out.append(word.as_str());
        Dispatched::Done(Some(out))
    }

    /// Where and when the named user was last seen across the
    /// configured channels.
    pub fn find_last_seen(&mut self, cmd: &CommandSource, fetched: &Fetched) -> (r: Dispatched)
        ensures
            final(self).history.items@ == old(self).history.items@,
            bindings_kept(old(self).name_id_cache.items@, final(self).name_id_cache.items@),
            cmd.args@.len() == 0 ==> (r matches Dispatched::Done(o) && o matches Some(t) && t@
                == "\u{274C} provide a user that you want to find"@),
    {
        if cmd.args.len() == 0 {
            return Dispatched::Done(
                Some("\u{274C} provide a user that you want to find".to_owned()),
            );
        }
        let target_name = cmd.args[0].clone();
        let target_id = match self.resolve_id(target_name.as_str(), fetched) {
            Ok(Some(id)) => id,
            Ok(None) => {
                let mut m = "\u{274C} user '".to_owned();
                m.append(target_name.as_str());
                m.append("' doesn't exist");
                return Dispatched::Done(Some(m));
            },
            Err(req) => {
                return Dispatched::Need(req);
            },
        };
        let mut latest: Option<i64> = None;
        let mut found_in: Option<String> = None;
        let n = self.config.channels.len();
        let mut i: usize = 0;
        while i < n
            invariant
                i <= n,
                n == self.config.channels@.len(),
                bindings_kept(old(self).name_id_cache.items@, self.name_id_cache.items@),
                self.history.items@ == old(self).history.items@,
            decreases n - i,
        {
            let channel_name = self.config.channels[i].clone();
            let channel_id = match self.resolve_id(channel_name.as_str(), fetched) {
                Ok(Some(id)) => id,
                Ok(None) => {
                    i = i + 1;
                    continue ;
                },
                Err(req) => {
                    return Dispatched::Need(req);
                },
            };
            match self.chat_log.latest_message_date(channel_id, target_id) {
                Some(ts) => {
                    let better = match latest {
                        Some(best) => ts > best,
                        None => true,
                    };
                    if better {
                        latest = Some(ts);
                        found_in = Some(channel_name);
                    }
                },
                None => {},
            }
            i = i + 1;
        }
        match (latest, found_in) {
            (Some(ts), Some(chan)) => {
                let ago: u64 = if cmd.timestamp >= ts {
                    let wide: i128 = (cmd.timestamp as i128) - (ts as i128);
                    if wide > u64::MAX as i128 {
                        u64::MAX
                    } else {
                        wide as u64
                    }
                } else {
                    0
                };
                let mut out = "\u{231B} ".to_owned();
                out.append(target_name.as_str());
                out.append(" was last seen ");
                let dur = fmt_duration(ago, false);
                out.append(dur.as_str());
                out.append(" in ");
                out.append(chan.as_str());
                Dispatched::Done(Some(out))
            },
            _ => {
                let mut out = "\u{274C} ".to_owned();
                out.append(target_name.as_str());
                out.append(" not found in records");
                Dispatched::Done(Some(out))
            },
        }
    }
}

/// The repeat count demultiplex runs: the parsed leading count, clamped
/// into one to fifty; nothing when the argument is not a positive
/// number.
pub open spec fn demux_rounds_spec(s: Seq<char>) -> Option<int> {
    if s.len() > 0 && (forall|j: int| 0 <= j < s.len() ==> is_dec_digit(#[trigger] s[j]))
        && digits_val(s) <= u64::MAX {
        if digits_val(s) < 1 {
            Some(1)
        } else if digits_val(s) < 50 {
            Some(digits_val(s) as int)
        } else {
            Some(50)
        }
    } else {
        None
    }
}

/// Parse and clamp the repeat count of a demultiplex invocation into
/// one to fifty: a request beyond fifty repetitions runs fifty times,
/// and a request of zero runs once.
pub fn demux_round_count(s: &str) -> (r: Option<u64>)
    ensures
        match r {
            Some(v) => demux_rounds_spec(s@) == Some(v as int) && 1 <= v <= 50,
            None => demux_rounds_spec(s@) is None,
        },
{
    match parse_u64(s) {
        Some(n) => {
            if n == 0 {
                Some(1)
            } else if n < 50 {
                Some(n)
            } else {
                Some(50)
            }
        },
        None => None,
    }
}

/// Apply a terminal transform verb to the running accumulator: `lower`
/// and `upper` fold its case, `stdout` leaves it as it is, `devnull`
/// and `/dev/null` clear it. Any other stage is no local transform and
/// gets the accumulator handed back untouched.
pub fn apply_pipe_transform(acc: String, stage: &str) -> (r: Result<String, String>)
    ensures
        stage@ == "lower"@ ==> (r matches Ok(t) && t@ == lower_of(acc@)),
        stage@ == "upper"@ ==> (r matches Ok(t) && t@ == crate::text::upper_of(acc@)),
        stage@ == "stdout"@ ==> (r matches Ok(t) && t@ == acc@),
        stage@ == "/dev/null"@ || stage@ == "devnull"@ ==> (r matches Ok(t) && t@
            == Seq::<char>::empty()),
        stage@ != "lower"@ && stage@ != "upper"@ && stage@ != "stdout"@ && stage@ != "/dev/null"@
            && stage@ != "devnull"@ ==> (r matches Err(a) && a == acc),
{
    proof {
        reveal_strlit("lower");
        reveal_strlit("upper");
        reveal_strlit("stdout");
        reveal_strlit("/dev/null");
        reveal_strlit("devnull");
        assert("lower"@.len() == 5);
        assert("upper"@.len() == 5);
        assert("stdout"@.len() == 6);
        assert("/dev/null"@.len() == 9);
        assert("devnull"@.len() == 7);
        assert("lower"@[0] == 'l' && "upper"@[0] == 'u');
    }
    if str_eq(stage, "lower") {
        Ok(lowercase(acc.as_str()))
    } else if str_eq(stage, "upper") {
        Ok(crate::text::uppercase(acc.as_str()))
    } else if str_eq(stage, "stdout") {
        Ok(acc)
    } else if str_eq(stage, "/dev/null") || str_eq(stage, "devnull") {
        Ok(String::new())
    } else {
        Err(acc)
    }
}

/// An ordinary stage's output replaces the accumulator outright: the
/// stage never reads the accumulator, so the replacement is a function
/// of the stage's own output alone — silence clears it.
pub fn pipe_stage_replace(stage_output: Option<String>) -> (r: String)
    ensures
        r@ == match stage_output {
            Some(t) => t@,
            None => Seq::<char>::empty(),
        },
{
    match stage_output {
        Some(t) => t,
        None => String::new(),
    }
}

/// The demultiplexed reply over the rounds' outputs: each round that
/// produced text appends one space and that text; a silent round
/// appends nothing.
pub open spec fn spaced_outputs(vals: Seq<Option<Seq<char>>>) -> Seq<char>
    decreases vals.len(),
{
    if vals.len() == 0 {
        Seq::empty()
    } else {
        spaced_outputs(vals.drop_last()) + match vals.last() {
            Some(t) => seq![' '] + t,
            None => Seq::empty(),
        }
    }
}

/// The runtime's answer about a channel's stream, read from the first
/// entry that asks for it.
pub open spec fn stream_answer(
    fetched: Seq<(ExtRequest, ExtResponse)>,
    name: Seq<char>,
) -> Option<ExtResponse>
    decreases fetched.len(),
{
    if fetched.len() == 0 {
        None
    } else if fetched[0].0 matches ExtRequest::StreamInfo(s) && s@ == name {
        Some(fetched[0].1)
    } else {
        stream_answer(fetched.drop_first(), name)
    }
}

/// The runtime's answer about a channel's chatters, read from the first
/// entry that asks for it.
pub open spec fn chatters_answer(
    fetched: Seq<(ExtRequest, ExtResponse)>,
    name: Seq<char>,
) -> Option<ExtResponse>
    decreases fetched.len(),
{
    if fetched.len() == 0 {
        None
    } else if fetched[0].0 matches ExtRequest::Chatters(s) && s@ == name {
        Some(fetched[0].1)
    } else {
        chatters_answer(fetched.drop_first(), name)
    }
}

/// The two spec lookups for a stream question agree.
proof fn lemma_stream_answer_is_response_for(
    fetched: Seq<(ExtRequest, ExtResponse)>,
    req: ExtRequest,
    name: Seq<char>,
)
    requires
        req matches ExtRequest::StreamInfo(s) && s@ == name,
    ensures
        stream_answer(fetched, name) == response_for(fetched, req),
    decreases fetched.len(),
{
    if fetched.len() > 0 {
        lemma_stream_answer_is_response_for(fetched.drop_first(), req, name);
    }
}

/// The two spec lookups for a chatter question agree.
proof fn lemma_chatters_answer_is_response_for(
    fetched: Seq<(ExtRequest, ExtResponse)>,
    req: ExtRequest,
    name: Seq<char>,
)
    requires
        req matches ExtRequest::Chatters(s) && s@ == name,
    ensures
        chatters_answer(fetched, name) == response_for(fetched, req),
    decreases fetched.len(),
{
    if fetched.len() > 0 {
        lemma_chatters_answer_is_response_for(fetched.drop_first(), req, name);
    }
}

/// Resolving a name leaves every name's resolution as it was: the one
/// possible cache change is caching the very answer the resolution
/// read.
proof fn lemma_resolution_preserved_by_resolve(
    pre: Seq<crate::cache::NameIdEntry>,
    post: Seq<crate::cache::NameIdEntry>,
    fetched: Seq<(ExtRequest, ExtResponse)>,
    name: Seq<char>,
)
    requires
        post == pre || (post.len() == pre.len() + 1 && post.drop_last() == pre && post.last().name@
            == name && cached_id(pre, name) is None && resolution_of(pre, fetched, name) == Some(
            Some(post.last().id),
        )),
    ensures
        forall|nm: Seq<char>|
            #[trigger] resolution_of(pre, fetched, nm) == resolution_of(post, fetched, nm),
{
    if post != pre {
        assert(post =~= pre.push(post.last()));
        assert forall|nm: Seq<char>| #[trigger] resolution_of(pre, fetched, nm) == resolution_of(
            post,
            fetched,
            nm,
        ) by {
            lemma_resolution_after_push(pre, fetched, post.last(), name, nm);
        }
    }
}

/// The channel's stream question was answered, and not with a running
/// stream.
pub open spec fn stream_not_live(
    fetched: Seq<(ExtRequest, ExtResponse)>,
    name: Seq<char>,
) -> bool {
    match stream_answer(fetched, name) {
        Some(ExtResponse::MaybeStamp(Some(_))) => false,
        Some(_) => true,
        None => false,
    }
}

/// The chatter names the runtime answered for the channel; empty when
/// the question is unanswered or malformed.
pub open spec fn chatter_list(
    fetched: Seq<(ExtRequest, ExtResponse)>,
    name: Seq<char>,
) -> Seq<Seq<char>> {
    match chatters_answer(fetched, name) {
        Some(ExtResponse::MaybeNames(Some(list))) => list.deep_view(),
        _ => Seq::empty(),
    }
}

/// A credited pair is justified by the runtime's answers: some
/// configured channel whose stream question was not answered with a
/// running stream had this chatter in its answered list, the chatter is
/// not disregarded, and channel and chatter resolve to the credited
/// ids.
pub open spec fn credit_justified(
    channels: Seq<Seq<char>>,
    disregarded: Seq<Seq<char>>,
    cache_items: Seq<crate::cache::NameIdEntry>,
    fetched: Seq<(ExtRequest, ExtResponse)>,
    pair: (i32, i32),
) -> bool {
    exists|ci: int, name: Seq<char>|
        #![trigger stream_answer(fetched, channels[ci]), lower_of(name)]
        0 <= ci < channels.len() && (match stream_answer(fetched, channels[ci]) {
            Some(ExtResponse::MaybeStamp(Some(_))) => false,
            Some(_) => true,
            None => false,
        }) && (match chatters_answer(fetched, channels[ci]) {
            Some(ExtResponse::MaybeNames(Some(list))) => list.deep_view().contains(name),
            _ => false,
        }) && !disregarded.contains(lower_of(name)) && resolution_of(
            cache_items,
            fetched,
            channels[ci],
        ) == Some(Some(pair.0)) && resolution_of(cache_items, fetched, name) == Some(Some(pair.1))
}

/// The accrual table after crediting one polling interval to each
/// (channel, chatter) pair in order.
pub open spec fn upsert_pairs(
    rows: Seq<crate::store::OfflinerRow>,
    pairs: Seq<(i32, i32)>,
) -> Seq<crate::store::OfflinerRow>
    decreases pairs.len(),
{
    if pairs.len() == 0 {
        rows
    } else {
        crate::store::upsert_minute(
            upsert_pairs(rows, pairs.drop_last()),
            pairs.last().0,
            pairs.last().1,
        )
    }
}

/// The lines of an emote pyramid: the repetition grows to the peak and
/// shrinks back down to the empty line.
pub open spec fn emote_rep(e: Seq<char>, k: int) -> Seq<char>
    decreases k,
{
    if k <= 0 {
        Seq::empty()
    } else {
        emote_rep(e, k - 1) + e + seq![' ']
    }
}

impl Bot {
    /// Run a stored alias of the sender: the expansion is re-tokenized
    /// into a fresh invocation and dispatched.
    #[verifier::rlimit(100)]
    #[verifier::spinoff_prover]
    pub fn execute_alias(&mut self, cmd: &CommandSource, fetched: &Fetched, depth: u32) -> (r:
        Dispatched)
        requires
            depth >= 1,
        ensures
            cmd.is_pipe ==> final(self).history.items@ == old(self).history.items@,
            cached_id(old(self).name_id_cache.items@, cmd.sender.name@) == Some(cmd.sender.id)
                ==> cached_id(final(self).name_id_cache.items@, cmd.sender.name@) == Some(
                cmd.sender.id,
            ),
            cmd.args@.len() == 0 ==> (r matches Dispatched::Done(o) && o matches Some(t) && t@
                == "\u{274C} missing alias name"@),
            cmd.args@.len() > 0 && (forall|k: int|
                0 <= k < old(self).aliases.items@.len() ==> !crate::store::alias_matches(
                    #[trigger] old(self).aliases.items@[k],
                    cmd.sender.id,
                    cmd.args.deep_view()[0],
                )) ==> (r matches Dispatched::Done(o) && o matches Some(t) && t@
                == "\u{274C} alias not recognized"@ && *final(self) == *old(self)),
            ({
                let items = old(self).aliases.items@;
                forall|k: int|
                    (0 <= k < items.len() && crate::store::alias_matches(#[trigger] items[k],
                    cmd.sender.id, cmd.args.deep_view()[0]) && (forall|j: int|
                        0 <= j < k ==> !crate::store::alias_matches(#[trigger] items[j],
                        cmd.sender.id, cmd.args.deep_view()[0])) && crate::text::split_spec(
                        items[k].expansion@,
                        ' ',
                    )[0].len() == 0 && cmd.args@.len() > 0) ==> (r matches Dispatched::Done(o)
                        && o matches Some(t) && t@ == "\u{274C} alias faulty"@)
            }),
            ({
                let items = old(self).aliases.items@;
                let prefix = old(self).config.prefix;
                forall|k: int|
                    (0 <= k < items.len() && crate::store::alias_matches(#[trigger] items[k],
                    cmd.sender.id, cmd.args.deep_view()[0]) && (forall|j: int|
                        0 <= j < k ==> !crate::store::alias_matches(#[trigger] items[j],
                        cmd.sender.id, cmd.args.deep_view()[0])) && crate::text::split_spec(
                        items[k].expansion@,
                        ' ',
                    )[0].len() > 0 && cmd.args@.len() > 0 && depth >= 2) ==> ({
                        let tokens = crate::text::split_spec(items[k].expansion@, ' ');
                        match r {
                            Dispatched::Need(_) => true,
                            Dispatched::Done(o) => exists|v: Option<Seq<char>>|
                                (#[trigger] sub_output_law(
                                    token_command_name(tokens[0], prefix),
                                    tokens.drop_first(),
                                    cmd.sender.statuses@,
                                    cmd.is_pipe,
                                    v,
                                )) && match o {
                                    Some(t) => v == Some(t@),
                                    None => v is None,
                                },
                        }
                    })
            }),
        decreases depth, 0int,
    {
        if cmd.args.len() == 0 {
            return Dispatched::Done(Some("\u{274C} missing alias name".to_owned()));
        }
        let expansion = match self.aliases.get_alias_cmd(cmd.sender.id, cmd.args[0].as_str()) {
            Some(e) => e,
            None => {
                return Dispatched::Done(Some("\u{274C} alias not recognized".to_owned()));
            },
        };
        proof {
            let items = self.aliases.items@;
            let aname = cmd.args.deep_view()[0];
            let k0 = choose|k0: int|
                0 <= k0 < items.len() && crate::store::alias_matches(
                    #[trigger] items[k0],
                    cmd.sender.id,
                    aname,
                ) && expansion@ == items[k0].expansion@ && forall|j: int|
                    0 <= j < k0 ==> !crate::store::alias_matches(
                        #[trigger] items[j],
                        cmd.sender.id,
                        aname,
                    );
            assert forall|k: int|
                0 <= k < items.len() && crate::store::alias_matches(#[trigger] items[k],
                cmd.sender.id, aname) && (forall|j: int|
                    0 <= j < k ==> !crate::store::alias_matches(#[trigger] items[j], cmd.sender.id,
                    aname)) implies items[k].expansion@ == expansion@ by {
                if k < k0 {
                    assert(!crate::store::alias_matches(items[k], cmd.sender.id, aname));
                } else if k0 < k {
                    assert(!crate::store::alias_matches(items[k0], cmd.sender.id, aname));
                }
            }
        }
        let tokens = split_char(expansion.as_str(), ' ');
        let head = &tokens[0];
        let head_len = head.as_str().unicode_len();
        if head_len == 0 {
            return Dispatched::Done(Some("\u{274C} alias faulty".to_owned()));
        }
        let name = strip_prefix_char(head.as_str(), self.config.prefix);
        let mut args: Vec<String> = Vec::new();
        let n = tokens.len();
        let mut i: usize = 1;
        proof {
            assert(args.deep_view() =~= tokens.deep_view().subrange(1, 1));
        }
        while i < n
            invariant
                1 <= i <= n,
                n == tokens@.len(),
                args.deep_view() == tokens.deep_view().subrange(1, i as int),
            decreases n - i,
        {
            args.push(tokens[i].clone());
            proof {
                assert(args.deep_view() =~= tokens.deep_view().subrange(1, i + 1));
            }
            i = i + 1;
        }
        proof {
            assert(args.deep_view() =~= tokens.deep_view().drop_first());
        }
        let new_cmd = CommandSource {
            cmd: name,
            args,
            sender: cmd.sender.duplicate(),
            channel: cmd.channel.duplicate(),
            timestamp: cmd.timestamp,
            is_pipe: cmd.is_pipe,
        };
        let outcome = self.dispatch(&new_cmd, fetched, depth - 1);
        proof {
            if depth >= 2 {
                match outcome {
                    Dispatched::Done(ref o) => {
                        let v = match o {
                            Some(t) => Some(t@),
                            None => None::<Seq<char>>,
                        };
                        assert(sub_output_law(
                            new_cmd.cmd@,
                            new_cmd.args.deep_view(),
                            cmd.sender.statuses@,
                            cmd.is_pipe,
                            v,
                        ));
                    },
                    Dispatched::Need(_) => {},
                }
            }
        }
        outcome
    }

    /// Chain commands: split the argument text on `|` into stages. A
    /// transform verb applies to the running accumulator; every other
    /// stage is dispatched as its own command, whose output replaces the
    /// accumulator. Ordinary stages never read the accumulator; the
    /// final output is whichever stage ran last.
    #[verifier::rlimit(100)]
    #[verifier::spinoff_prover]
    pub fn pipe(&mut self, cmd: &CommandSource, fetched: &Fetched, depth: u32) -> (r: Dispatched)
        requires
            depth >= 1,
        ensures
            final(self).history.items@ == old(self).history.items@,
            cached_id(old(self).name_id_cache.items@, cmd.sender.name@) == Some(cmd.sender.id)
                ==> cached_id(final(self).name_id_cache.items@, cmd.sender.name@) == Some(
                cmd.sender.id,
            ),
            crate::text::split_spec(join_with(cmd.args.deep_view(), ' '), '|').len() < 2 ==> (
            r matches Dispatched::Done(o) && o matches Some(t) && t@
                == "\u{274C} no command to pipe"@ && *final(self) == *old(self)),
            ({
                let stages = crate::text::split_spec(join_with(cmd.args.deep_view(), ' '), '|');
                let prefix = old(self).config.prefix;
                depth >= 2 && stages.len() >= 2 && (forall|i: int|
                    0 <= i < stages.len() ==> is_transform_verb(
                        crate::text::trim_spec(#[trigger] stages[i]),
                    ) || crate::text::trim_spec(stages[i]) == "pastebin"@ || stage_tokens(
                        stages[i],
                    )[0].len() > 0) ==> match r {
                    Dispatched::Need(_) => true,
                    Dispatched::Done(o) => o matches Some(t) && exists|vals: Seq<Option<Seq<char>>>|
                        (#[trigger] vals.len()) == stages.len() && t@ == pipe_fold(
                            stages,
                            vals,
                            fetched@,
                            stages.len() as int,
                        ) && forall|i: int|
                            0 <= i < stages.len() && !is_transform_verb(
                                crate::text::trim_spec(#[trigger] stages[i]),
                            ) && crate::text::trim_spec(stages[i]) != "pastebin"@
                                ==> sub_output_law(
                                token_command_name(stage_tokens(stages[i])[0], prefix),
                                stage_tokens(stages[i]).drop_first(),
                                cmd.sender.statuses@,
                                true,
                                vals[i],
                            ),
                }
            }),
        decreases depth, 0int,
    {
        let joined = join_char(&cmd.args, ' ');
        let stages = split_char(joined.as_str(), '|');
        if stages.len() < 2 {
            return Dispatched::Done(Some("\u{274C} no command to pipe".to_owned()));
        }
        let prefix_char = self.config.prefix;
        let ghost sv = stages.deep_view();
        let ghost mut vals: Seq<Option<Seq<char>>> = Seq::empty();
        let mut acc = String::new();
        let n = stages.len();
        let mut i: usize = 0;
        while i < n
            invariant
                i <= n,
                n == stages@.len(),
                depth >= 1,
                prefix_char == old(self).config.prefix,
                sv == stages.deep_view(),
                vals.len() == i,
                acc@ == pipe_fold(sv, vals, fetched@, i as int),
                depth >= 2 ==> forall|j: int|
                    0 <= j < i && !is_transform_verb(crate::text::trim_spec(#[trigger] sv[j]))
                        && crate::text::trim_spec(sv[j]) != "pastebin"@ ==> sub_output_law(
                        token_command_name(stage_tokens(sv[j])[0], prefix_char),
                        stage_tokens(sv[j]).drop_first(),
                        cmd.sender.statuses@,
                        true,
                        vals[j],
                    ),
                self.history.items@ == old(self).history.items@,
                cached_id(old(self).name_id_cache.items@, cmd.sender.name@) == Some(cmd.sender.id)
                    ==> cached_id(self.name_id_cache.items@, cmd.sender.name@) == Some(
                    cmd.sender.id,
                ),
            decreases n - i,
        {
            let ghost vals0 = vals;
            let ghost acc0 = acc@;
            let stage = crate::text::trim_spaces(stages[i].as_str());
            let s = stage.as_str();
            if str_eq(s, "pastebin") {
                proof {
                    reveal_strlit("pastebin");
                }
                let req = ExtRequest::Paste(acc.clone());
                proof {
                    lemma_paste_response_is_response_for(fetched@, req, acc0);
                }
                match find_response(fetched, &req) {
                    Some(k) => {
                        match &fetched[k].1 {
                            ExtResponse::Text(url) => {
                                acc = url.clone();
                            },
                            _ => {
                                acc = String::new();
                            },
                        }
                        proof {
                            vals = vals0.push(None);
                            lemma_pipe_fold_prefix(sv, vals0, vals, fetched@, i as int);
                            assert(acc@ == pipe_fold(sv, vals, fetched@, i + 1));
                        }
                    },
                    None => {
                        return Dispatched::Need(req);
                    },
                }
            } else {
                match apply_pipe_transform(acc, s) {
                    Ok(transformed) => {
                        acc = transformed;
                        proof {
                            vals = vals0.push(None);
                            lemma_pipe_fold_prefix(sv, vals0, vals, fetched@, i as int);
                            assert(acc@ == pipe_fold(sv, vals, fetched@, i + 1));
                        }
                    },
                    Err(acc_back) => {
                        acc = acc_back;
                        let tokens = split_char(s, ' ');
                        let head = &tokens[0];
                        let head_len = head.as_str().unicode_len();
                        if head_len == 0 {
                            let mut msg = "\u{274C} ".to_owned();
                            let num = u64_to_string((i as u64) + 1);
                            msg.append(num.as_str());
                            msg.append("th pipe faulty");
                            return Dispatched::Done(Some(msg));
                        }
                        let name = strip_prefix_char(head.as_str(), prefix_char);
                        let mut args: Vec<String> = Vec::new();
                        let tn = tokens.len();
                        let mut t: usize = 1;
                        while t < tn
                            invariant
                                1 <= t <= tn,
                                tn == tokens@.len(),
                                args.deep_view() == tokens.deep_view().subrange(1, t as int),
                            decreases tn - t,
                        {
                            args.push(tokens[t].clone());
                            proof {
                                assert(args.deep_view() =~= tokens.deep_view().subrange(
                                    1,
                                    t + 1,
                                ));
                            }
                            t = t + 1;
                        }
                        proof {
                            assert(args.deep_view() =~= tokens.deep_view().drop_first());
                            assert(tokens.deep_view() == stage_tokens(sv[i as int]));
                        }
                        let new_cmd = CommandSource {
                            cmd: name,
                            args,
                            sender: cmd.sender.duplicate(),
                            channel: cmd.channel.duplicate(),
                            timestamp: cmd.timestamp,
                            is_pipe: true,
                        };
                        match self.dispatch(&new_cmd, fetched, depth - 1) {
                            Dispatched::Done(out) => {
                                proof {
                                    vals = vals0.push(
                                        match out {
                                            Some(ref tx) => Some(tx@),
                                            None => None,
                                        },
                                    );
                                    lemma_pipe_fold_prefix(sv, vals0, vals, fetched@, i as int);
                                }
                                acc = pipe_stage_replace(out);
                                proof {
                                    assert(acc@ == pipe_fold(sv, vals, fetched@, i + 1));
                                }
                            },
                            Dispatched::Need(req) => {
                                return Dispatched::Need(req);
                            },
                        }
                    },
                }
            }
            i = i + 1;
        }
        proof {
            assert(acc@ == pipe_fold(sv, vals, fetched@, sv.len() as int));
        }
        Dispatched::Done(Some(acc))
    }

    /// Run a sub-command several times, concatenating the non-empty
    /// outputs; requires mod, VIP or broadcaster standing, and the
    /// repeat count is clamped to at most fifty.
    #[verifier::rlimit(100)]
    #[verifier::spinoff_prover]
    pub fn demultiplex(&mut self, cmd: &CommandSource, fetched: &Fetched, depth: u32) -> (r:
        Dispatched)
        requires
            depth >= 1,
        ensures
            final(self).history.items@ == old(self).history.items@,
            cached_id(old(self).name_id_cache.items@, cmd.sender.name@) == Some(cmd.sender.id)
                ==> cached_id(final(self).name_id_cache.items@, cmd.sender.name@) == Some(
                cmd.sender.id,
            ),
            !crate::types::is_mvb_spec(cmd.sender.statuses@) ==> (r matches Dispatched::Done(o)
                && o matches Some(t) && t@ == "\u{274C} requires MVB privileges | E4"@
                && *final(self) == *old(self)),
            crate::types::is_mvb_spec(cmd.sender.statuses@) && cmd.args@.len() == 0 ==> (
            r matches Dispatched::Done(o) && o matches Some(t) && t@
                == "\u{274C} insufficient args"@),
            crate::types::is_mvb_spec(cmd.sender.statuses@) && cmd.args@.len() == 1 ==> (
            r matches Dispatched::Done(o) && o matches Some(t) && t@
                == "\u{274C} missing actual command"@),
            crate::types::is_mvb_spec(cmd.sender.statuses@) && cmd.args@.len() >= 2
                && demux_rounds_spec(cmd.args.deep_view()[0]) is None ==> (
            r matches Dispatched::Done(o) && o matches Some(t) && t@
                == "\u{274C} first arg should be a positive integer"@),
            crate::types::is_mvb_spec(cmd.sender.statuses@) && cmd.args@.len() >= 2
                && demux_rounds_spec(cmd.args.deep_view()[0]) is Some && cmd.args.deep_view()[1].len()
                > 0 && depth >= 2 ==> match r {
                Dispatched::Need(_) => true,
                Dispatched::Done(o) => o matches Some(t) && exists|vals: Seq<Option<Seq<char>>>|
                    (#[trigger] vals.len()) == demux_rounds_spec(cmd.args.deep_view()[0])->0 && t@
                        == spaced_outputs(vals) && forall|k: int|
                        0 <= k < vals.len() ==> sub_output_law(
                            token_command_name(
                                cmd.args.deep_view()[1],
                                old(self).config.prefix,
                            ),
                            cmd.args.deep_view().skip(2),
                            cmd.sender.statuses@,
                            true,
                            vals[k],
                        ),
            },
        decreases depth, 0int,
    {
        if !cmd.sender.is_mvb() {
            return Dispatched::Done(Some("\u{274C} requires MVB privileges | E4".to_owned()));
        }
        if cmd.args.len() == 0 {
            return Dispatched::Done(Some("\u{274C} insufficient args".to_owned()));
        }
        if cmd.args.len() == 1 {
            return Dispatched::Done(Some("\u{274C} missing actual command".to_owned()));
        }
        proof {
            assert(cmd.args.deep_view()[0] == cmd.args@[0]@);
        }
        let rounds = match demux_round_count(cmd.args[0].as_str()) {
            Some(n) => n,
            None => {
                return Dispatched::Done(
                    Some("\u{274C} first arg should be a positive integer".to_owned()),
                );
            },
        };
        let head = &cmd.args[1];
        let head_len = head.as_str().unicode_len();
        if head_len == 0 {
            return Dispatched::Done(Some("\u{274C} alias faulty".to_owned()));
        }
        let name = strip_prefix_char(head.as_str(), self.config.prefix);
        let mut args: Vec<String> = Vec::new();
        let n = cmd.args.len();
        let mut i: usize = 2;
        proof {
            assert(args.deep_view() =~= cmd.args.deep_view().subrange(2, 2));
        }
        while i < n
            invariant
                2 <= i <= n,
                n == cmd.args@.len(),
                args.deep_view() == cmd.args.deep_view().subrange(2, i as int),
            decreases n - i,
        {
            args.push(cmd.args[i].clone());
            proof {
                assert(args.deep_view() =~= cmd.args.deep_view().subrange(2, i + 1));
            }
            i = i + 1;
        }
        proof {
            assert(args.deep_view() =~= cmd.args.deep_view().skip(2));
        }
        let new_cmd = CommandSource {
            cmd: name,
            args,
            sender: cmd.sender.duplicate(),
            channel: cmd.channel.duplicate(),
            timestamp: cmd.timestamp,
            is_pipe: true,
        };
        let mut out = String::new();
        let ghost mut vals: Seq<Option<Seq<char>>> = Seq::empty();
        let mut round: u64 = 0;
        while round < rounds
            invariant
                round <= rounds,
                depth >= 1,
                vals.len() == round,
                out@ == spaced_outputs(vals),
                new_cmd.cmd@ == token_command_name(
                    cmd.args.deep_view()[1],
                    old(self).config.prefix,
                ),
                new_cmd.args.deep_view() == cmd.args.deep_view().skip(2),
                new_cmd.sender.statuses@ == cmd.sender.statuses@,
                new_cmd.is_pipe,
                2 <= cmd.args@.len(),
                depth >= 2 ==> forall|k: int|
                    0 <= k < vals.len() ==> sub_output_law(
                        token_command_name(cmd.args.deep_view()[1], old(self).config.prefix),
                        cmd.args.deep_view().skip(2),
                        cmd.sender.statuses@,
                        true,
                        vals[k],
                    ),
                self.history.items@ == old(self).history.items@,
                cached_id(old(self).name_id_cache.items@, cmd.sender.name@) == Some(cmd.sender.id)
                    ==> cached_id(self.name_id_cache.items@, cmd.sender.name@) == Some(
                    cmd.sender.id,
                ),
            decreases rounds - round,
        {
            let ghost vals0 = vals;
            let sub = new_cmd.duplicate();
            match self.dispatch(&sub, fetched, depth - 1) {
                Dispatched::Done(Some(text)) => {
                    let ghost out0 = out@;
                    out.push(' ');
                    out.append(text.as_str());
                    proof {
                        vals = vals0.push(Some(text@));
                        assert(vals.drop_last() =~= vals0);
                        assert(out@ =~= out0 + seq![' '] + text@);
                    }
                },
                Dispatched::Done(None) => {
                    proof {
                        vals = vals0.push(None);
                        assert(vals.drop_last() =~= vals0);
                        assert(out@ + Seq::<char>::empty() =~= out@);
                    }
                },
                Dispatched::Need(req) => {
                    return Dispatched::Need(req);
                },
            }
            round = round + 1;
        }
        Dispatched::Done(Some(out))
    }

    /// Run a sub-command and report its wall-clock time instead of its
    /// output.
    pub fn bench_command(&mut self, cmd: &CommandSource, fetched: &Fetched, depth: u32) -> (r:
        Dispatched)
        requires
            depth >= 1,
        ensures
            final(self).history.items@ == old(self).history.items@,
            cached_id(old(self).name_id_cache.items@, cmd.sender.name@) == Some(cmd.sender.id)
                ==> cached_id(final(self).name_id_cache.items@, cmd.sender.name@) == Some(
                cmd.sender.id,
            ),
            cmd.args@.len() == 0 ==> (r matches Dispatched::Done(o) && o matches Some(t) && t@
                == "\u{274C} no command provided"@),
            cmd.args@.len() > 0 && cmd.args.deep_view()[0].len() > 0 ==> match r {
                Dispatched::Need(_) => true,
                Dispatched::Done(o) => o matches Some(t) && exists|ms: u64|
                    t@ == "\u{1F4E1} "@ + (#[trigger] dec_rep(ms as nat)) + " ms"@,
            },
        decreases depth, 0int,
    {
        if cmd.args.len() == 0 {
            return Dispatched::Done(Some("\u{274C} no command provided".to_owned()));
        }
        let head = &cmd.args[0];
        let head_len = head.as_str().unicode_len();
        if head_len == 0 {
            return Dispatched::Done(Some("\u{274C} no command provided".to_owned()));
        }
        let name = strip_prefix_char(head.as_str(), self.config.prefix);
        let mut args: Vec<String> = Vec::new();
        let n = cmd.args.len();
        let mut i: usize = 1;
        while i < n
            invariant
                1 <= i <= n,
            decreases n - i,
        {
            args.push(cmd.args[i].clone());
            i = i + 1;
        }
        let new_cmd = CommandSource {
            cmd: name,
            args,
            sender: cmd.sender.duplicate(),
            channel: cmd.channel.duplicate(),
            timestamp: cmd.timestamp,
            is_pipe: true,
        };
        let start = crate::clock::now_instant();
        match self.dispatch(&new_cmd, fetched, depth - 1) {
            Dispatched::Need(req) => Dispatched::Need(req),
            Dispatched::Done(_) => {
                let ms = crate::clock::elapsed_ms(&start);
                let mut out = "\u{1F4E1} ".to_owned();
                let num = u64_to_string(ms);
                out.append(num.as_str());
                out.append(" ms");
                Dispatched::Done(Some(out))
            },
        }
    }

    /// Register a message hook in the channel; requires mod, VIP or
    /// broadcaster standing.
    pub fn create_hook(&mut self, cmd: &CommandSource) -> (r: String)
        ensures
            final(self).history.items@ == old(self).history.items@,
            final(self).name_id_cache == old(self).name_id_cache,
            !crate::types::is_mvb_spec(cmd.sender.statuses@) ==> r@
                == "\u{274C} requires MVB privileges | E4"@ && final(self).channel_states == old(
                self,
            ).channel_states,
            crate::types::is_mvb_spec(cmd.sender.statuses@) && cmd.args@.len() == 0 ==> r@
                == "\u{274C} no hook name provided"@ && final(self).channel_states == old(
                self,
            ).channel_states,
            crate::types::is_mvb_spec(cmd.sender.statuses@) && cmd.args@.len() == 1 ==> r@
                == "\u{274C} no hook type provided"@ && final(self).channel_states == old(
                self,
            ).channel_states,
            crate::types::is_mvb_spec(cmd.sender.statuses@) && cmd.args@.len() >= 2
                && crate::types::hook_type_of(cmd.args.deep_view()[1]) is None ==> r@
                == "\u{274C} hook type not valid"@ && final(self).channel_states == old(
                self,
            ).channel_states,
            ({
                let joined = join_with(cmd.args.deep_view(), ' ');
                crate::types::is_mvb_spec(cmd.sender.statuses@) && cmd.args@.len() >= 2
                    && crate::types::hook_type_of(cmd.args.deep_view()[1]) is Some
                    && crate::parse::parse_by_ident_spec(joined, "catch"@) is None ==> r@
                    == "\u{274C} no hook catchphrase provided"@ && final(self).channel_states
                    == old(self).channel_states
            }),
            ({
                let joined = join_with(cmd.args.deep_view(), ' ');
                crate::types::is_mvb_spec(cmd.sender.statuses@) && cmd.args@.len() >= 2
                    && crate::types::hook_type_of(cmd.args.deep_view()[1]) is Some
                    && crate::parse::parse_by_ident_spec(joined, "catch"@) is Some
                    && crate::parse::parse_by_ident_spec(joined, "content"@) is None ==> r@
                    == "\u{274C} no hook content provided"@ && final(self).channel_states == old(
                    self,
                ).channel_states
            }),
            ({
                let joined = join_with(cmd.args.deep_view(), ' ');
                crate::types::is_mvb_spec(cmd.sender.statuses@) && cmd.args@.len() >= 2
                    && crate::types::hook_type_of(cmd.args.deep_view()[1]) is Some
                    && crate::parse::parse_by_ident_spec(joined, "catch"@) is Some
                    && crate::parse::parse_by_ident_spec(joined, "content"@) is Some ==> ({
                    let old_state_hooks = if crate::trivia::has_state(
                        old(self).channel_states.entries@,
                        cmd.channel.id,
                    ) {
                        crate::trivia::state_of(
                            old(self).channel_states.entries@,
                            cmd.channel.id,
                        ).specifics.hooks@
                    } else {
                        Seq::<crate::types::MessageHook>::empty()
                    };
                    let old_game = if crate::trivia::has_state(
                        old(self).channel_states.entries@,
                        cmd.channel.id,
                    ) {
                        crate::trivia::state_of(
                            old(self).channel_states.entries@,
                            cmd.channel.id,
                        ).specifics.ongoing_trivia_game
                    } else {
                        None
                    };
                    let new_hooks = crate::trivia::state_of(
                        final(self).channel_states.entries@,
                        cmd.channel.id,
                    ).specifics.hooks@;
                    &&& r@ == "\u{1F527} hook created successfully"@
                    &&& crate::trivia::has_state(
                        final(self).channel_states.entries@,
                        cmd.channel.id,
                    )
                    &&& new_hooks.len() == old_state_hooks.len() + 1
                    &&& new_hooks.drop_last() == old_state_hooks
                    &&& new_hooks.last().capture_string@ == crate::parse::parse_by_ident_spec(
                        joined,
                        "catch"@,
                    )->0
                    &&& new_hooks.last().content@ == crate::parse::parse_by_ident_spec(
                        joined,
                        "content"@,
                    )->0
                    &&& new_hooks.last().h_type == crate::types::hook_type_of(
                        cmd.args.deep_view()[1],
                    )->0
                    &&& crate::trivia::is_same_game(
                        crate::trivia::state_of(
                            final(self).channel_states.entries@,
                            cmd.channel.id,
                        ).specifics.ongoing_trivia_game,
                        old_game,
                    )
                })
            }),
    {
        if !cmd.sender.is_mvb() {
            return "\u{274C} requires MVB privileges | E4".to_owned();
        }
        if cmd.args.len() == 0 {
            return "\u{274C} no hook name provided".to_owned();
        }
        if cmd.args.len() == 1 {
            return "\u{274C} no hook type provided".to_owned();
        }
        let h_type = match crate::types::HookMatchType::from_str(cmd.args[1].as_str()) {
            Ok(h) => h,
            Err(_) => {
                return "\u{274C} hook type not valid".to_owned();
            },
        };
        let catch = match crate::parse::parse_by_ident(cmd.args.as_slice(), "catch") {
            Some(c) => c,
            None => {
                return "\u{274C} no hook catchphrase provided".to_owned();
            },
        };
        let content = match crate::parse::parse_by_ident(cmd.args.as_slice(), "content") {
            Some(c) => c,
            None => {
                return "\u{274C} no hook content provided".to_owned();
            },
        };
        let hook = crate::types::MessageHook { capture_string: catch, content, h_type };
        self.channel_states.ensure_channel(cmd.channel.id);
        self.channel_states.add_hook(cmd.channel.id, hook);
        "\u{1F527} hook created successfully".to_owned()
    }

    /// Build the lines of an emote pyramid; the runtime speaks them with
    /// a non-blocking pause between lines.
    pub fn pyramid(&self, cmd: &CommandSource, fetched: &Fetched) -> (r: Dispatched)
        ensures
            cmd.args@.len() == 0 ==> (r matches Dispatched::Done(o) && o matches Some(t) && t@
                == "\u{274C} no emote provided"@),
    {
        if cmd.args.len() == 0 {
            return Dispatched::Done(Some("\u{274C} no emote provided".to_owned()));
        }
        let emote = &cmd.args[0];
        let height: u64 = if cmd.args.len() == 1 {
            3
        } else {
            match parse_u64(cmd.args[1].as_str()) {
                Some(num) => if num > 0 && num < 16 {
                    num
                } else {
                    16
                },
                None => 3,
            }
        };
        let mut lines: Vec<String> = Vec::new();
        let mut row = String::new();
        let mut k: u64 = 0;
        while k < height
            invariant
                k <= height,
                height <= 16,
                row@ == emote_rep(emote@, k as int),
            decreases height - k,
        {
            row.append(emote.as_str());
            row.push(' ');
            lines.push(row.clone());
            k = k + 1;
        }
        let mut k2: u64 = height;
        while k2 > 0
            invariant
                k2 <= height,
                height <= 16,
            decreases k2,
        {
            k2 = k2 - 1;
            let mut row2 = String::new();
            let mut j: u64 = 0;
            while j < k2
                invariant
                    j <= k2,
                    row2@ == emote_rep(emote@, j as int),
                decreases k2 - j,
            {
                row2.append(emote.as_str());
                row2.push(' ');
                j = j + 1;
            }
            lines.push(row2);
        }
        let req = ExtRequest::SayLines(lines);
        match find_response(fetched, &req) {
            Some(_) => Dispatched::Done(None),
            None => Dispatched::Need(req),
        }
    }
}

/// The rendered form of a fetched verse: its source in parentheses,
/// then the text.
pub open spec fn verse_text(v: VerseInfo) -> Seq<char> {
    "("@ + v.book@ + (match v.book_number {
        Some(b) => ", book "@ + dec_rep_signed(b as int),
        None => Seq::<char>::empty(),
    }) + " ch. "@ + dec_rep_signed(v.chapter as int) + ") "@ + v.text@
}

/// The rendered form of a time zone lookup: the local time, the zone
/// name and the offset in effect.
pub open spec fn time_text(info: IPGeolocationResponse) -> Seq<char> {
    let offset = if info.is_dst {
        info.timezone_offset_with_dst
    } else {
        info.timezone_offset
    };
    info.date_time@ + ", (timezone "@ + info.timezone@ + " GMT+"@ + dec_rep_signed(offset as int)
        + ")"@
}

/// The text a text-or-missing response renders to: the carried text,
/// the given fallback for a miss, and the internal-error text for a
/// response of the wrong shape.
pub open spec fn text_or_spec(resp: ExtResponse, missing: Seq<char>) -> Seq<char> {
    match resp {
        ExtResponse::MaybeText(Some(x)) => x@,
        ExtResponse::MaybeText(None) => missing,
        ExtResponse::Text(x) => x@,
        _ => "\u{274C} an internal error has occured, sorry PoroSad"@,
    }
}

impl Bot {
    /// Ask the runtime for an answer, handing back the text of a
    /// text-or-missing response.
    fn text_or(&self, fetched: &Fetched, req: ExtRequest, missing: &str) -> (r: Dispatched)
        ensures
            match r {
                Dispatched::Need(q) => q == req && response_for(fetched@, req) is None,
                Dispatched::Done(o) => o matches Some(t) && (response_for(fetched@, req)
                    matches Some(resp) && t@ == text_or_spec(resp, missing@)),
            },
    {
        match find_response(fetched, &req) {
            Some(k) => match &fetched[k].1 {
                ExtResponse::MaybeText(Some(text)) => Dispatched::Done(Some(text.clone())),
                ExtResponse::MaybeText(None) => Dispatched::Done(Some(missing.to_owned())),
                ExtResponse::Text(text) => Dispatched::Done(Some(text.clone())),
                _ => Dispatched::Done(
                    Some("\u{274C} an internal error has occured, sorry PoroSad".to_owned()),
                ),
            },
            None => Dispatched::Need(req),
        }
    }

    /// Answer a generic question through the answer engine.
    pub fn query(&self, cmd: &CommandSource, fetched: &Fetched) -> (r: Dispatched)
        ensures
            cmd.args@.len() == 0 ==> (r matches Dispatched::Done(o) && o matches Some(t) && t@
                == "\u{274C} no query in command arguments"@),
            cmd.args@.len() > 0 ==> match r {
                Dispatched::Need(q) => q matches ExtRequest::QueryGeneric(s) && s@ == join_with(
                    cmd.args.deep_view(),
                    ' ',
                ) && response_for(fetched@, q) is None,
                Dispatched::Done(o) => o matches Some(t) && exists|q: ExtRequest|
                    (#[trigger] req_eq_spec(q, q)) && (q matches ExtRequest::QueryGeneric(s) && s@
                        == join_with(cmd.args.deep_view(), ' ') && (response_for(fetched@, q)
                        matches Some(resp) && t@ == text_or_spec(
                        resp,
                        "\u{274C} no answer could be found"@,
                    ))),
            },
    {
        if cmd.args.len() == 0 {
            return Dispatched::Done(Some("\u{274C} no query in command arguments".to_owned()));
        }
        let q = join_char(&cmd.args, ' ');
        let req = ExtRequest::QueryGeneric(q);
        let ghost greq = req;
        let r = self.text_or(fetched, req, "\u{274C} no answer could be found");
        proof {
            assert(req_eq_spec(greq, greq));
        }
        r
    }

    /// The local time of a location.
    pub fn get_time(&self, cmd: &CommandSource, fetched: &Fetched) -> (r: Dispatched)
        ensures
            cmd.args@.len() == 0 ==> (r matches Dispatched::Done(o) && o matches Some(t) && t@
                == "\u{274C} no location provided"@),
            cmd.args@.len() > 0 ==> match r {
                Dispatched::Need(q) => q matches ExtRequest::TimeQuery(s) && s@ == join_with(
                    cmd.args.deep_view(),
                    ' ',
                ) && response_for(fetched@, q) is None,
                Dispatched::Done(o) => o matches Some(t) && exists|q: ExtRequest|
                    (#[trigger] req_eq_spec(q, q)) && (q matches ExtRequest::TimeQuery(s) && s@
                        == join_with(cmd.args.deep_view(), ' ') && match response_for(fetched@, q) {
                        Some(ExtResponse::MaybeTime(Some(info))) => t@ == time_text(info),
                        Some(ExtResponse::MaybeTime(None)) => t@
                            == "\u{274C} The location was not found"@,
                        Some(_) => t@
                            == "\u{274C} an internal error has occured, sorry PoroSad"@,
                        None => false,
                    }),
            },
    {
        if cmd.args.len() == 0 {
            return Dispatched::Done(Some("\u{274C} no location provided".to_owned()));
        }
        let location = join_char(&cmd.args, ' ');
        let req = ExtRequest::TimeQuery(location);
        let ghost greq = req;
        proof {
            assert(req_eq_spec(greq, greq));
        }
        match find_response(fetched, &req) {
            None => Dispatched::Need(req),
            Some(k) => match &fetched[k].1 {
                ExtResponse::MaybeTime(Some(info)) => {
                    let offset: i64 = if info.is_dst {
                        info.timezone_offset_with_dst
                    } else {
                        info.timezone_offset
                    };
                    let mut out = info.date_time.clone();
                    out.append(", (timezone ");
                    out.append(info.timezone.as_str());
                    out.append(" GMT+");
                    let num = crate::text::i64_to_string(offset);
                    out.append(num.as_str());
                    out.append(")");
                    Dispatched::Done(Some(out))
                },
                ExtResponse::MaybeTime(None) => Dispatched::Done(
                    Some("\u{274C} The location was not found".to_owned()),
                ),
                _ => Dispatched::Done(
                    Some("\u{274C} an internal error has occured, sorry PoroSad".to_owned()),
                ),
            },
        }
    }

    /// A random verse from the given book.
    pub fn get_rand_holy_book_verse(&self, book: HolyBook, fetched: &Fetched) -> (r: Dispatched)
        ensures
            match r {
                Dispatched::Need(q) => q == ExtRequest::Verse(book) && response_for(
                    fetched@,
                    ExtRequest::Verse(book),
                ) is None,
                Dispatched::Done(o) => o matches Some(t) && match response_for(
                    fetched@,
                    ExtRequest::Verse(book),
                ) {
                    Some(ExtResponse::MaybeVerse(Some(v))) => t@ == verse_text(v),
                    Some(ExtResponse::MaybeVerse(None)) => t@
                        == "\u{274C} an unknown error has occured, sorry PoroSad"@,
                    Some(_) => t@ == "\u{274C} an internal error has occured, sorry PoroSad"@,
                    None => false,
                },
            },
    {
        let req = ExtRequest::Verse(book);
        match find_response(fetched, &req) {
            None => Dispatched::Need(req),
            Some(k) => match &fetched[k].1 {
                ExtResponse::MaybeVerse(Some(verse)) => {
                    let mut out = "(".to_owned();
                    out.append(verse.book.as_str());
                    match verse.book_number {
                        Some(b) => {
                            out.append(", book ");
                            let num = crate::text::i64_to_string(b);
                            out.append(num.as_str());
                        },
                        None => {},
                    }
                    out.append(" ch. ");
                    let ch = crate::text::i64_to_string(verse.chapter);
                    out.append(ch.as_str());
                    out.append(") ");
                    out.append(verse.text.as_str());
                    Dispatched::Done(Some(out))
                },
                ExtResponse::MaybeVerse(None) => Dispatched::Done(
                    Some("\u{274C} an unknown error has occured, sorry PoroSad".to_owned()),
                ),
                _ => Dispatched::Done(
                    Some("\u{274C} an internal error has occured, sorry PoroSad".to_owned()),
                ),
            },
        }
    }

    /// A weather report for a location.
    pub fn get_weather_report(&self, cmd: &CommandSource, fetched: &Fetched) -> (r: Dispatched)
        ensures
            cmd.args@.len() == 0 ==> (r matches Dispatched::Done(o) && o matches Some(t) && t@
                == "\u{274C} no location provided"@),
            cmd.args@.len() > 0 ==> match r {
                Dispatched::Need(q) => q matches ExtRequest::Weather(s) && s@ == join_with(
                    cmd.args.deep_view(),
                    ' ',
                ) && response_for(fetched@, q) is None,
                Dispatched::Done(o) => o matches Some(t) && exists|q: ExtRequest|
                    (#[trigger] req_eq_spec(q, q)) && (q matches ExtRequest::Weather(s) && s@
                        == join_with(cmd.args.deep_view(), ' ') && (response_for(fetched@, q)
                        matches Some(resp) && t@ == text_or_spec(
                        resp,
                        "\u{274C} location not identified"@,
                    ))),
            },
    {
        if cmd.args.len() == 0 {
            return Dispatched::Done(Some("\u{274C} no location provided".to_owned()));
        }
        let location = join_char(&cmd.args, ' ');
        let req = ExtRequest::Weather(location);
        let ghost greq = req;
        let r = self.text_or(fetched, req, "\u{274C} location not identified");
        proof {
            assert(req_eq_spec(greq, greq));
        }
        r
    }

    /// The gist of an encyclopedia article: the first sentence of its
    /// introduction extract.
    pub fn query_wikipedia(&self, cmd: &CommandSource, fetched: &Fetched) -> (r: Dispatched) {
        let title = join_char(&cmd.args, ' ');
        let req = ExtRequest::Wiki(title);
        match find_response(fetched, &req) {
            None => Dispatched::Need(req),
            Some(k) => match &fetched[k].1 {
                ExtResponse::MaybeText(Some(extract)) => {
                    let parts = split_char(extract.as_str(), '.');
                    Dispatched::Done(Some(parts[0].clone()))
                },
                ExtResponse::MaybeText(None) => Dispatched::Done(
                    Some("\u{274C} article not found.".to_owned()),
                ),
                _ => Dispatched::Done(
                    Some("\u{274C} an internal error has occured, sorry PoroSad".to_owned()),
                ),
            },
        }
    }

    /// A dictionary definition of a word.
    pub fn query_dictionary(&self, cmd: &CommandSource, fetched: &Fetched) -> (r: Dispatched)
        ensures
            cmd.args@.len() == 0 ==> (r matches Dispatched::Done(o) && o matches Some(t) && t@
                == "\u{274C} no word provided"@),
            cmd.args@.len() > 0 ==> match r {
                Dispatched::Need(q) => q matches ExtRequest::Define(s) && s@
                    == cmd.args.deep_view()[0] && response_for(fetched@, q) is None,
                Dispatched::Done(o) => o matches Some(t) && exists|q: ExtRequest|
                    (#[trigger] req_eq_spec(q, q)) && (q matches ExtRequest::Define(s) && s@
                        == cmd.args.deep_view()[0] && (response_for(fetched@, q)
                        matches Some(resp) && t@ == text_or_spec(
                        resp,
                        "\u{274C} word not found"@,
                    ))),
            },
    {
        if cmd.args.len() == 0 {
            return Dispatched::Done(Some("\u{274C} no word provided".to_owned()));
        }
        let req = ExtRequest::Define(cmd.args[0].clone());
        let ghost greq = req;
        let r = self.text_or(fetched, req, "\u{274C} word not found");
        proof {
            assert(req_eq_spec(greq, greq));
            assert(cmd.args.deep_view()[0] == cmd.args@[0]@);
        }
        r
    }

    /// A crowd-sourced definition of a term.
    pub fn query_urban_dictionary(&self, cmd: &CommandSource, fetched: &Fetched) -> (r: Dispatched)
        ensures
            cmd.args@.len() == 0 ==> (r matches Dispatched::Done(o) && o matches Some(t) && t@
                == "\u{274C} no term provided"@),
            cmd.args@.len() > 0 ==> match r {
                Dispatched::Need(q) => q matches ExtRequest::Urban(s) && s@ == join_with(
                    cmd.args.deep_view(),
                    ' ',
                ) && response_for(fetched@, q) is None,
                Dispatched::Done(o) => o matches Some(t) && exists|q: ExtRequest|
                    (#[trigger] req_eq_spec(q, q)) && (q matches ExtRequest::Urban(s) && s@
                        == join_with(cmd.args.deep_view(), ' ') && (response_for(fetched@, q)
                        matches Some(resp) && t@ == text_or_spec(resp, "\u{274C} not found"@))),
            },
    {
        if cmd.args.len() == 0 {
            return Dispatched::Done(Some("\u{274C} no term provided".to_owned()));
        }
        let term = join_char(&cmd.args, ' ');
        let req = ExtRequest::Urban(term);
        let ghost greq = req;
        let r = self.text_or(fetched, req, "\u{274C} not found");
        proof {
            assert(req_eq_spec(greq, greq));
        }
        r
    }

    /// How long the target user has followed the target channel.
    pub fn get_followage(&mut self, cmd: &CommandSource, fetched: &Fetched) -> (r: Dispatched)
        ensures
            final(self).history.items@ == old(self).history.items@,
            bindings_kept(old(self).name_id_cache.items@, final(self).name_id_cache.items@),
            cmd.args@.len() == 0 ==> match r {
                Dispatched::Need(q) => q == ExtRequest::Followage(cmd.channel.id, cmd.sender.id)
                    && response_for(fetched@, q) is None,
                Dispatched::Done(o) => o matches Some(t) && match response_for(
                    fetched@,
                    ExtRequest::Followage(cmd.channel.id, cmd.sender.id),
                ) {
                    Some(ExtResponse::MaybeStamp(None)) => t@ == "\u{274C} "@ + cmd.sender.name@
                        + " does not follow "@ + cmd.channel.name@,
                    Some(ExtResponse::MaybeStamp(Some(_))) => t@.len() > 0,
                    Some(_) => t@ == "\u{274C} an internal error has occured, sorry PoroSad"@,
                    None => false,
                },
            },
    {
        let (user, channel) = match self.user_channel_info_from_args(cmd, fetched) {
            TargetInfo::Found(u, c) => (u, c),
            TargetInfo::Failed(msg) => {
                return Dispatched::Done(Some(msg));
            },
            TargetInfo::Need(req) => {
                return Dispatched::Need(req);
            },
        };
        let req = ExtRequest::Followage(channel.id, user.id);
        match find_response(fetched, &req) {
            None => Dispatched::Need(req),
            Some(k) => match &fetched[k].1 {
                ExtResponse::MaybeStamp(Some(date)) => {
                    proof {
                        reveal_strlit("\u{23F1}\u{FE0F} ");
                        assert("\u{23F1}\u{FE0F} "@.len() == 3);
                    }
                    let secs = clamped_elapsed(cmd.timestamp, *date);
                    let days: u64 = secs / 86400;
                    let hundredths: u64 = (((days as u128) * 1000000) / 3652425) as u64;
                    if hundredths > 50 {
                        let mut out = "\u{23F1}\u{FE0F} ".to_owned();
                        out.append(user.name.as_str());
                        out.append(" has been following ");
                        out.append(channel.name.as_str());
                        out.append(" for ");
                        let yrs = format_hundredths(hundredths);
                        out.append(yrs.as_str());
                        out.append(" years");
                        Dispatched::Done(Some(out))
                    } else {
                        let mut out = "\u{23F1}\u{FE0F} ".to_owned();
                        out.append(user.name.as_str());
                        out.append(" has been following ");
                        out.append(channel.name.as_str());
                        out.append(" for ");
                        let dur = fmt_duration(secs, false);
                        out.append(dur.as_str());
                        Dispatched::Done(Some(out))
                    }
                },
                ExtResponse::MaybeStamp(None) => {
                    let mut out = "\u{274C} ".to_owned();
                    out.append(user.name.as_str());
                    out.append(" does not follow ");
                    out.append(channel.name.as_str());
                    Dispatched::Done(Some(out))
                },
                _ => Dispatched::Done(
                    Some("\u{274C} an internal error has occured, sorry PoroSad".to_owned()),
                ),
            },
        }
    }

    /// How old the target account is.
    pub fn get_accage(&mut self, cmd: &CommandSource, fetched: &Fetched) -> (r: Dispatched)
        ensures
            final(self).history.items@ == old(self).history.items@,
            bindings_kept(old(self).name_id_cache.items@, final(self).name_id_cache.items@),
            cmd.args@.len() == 0 ==> match r {
                Dispatched::Need(q) => q matches ExtRequest::AccCreation(s) && s@
                    == cmd.sender.name@ && response_for(fetched@, q) is None,
                Dispatched::Done(o) => o matches Some(t) && exists|q: ExtRequest|
                    (#[trigger] req_eq_spec(q, q)) && (q matches ExtRequest::AccCreation(s) && s@
                        == cmd.sender.name@ && match response_for(fetched@, q) {
                        Some(ExtResponse::MaybeStamp(None)) => t@ == "\u{274C} user not found"@,
                        Some(ExtResponse::MaybeStamp(Some(_))) => t@.len() > 0,
                        Some(_) => t@
                            == "\u{274C} an internal error has occured, sorry PoroSad"@,
                        None => false,
                    }),
            },
    {
        let (user, _channel) = match self.user_channel_info_from_args(cmd, fetched) {
            TargetInfo::Found(u, c) => (u, c),
            TargetInfo::Failed(msg) => {
                return Dispatched::Done(Some(msg));
            },
            TargetInfo::Need(req) => {
                return Dispatched::Need(req);
            },
        };
        let req = ExtRequest::AccCreation(user.name.clone());
        let ghost greq = req;
        proof {
            assert(req_eq_spec(greq, greq));
        }
        match find_response(fetched, &req) {
            None => Dispatched::Need(req),
            Some(k) => match &fetched[k].1 {
                ExtResponse::MaybeStamp(Some(date)) => {
                    proof {
                        reveal_strlit("\u{23F1}\u{FE0F} ");
                        assert("\u{23F1}\u{FE0F} "@.len() == 3);
                    }
                    let secs = clamped_elapsed(cmd.timestamp, *date);
                    let days: u64 = secs / 86400;
                    let hundredths: u64 = (((days as u128) * 1000000) / 3652425) as u64;
                    let mut out = "\u{23F1}\u{FE0F} ".to_owned();
                    out.append(user.name.as_str());
                    out.append("'s account is ");
                    if hundredths > 50 {
                        let yrs = format_hundredths(hundredths);
                        out.append(yrs.as_str());
                        out.append(" years old");
                    } else {
                        let num = u64_to_string(days);
                        out.append(num.as_str());
                        out.append(" days old");
                    }
                    Dispatched::Done(Some(out))
                },
                ExtResponse::MaybeStamp(None) => Dispatched::Done(
                    Some("\u{274C} user not found".to_owned()),
                ),
                _ => Dispatched::Done(
                    Some("\u{274C} an internal error has occured, sorry PoroSad".to_owned()),
                ),
            },
        }
    }

    /// How long the channel's running stream has been live.
    pub fn get_uptime(&self, cmd: &CommandSource, fetched: &Fetched) -> (r: Dispatched)
        ensures
            ({
                let target = if cmd.args.deep_view().len() > 0 {
                    cmd.args.deep_view()[0]
                } else {
                    cmd.channel.name@
                };
                match r {
                    Dispatched::Need(q) => q matches ExtRequest::StreamInfo(s) && s@ == target
                        && response_for(fetched@, q) is None,
                    Dispatched::Done(o) => o matches Some(t) && exists|q: ExtRequest|
                        (#[trigger] req_eq_spec(q, q)) && (q matches ExtRequest::StreamInfo(s) && s@
                            == target && match response_for(fetched@, q) {
                            Some(ExtResponse::MaybeStamp(None)) => t@
                                == "\u{274C} streamer not live"@,
                            Some(ExtResponse::MaybeStamp(Some(_))) => t@.len() > 0,
                            Some(_) => t@
                                == "\u{274C} an internal error has occured, sorry PoroSad"@,
                            None => false,
                        }),
                }
            }),
    {
        let channel_name: String = match cmd.args.get(0) {
            Some(n) => n.clone(),
            None => cmd.channel.name.clone(),
        };
        let req = ExtRequest::StreamInfo(channel_name.clone());
        let ghost greq = req;
        proof {
            assert(req_eq_spec(greq, greq));
            if cmd.args@.len() > 0 {
                assert(cmd.args.deep_view()[0] == cmd.args@[0]@);
            }
        }
        match find_response(fetched, &req) {
            None => Dispatched::Need(req),
            Some(k) => match &fetched[k].1 {
                ExtResponse::MaybeStamp(Some(started)) => {
                    proof {
                        reveal_strlit("\u{23F1}\u{FE0F} ");
                        assert("\u{23F1}\u{FE0F} "@.len() == 3);
                    }
                    let secs = clamped_elapsed(cmd.timestamp, *started);
                    let mut out = "\u{23F1}\u{FE0F} ".to_owned();
                    out.append(channel_name.as_str());
                    out.append(" has been live for ");
                    let dur = fmt_duration(secs, false);
                    out.append(dur.as_str());
                    Dispatched::Done(Some(out))
                },
                ExtResponse::MaybeStamp(None) => Dispatched::Done(
                    Some("\u{274C} streamer not live".to_owned()),
                ),
                _ => Dispatched::Done(
                    Some("\u{274C} an internal error has occured, sorry PoroSad".to_owned()),
                ),
            },
        }
    }

    /// Give a rose to a random chatter who is not disregarded.
    pub fn tag_rand_chatter_with_rose(&self, cmd: &CommandSource, fetched: &Fetched) -> (r:
        Dispatched)
        ensures
            ({
                match r {
                    Dispatched::Need(q) => q matches ExtRequest::Chatters(s) && s@
                        == cmd.channel.name@ && response_for(fetched@, q) is None,
                    Dispatched::Done(o) => o matches Some(t) && (t@
                        == "\u{274C} no users in the chatroom"@ || t@
                        == "\u{274C} an internal error has occured, sorry PoroSad"@ || (exists|
                        name: Seq<char>,
                    |
                        t@ == "@"@ + name + " PeepoGlad \u{1F339}"@ && !self.config.disregarded_users.deep_view().contains(
                            crate::text::lower_of(name),
                        ))),
                }
            }),
    {
        let req = ExtRequest::Chatters(cmd.channel.name.clone());
        match find_response(fetched, &req) {
            None => Dispatched::Need(req),
            Some(k) => match &fetched[k].1 {
                ExtResponse::MaybeNames(Some(chatters)) => {
                    let mut eligible: Vec<String> = Vec::new();
                    let n = chatters.len();
                    let mut i: usize = 0;
                    while i < n
                        invariant
                            i <= n,
                            forall|j: int|
                                0 <= j < eligible@.len()
                                    ==> !self.config.disregarded_users.deep_view().contains(
                                    crate::text::lower_of((#[trigger] eligible@[j])@),
                                ),
                        decreases n - i,
                    {
                        let low = lowercase(chatters[i].as_str());
                        if !crate::cache::contains_string(
                            &self.config.disregarded_users,
                            low.as_str(),
                        ) {
                            eligible.push(chatters[i].clone());
                        }
                        i = i + 1;
                    }
                    if eligible.len() == 0 {
                        return Dispatched::Done(
                            Some("\u{274C} no users in the chatroom".to_owned()),
                        );
                    }
                    let pick = crate::rng::rand_below(eligible.len() as u64);
                    let mut out = "@".to_owned();
                    out.append(eligible[pick as usize].as_str());
                    out.append(" PeepoGlad \u{1F339}");
                    proof {
                        let chosen = eligible@[pick as int]@;
                        assert(out@ == "@"@ + chosen + " PeepoGlad \u{1F339}"@);
                        assert(!self.config.disregarded_users.deep_view().contains(
                            crate::text::lower_of(chosen),
                        ));
                    }
                    Dispatched::Done(Some(out))
                },
                ExtResponse::MaybeNames(None) => Dispatched::Done(
                    Some("\u{274C} no users in the chatroom".to_owned()),
                ),
                _ => Dispatched::Done(
                    Some("\u{274C} an internal error has occured, sorry PoroSad".to_owned()),
                ),
            },
        }
    }

    /// A random stored copypasta.
    pub fn get_rand_pasta(&self, fetched: &Fetched) -> (r: Dispatched)
        ensures
            match r {
                Dispatched::Need(q) => q == ExtRequest::Pasta && response_for(
                    fetched@,
                    ExtRequest::Pasta,
                ) is None,
                Dispatched::Done(o) => o matches Some(t) && match response_for(
                    fetched@,
                    ExtRequest::Pasta,
                ) {
                    Some(ExtResponse::Texts(pastas)) => (pastas@.len() > 0 && exists|k: int|
                        0 <= k < pastas@.len() && t@ == (#[trigger] pastas@[k])@) || (pastas@.len()
                        == 0 && t@ == "\u{274C} an internal error has occured, sorry PoroSad"@),
                    Some(_) => t@ == "\u{274C} an internal error has occured, sorry PoroSad"@,
                    None => false,
                },
            },
    {
        let req = ExtRequest::Pasta;
        match find_response(fetched, &req) {
            None => Dispatched::Need(req),
            Some(k) => match &fetched[k].1 {
                ExtResponse::Texts(pastas) => {
                    if pastas.len() == 0 {
                        return Dispatched::Done(
                            Some(
                                "\u{274C} an internal error has occured, sorry PoroSad".to_owned(),
                            ),
                        );
                    }
                    let pick = crate::rng::rand_below(pastas.len() as u64);
                    Dispatched::Done(Some(pastas[pick as usize].clone()))
                },
                _ => Dispatched::Done(
                    Some("\u{274C} an internal error has occured, sorry PoroSad".to_owned()),
                ),
            },
        }
    }

    /// An inspirational image.
    pub fn get_inspire_image(&self, fetched: &Fetched) -> (r: Dispatched)
        ensures
            match r {
                Dispatched::Need(q) => q == ExtRequest::Inspire && response_for(
                    fetched@,
                    ExtRequest::Inspire,
                ) is None,
                Dispatched::Done(o) => o matches Some(t) && match response_for(
                    fetched@,
                    ExtRequest::Inspire,
                ) {
                    Some(ExtResponse::Text(url)) => t@ == "FeelsStrongMan "@ + url@,
                    Some(_) => t@ == "\u{274C} an internal error has occured, sorry PoroSad"@,
                    None => false,
                },
            },
    {
        let req = ExtRequest::Inspire;
        match find_response(fetched, &req) {
            None => Dispatched::Need(req),
            Some(k) => match &fetched[k].1 {
                ExtResponse::Text(url) => {
                    let mut out = "FeelsStrongMan ".to_owned();
                    out.append(url.as_str());
                    Dispatched::Done(Some(out))
                },
                _ => Dispatched::Done(
                    Some("\u{274C} an internal error has occured, sorry PoroSad".to_owned()),
                ),
            },
        }
    }

    /// Fetch and present a post of a subreddit: optionally only posts
    /// with media, the most upvoted or a random one.
    pub fn get_reddit_post(&self, cmd: &CommandSource, fetched: &Fetched) -> (r: Dispatched)
        ensures
            cmd.args@.len() == 0 ==> (r matches Dispatched::Done(o) && o matches Some(t) && t@
                == "\u{274C} no subreddit provided"@),
    {
        if cmd.args.len() == 0 {
            return Dispatched::Done(Some("\u{274C} no subreddit provided".to_owned()));
        }
        let raw = &cmd.args[0];
        let raw_len = raw.as_str().unicode_len();
        let subr: String = if raw_len >= 2 && str_eq(raw.as_str().substring_char(0, 2), "r/") {
            raw.as_str().substring_char(2, raw_len).to_owned()
        } else {
            raw.clone()
        };
        let relevancy = crate::options::RedditPostRelevancy::new_from_vec(cmd.args.as_slice());
        let post_type = crate::options::RedditPostType::new_from_vec(cmd.args.as_slice());
        let wants_media = crate::options::AdditionalRedditParameter::new_from_vec(
            cmd.args.as_slice(),
        ).len() > 0;
        let req = ExtRequest::Reddit(subr.clone(), relevancy.as_str().to_owned());
        match find_response(fetched, &req) {
            None => Dispatched::Need(req),
            Some(k) => match &fetched[k].1 {
                ExtResponse::MaybePosts(Some(posts)) => {
                    if posts.len() == 0 {
                        let mut out = "\u{274C} r/".to_owned();
                        out.append(subr.as_str());
                        out.append(" has no posts in in selection '");
                        out.append(relevancy.as_str());
                        out.append("'");
                        return Dispatched::Done(Some(out));
                    }
                    let mut pool: Vec<Data2___> = Vec::new();
                    let n = posts.len();
                    let mut i: usize = 0;
                    while i < n
                        invariant
                            i <= n,
                        decreases n - i,
                    {
                        let post = &posts[i];
                        let keep = if wants_media {
                            has_media_url(post.url.as_str())
                        } else {
                            true
                        };
                        if keep {
                            pool.push(post.duplicate());
                        }
                        i = i + 1;
                    }
                    if pool.len() == 0 {
                        let mut out = "\u{274C} no post containing media in selection '".to_owned();
                        out.append(relevancy.as_str());
                        out.append("'");
                        return Dispatched::Done(Some(out));
                    }
                    let idx: usize = match post_type {
                        crate::options::RedditPostType::MostUpvotes => 0,
                        crate::options::RedditPostType::Random => crate::rng::rand_below(
                            pool.len() as u64,
                        ) as usize,
                    };
                    let picked = &pool[idx];
                    let mut out = picked.title.clone();
                    // Only an empty self-text is appended; the inverted test is
                    // the behavior chat users know, so it is kept.
                    if picked.selftext.as_str().unicode_len() == 0 {
                        out.append(": ");
                        out.append(picked.selftext.as_str());
                    }
                    out.append(" [ ");
                    out.append(picked.url.as_str());
                    out.append(" ]");
                    Dispatched::Done(Some(out))
                },
                ExtResponse::MaybePosts(None) => Dispatched::Done(
                    Some("\u{274C} an unknown error has occured, sorry PoroSad".to_owned()),
                ),
                _ => Dispatched::Done(
                    Some("\u{274C} an internal error has occured, sorry PoroSad".to_owned()),
                ),
            },
        }
    }
}

/// The post's address points at media.
fn has_media_url(url: &str) -> (r: bool) {
    crate::text::contains_substr(url, ".png") || crate::text::contains_substr(url, ".jpg")
        || crate::text::contains_substr(url, ".gif") || crate::text::contains_substr(url, ".webp")
        || crate::text::contains_substr(url, ".webm") || crate::text::contains_substr(url, ".mp4")
}

/// Seconds from an earlier moment to `now`; zero when the moment is not
/// earlier, and capped at the integer's range.
fn clamped_elapsed(now: i64, earlier: i64) -> (r: u64) {
    if now >= earlier {
        let wide: i128 = (now as i128) - (earlier as i128);
        if wide > u64::MAX as i128 {
            u64::MAX
        } else {
            wide as u64
        }
    } else {
        0
    }
}

/// A count of hundredths rendered with two decimal places.
fn format_hundredths(h: u64) -> (r: String) {
    let mut out = u64_to_string(h / 100);
    out.push('.');
    let frac = h % 100;
    if frac < 10 {
        out.push('0');
    }
    let digits = u64_to_string(frac);
    out.append(digits.as_str());
    out
}

/// A filter over elements that never satisfy the predicate is empty.
proof fn lemma_filter_all_false<A>(s: Seq<A>, pred: spec_fn(A) -> bool)
    requires
        forall|k: int| 0 <= k < s.len() ==> !pred(#[trigger] s[k]),
    ensures
        s.filter(pred).len() == 0,
    decreases s.len(),
{
    reveal(Seq::filter);
    if s.len() > 0 {
        assert(!pred(s.last()));
        lemma_filter_all_false(s.drop_last(), pred);
    }
}

/// A log line counts toward a chat statistic.
pub open spec fn stat_matches(
    l: crate::store::LogLine,
    channel_id: i32,
    since: i64,
    phrase: Option<Seq<char>>,
    only: Option<i32>,
) -> bool {
    l.channel_id == channel_id && l.timestamp >= since && (match phrase {
        Some(p) => crate::text::has_substr(l.message@, p),
        None => true,
    }) && (match only {
        Some(id) => l.sender_id == id,
        None => true,
    })
}

impl Bot {
    /// Count the matching log lines of each sender: every listed sender
    /// has its exact line count, listed once, and every matching line's
    /// sender is listed.
    pub fn get_channel_chat_stats(
        &self,
        channel_id: i32,
        since: i64,
        phrase: Option<&String>,
        only: Option<i32>,
    ) -> (r: Vec<(i32, u64)>)
        ensures
            ({
                let p = match phrase {
                    Some(s) => Some(s@),
                    None => None,
                };
                &&& forall|j: int|
                    0 <= j < r@.len() ==> (#[trigger] r@[j]).1 == self.chat_log.lines@.filter(
                        |l: crate::store::LogLine|
                            stat_matches(l, channel_id, since, p, only) && l.sender_id == r@[j].0,
                    ).len()
                &&& forall|j1: int, j2: int|
                    0 <= j1 < j2 < r@.len() ==> (#[trigger] r@[j1]).0 != (#[trigger] r@[j2]).0
                &&& forall|k: int|
                    0 <= k < self.chat_log.lines@.len() && stat_matches(
                        #[trigger] self.chat_log.lines@[k],
                        channel_id,
                        since,
                        p,
                        only,
                    ) ==> exists|j: int|
                        0 <= j < r@.len() && (#[trigger] r@[j]).0
                            == self.chat_log.lines@[k].sender_id
            }),
    {
        let ghost p = match phrase {
            Some(s) => Some(s@),
            None => None,
        };
        let mut counts: Vec<(i32, u64)> = Vec::new();
        let n = self.chat_log.lines.len();
        let mut i: usize = 0;
        proof {
            assert(self.chat_log.lines@.subrange(0, 0) =~= Seq::<crate::store::LogLine>::empty());
        }
        while i < n
            invariant
                i <= n,
                n == self.chat_log.lines@.len(),
                forall|j: int|
                    0 <= j < counts@.len() ==> (#[trigger] counts@[j]).1
                        == self.chat_log.lines@.subrange(0, i as int).filter(
                        |l: crate::store::LogLine|
                            stat_matches(l, channel_id, since, p, only) && l.sender_id
                                == counts@[j].0,
                    ).len(),
                forall|j1: int, j2: int|
                    0 <= j1 < j2 < counts@.len() ==> (#[trigger] counts@[j1]).0 != (
                    #[trigger] counts@[j2]).0,
                forall|k: int|
                    0 <= k < i && stat_matches(#[trigger] self.chat_log.lines@[k], channel_id,
                    since, p, only) ==> exists|j: int|
                        0 <= j < counts@.len() && (#[trigger] counts@[j]).0
                            == self.chat_log.lines@[k].sender_id,
            decreases n - i,
        {
            let ghost pre = self.chat_log.lines@.subrange(0, i as int);
            let line = &self.chat_log.lines[i];
            let line_matches = line.channel_id == channel_id && line.timestamp >= since && (
            match phrase {
                Some(s) => crate::text::contains_substr(line.message.as_str(), s.as_str()),
                None => true,
            }) && (match only {
                Some(id) => line.sender_id == id,
                None => true,
            });
            proof {
                assert(self.chat_log.lines@.subrange(0, i + 1) =~= pre.push(
                    self.chat_log.lines@[i as int],
                ));
                assert(line_matches == stat_matches(
                    self.chat_log.lines@[i as int],
                    channel_id,
                    since,
                    p,
                    only,
                ));
                assert forall|j: int| 0 <= j < counts@.len() implies (#[trigger] counts@[j]).1
                    == pre.push(self.chat_log.lines@[i as int]).filter(
                    |l: crate::store::LogLine|
                        stat_matches(l, channel_id, since, p, only) && l.sender_id == counts@[j].0,
                ).len() - (if line_matches && self.chat_log.lines@[i as int].sender_id
                    == counts@[j].0 {
                    1int
                } else {
                    0int
                }) by {
                    crate::store::lemma_filter_push(
                        pre,
                        |l: crate::store::LogLine|
                            stat_matches(l, channel_id, since, p, only) && l.sender_id
                                == counts@[j].0,
                        self.chat_log.lines@[i as int],
                    );
                }
            }
            if line_matches {
                let sender = line.sender_id;
                let m = counts.len();
                let mut j: usize = 0;
                let mut found = false;
                while j < m
                    invariant
                        j <= m,
                        m == counts@.len(),
                        !found ==> forall|q: int| 0 <= q < j ==> (#[trigger] counts@[q]).0 != sender,
                        found ==> j < m && counts@[j as int].0 == sender,
                    decreases m - j + (if found {
                        0int
                    } else {
                        1int
                    }),
                {
                    if counts[j].0 == sender {
                        found = true;
                        break ;
                    }
                    j = j + 1;
                }
                if found {
                    let ghost before = counts@;
                    let current = counts[j].1;
                    proof {
                        pre.lemma_filter_len(
                            |l: crate::store::LogLine|
                                stat_matches(l, channel_id, since, p, only) && l.sender_id
                                    == before[j as int].0,
                        );
                        assert(current <= pre.len());
                    }
                    let bumped: u64 = if current < u64::MAX {
                        current + 1
                    } else {
                        current
                    };
                    counts.set(j, (sender, bumped));
                    proof {
                        assert(counts@ =~= before.update(j as int, (sender, bumped)));
                        assert(bumped == current + 1);
                        assert(forall|q: int|
                            0 <= q < counts@.len() ==> (#[trigger] counts@[q]).0 == before[q].0);
                        assert(counts@[j as int].0 == sender);
                        assert forall|q: int| 0 <= q < counts@.len() implies (
                        #[trigger] counts@[q]).1 == pre.push(self.chat_log.lines@[i as int]).filter(
                            |l: crate::store::LogLine|
                                stat_matches(l, channel_id, since, p, only) && l.sender_id
                                    == counts@[q].0,
                        ).len() by {
                            assert(counts@[q].0 == before[q].0);
                            if q == j {
                                assert(counts@[q].1 == current + 1);
                            } else {
                                assert(counts@[q].1 == before[q].1);
                                assert(before[q].0 != sender);
                            }
                        }
                        assert forall|k: int|
                            0 <= k < i + 1 && stat_matches(#[trigger] self.chat_log.lines@[k],
                            channel_id, since, p, only) implies exists|j2: int|
                            0 <= j2 < counts@.len() && (#[trigger] counts@[j2]).0
                                == self.chat_log.lines@[k].sender_id by {
                            if k < i {
                                let j0 = choose|j0: int|
                                    0 <= j0 < before.len() && (#[trigger] before[j0]).0
                                        == self.chat_log.lines@[k].sender_id;
                                assert(counts@[j0].0 == self.chat_log.lines@[k].sender_id);
                            } else {
                                assert(counts@[j as int].0 == sender);
                            }
                        }
                    }
                } else {
                    let ghost before = counts@;
                    counts.push((sender, 1));
                    proof {
                        assert(counts@ =~= before.push((sender, 1int as u64)));
                        lemma_filter_all_false(
                            pre,
                            |l: crate::store::LogLine|
                                stat_matches(l, channel_id, since, p, only) && l.sender_id
                                    == sender,
                        );
                        crate::store::lemma_filter_push(
                            pre,
                            |l: crate::store::LogLine|
                                stat_matches(l, channel_id, since, p, only) && l.sender_id
                                    == sender,
                            self.chat_log.lines@[i as int],
                        );
                        assert(forall|q: int|
                            0 <= q < before.len() ==> (#[trigger] counts@[q]).0 == before[q].0);
                        assert(counts@[before.len() as int].0 == sender);
                        assert forall|q: int| 0 <= q < counts@.len() implies (
                        #[trigger] counts@[q]).1 == pre.push(self.chat_log.lines@[i as int]).filter(
                            |l: crate::store::LogLine|
                                stat_matches(l, channel_id, since, p, only) && l.sender_id
                                    == counts@[q].0,
                        ).len() by {
                            if q < before.len() {
                                assert(counts@[q] == before[q]);
                            } else {
                                assert(counts@[q] == (sender, 1int as u64));
                            }
                        }
                        assert forall|k: int|
                            0 <= k < i + 1 && stat_matches(#[trigger] self.chat_log.lines@[k],
                            channel_id, since, p, only) implies exists|j2: int|
                            0 <= j2 < counts@.len() && (#[trigger] counts@[j2]).0
                                == self.chat_log.lines@[k].sender_id by {
                            if k < i {
                                let j0 = choose|j0: int|
                                    0 <= j0 < before.len() && (#[trigger] before[j0]).0
                                        == self.chat_log.lines@[k].sender_id;
                                assert(counts@[j0].0 == self.chat_log.lines@[k].sender_id);
                            } else {
                                assert(counts@[before.len() as int].0 == sender);
                            }
                        }
                    }
                }
            }
            i = i + 1;
        }
        proof {
            assert(self.chat_log.lines@.subrange(0, n as int) =~= self.chat_log.lines@);
        }
        counts
    }

    /// The top entries by count: at most `limit`, in descending count
    /// order, each taken from the input.
    fn top_by_count(&self, counts: Vec<(i32, u64)>, limit: usize) -> (r: Vec<(i32, u64)>)
        ensures
            r@.len() <= limit,
            r@.len() <= counts@.len(),
            forall|j: int| 0 <= j < r@.len() - 1 ==> (#[trigger] r@[j]).1 >= r@[j + 1].1,
            forall|j: int| 0 <= j < r@.len() ==> counts@.contains(#[trigger] r@[j]),
    {
        let mut pool = counts;
        let ghost orig = pool@;
        let mut out: Vec<(i32, u64)> = Vec::new();
        while out.len() < limit && pool.len() > 0
            invariant
                out@.len() + pool@.len() == orig.len(),
                forall|q: int| 0 <= q < pool@.len() ==> orig.contains(#[trigger] pool@[q]),
                forall|j: int| 0 <= j < out@.len() ==> orig.contains(#[trigger] out@[j]),
                forall|j: int| 0 <= j < out@.len() - 1 ==> (#[trigger] out@[j]).1 >= out@[j + 1].1,
                out@.len() > 0 ==> forall|q: int|
                    0 <= q < pool@.len() ==> (#[trigger] pool@[q]).1 <= out@.last().1,
                out@.len() <= limit,
            decreases pool@.len(),
        {
            let m = pool.len();
            let mut best: usize = 0;
            let mut j: usize = 1;
            while j < m
                invariant
                    best < j <= m,
                    m == pool@.len(),
                    forall|q: int| 0 <= q < j ==> (#[trigger] pool@[q]).1 <= pool@[best as int].1,
                decreases m - j,
            {
                if pool[j].1 > pool[best].1 {
                    best = j;
                }
                j = j + 1;
            }
            let ghost pool0 = pool@;
            let picked = pool.remove(best);
            proof {
                assert(pool@ =~= pool0.remove(best as int));
                assert(orig.contains(pool0[best as int]));
                assert forall|q: int| 0 <= q < pool@.len() implies orig.contains(
                    #[trigger] pool@[q],
                ) by {
                    if q < best {
                        assert(pool@[q] == pool0[q]);
                    } else {
                        assert(pool@[q] == pool0[q + 1]);
                    }
                }
                assert forall|q: int| 0 <= q < pool@.len() implies (#[trigger] pool@[q]).1
                    <= picked.1 by {
                    if q < best {
                        assert(pool@[q] == pool0[q]);
                    } else {
                        assert(pool@[q] == pool0[q + 1]);
                    }
                }
            }
            let ghost out0 = out@;
            out.push(picked);
            proof {
                assert forall|j2: int| 0 <= j2 < out@.len() - 1 implies (#[trigger] out@[j2]).1
                    >= out@[j2 + 1].1 by {
                    if j2 < out0.len() - 1 {
                        assert(out@[j2] == out0[j2]);
                        assert(out@[j2 + 1] == out0[j2 + 1]);
                    } else {
                        assert(out@[j2] == out0.last());
                        assert(out@[j2 + 1] == picked);
                    }
                }
            }
        }
        out
    }

    /// The chat statistics of the channel: the most active chatters of a
    /// period, one chatter's count, or how many messages hold a phrase.
    pub fn get_chatstats(&mut self, cmd: &CommandSource, fetched: &Fetched) -> (r: Dispatched)
        ensures
            final(self).history.items@ == old(self).history.items@,
            final(self).name_id_cache == old(self).name_id_cache,
            r matches Dispatched::Need(q) ==> (response_for(fetched@, q) is None && match q {
                ExtRequest::StreamInfo(s) => s@ == cmd.channel.name@,
                ExtRequest::NickFromId(_) => true,
                ExtRequest::ResolveId(_) => true,
                _ => false,
            }),
    {
        let period = if cmd.args.len() == 0 {
            crate::options::ChatStatPeriod::Alltime
        } else {
            crate::options::ChatStatPeriod::from_str(cmd.args[0].as_str())
        };
        let mode = if cmd.args.len() <= 1 {
            crate::options::ChatStatsMode::Top(3)
        } else {
            match crate::options::ChatStatsMode::from_cmd(cmd, &self.name_id_cache, fetched) {
                Ok(m) => m,
                Err(req) => {
                    return Dispatched::Need(req);
                },
            }
        };
        let since: i64 = match period {
            crate::options::ChatStatPeriod::Alltime => i64::MIN,
            crate::options::ChatStatPeriod::Last24Hours => {
                if cmd.timestamp >= i64::MIN + 86400 {
                    cmd.timestamp - 86400
                } else {
                    i64::MIN
                }
            },
            crate::options::ChatStatPeriod::ThisStream => {
                let req = ExtRequest::StreamInfo(cmd.channel.name.clone());
                match find_response(fetched, &req) {
                    None => {
                        return Dispatched::Need(req);
                    },
                    Some(k) => match &fetched[k].1 {
                        ExtResponse::MaybeStamp(Some(start)) => *start,
                        ExtResponse::MaybeStamp(None) => {
                            return Dispatched::Done(
                                Some("\u{274C} streamer is not live".to_owned()),
                            );
                        },
                        _ => {
                            return Dispatched::Done(
                                Some(
                                    "\u{274C} an internal error has occured, sorry PoroSad".to_owned(),
                                ),
                            );
                        },
                    },
                }
            },
        };
        let (counts, limit): (Vec<(i32, u64)>, usize) = match &mode {
            crate::options::ChatStatsMode::Top(num) => (
                self.get_channel_chat_stats(cmd.channel.id, since, None, None),
                *num as usize,
            ),
            crate::options::ChatStatsMode::One(id) => (
                self.get_channel_chat_stats(cmd.channel.id, since, None, Some(*id)),
                10,
            ),
            crate::options::ChatStatsMode::WordCount(s) => (
                self.get_channel_chat_stats(cmd.channel.id, since, Some(s), None),
                1,
            ),
        };
        let stats = self.top_by_count(counts, limit);
        let mut out = String::new();
        let n = stats.len();
        let mut i: usize = 0;
        let mut place: u64 = 1;
        while i < n
            invariant
                i <= n,
                n == stats@.len(),
                place == i + 1,
            decreases n - i,
        {
            let user_id = stats[i].0;
            let count = stats[i].1;
            let req = ExtRequest::NickFromId(user_id);
            let name: String = match find_response(fetched, &req) {
                None => {
                    return Dispatched::Need(req);
                },
                Some(k) => match &fetched[k].1 {
                    ExtResponse::Text(name) => name.clone(),
                    _ => {
                        return Dispatched::Done(
                            Some(
                                "\u{274C} an internal error has occured, sorry PoroSad".to_owned(),
                            ),
                        );
                    },
                },
            };
            out.append(" ");
            let pnum = u64_to_string(place);
            out.append(pnum.as_str());
            out.append(". ");
            out.append(name.as_str());
            out.append(" (");
            let cnum = u64_to_string(count);
            out.append(cnum.as_str());
            out.append(")");
            place = place + 1;
            i = i + 1;
        }
        Dispatched::Done(Some(out))
    }

    /// Route one invocation: builtins by exact name first, the empty
    /// name as an alias expansion, anything else as a custom channel
    /// command. Recursion is clamped; the outermost call of a
    /// non-composed invocation records the history row and cuts the
    /// output to the message-length limit.
    #[verifier::rlimit(100)]
    #[verifier::spinoff_prover]
    pub fn dispatch(&mut self, cmd: &CommandSource, fetched: &Fetched, depth: u32) -> (r:
        Dispatched)
        ensures
            depth == 0 ==> (r matches Dispatched::Done(o) && o matches Some(t) && t@
                == "\u{274C} recursion limit reached"@ && *final(self) == *old(self)),
            depth > 0 && cmd.cmd@ == "echo"@ ==> (r matches Dispatched::Done(o) && o matches Some(t)
                && t@ == (if cmd.is_pipe {
                echo_spec(*cmd)
            } else {
                truncated(echo_spec(*cmd))
            })),
            depth > 0 && cmd.cmd@ == "demultiplex"@ && !crate::types::is_mvb_spec(
                cmd.sender.statuses@,
            ) ==> (r matches Dispatched::Done(o) && o matches Some(t) && t@ == (if cmd.is_pipe {
                "\u{274C} requires MVB privileges | E4"@
            } else {
                truncated("\u{274C} requires MVB privileges | E4"@)
            })),
            depth > 0 && cmd.cmd@ == "setcmd"@ && !crate::types::is_mvb_spec(cmd.sender.statuses@)
                ==> (r matches Dispatched::Done(o) && o matches Some(t) && t@ == (if cmd.is_pipe {
                "\u{274C} not high enough status"@
            } else {
                truncated("\u{274C} not high enough status"@)
            }) && final(self).commands.rows@ == old(self).commands.rows@),
            depth > 0 && cmd.cmd@ == "sethook"@ && !crate::types::is_mvb_spec(cmd.sender.statuses@)
                ==> (r matches Dispatched::Done(o) && o matches Some(t) && t@ == (if cmd.is_pipe {
                "\u{274C} requires MVB privileges | E4"@
            } else {
                truncated("\u{274C} requires MVB privileges | E4"@)
            }) && final(self).channel_states == old(self).channel_states),
            depth > 0 ==> cached_id(final(self).name_id_cache.items@, cmd.sender.name@) == Some(
                cmd.sender.id,
            ),
            cmd.is_pipe ==> final(self).history.items@ == old(self).history.items@,
            depth > 0 && cmd.cmd@ == "cf"@ ==> (r matches Dispatched::Done(o) && o matches Some(t)
                && (t@ == (if cmd.is_pipe {
                "Tails!"@
            } else {
                truncated("Tails!"@)
            }) || t@ == (if cmd.is_pipe {
                "Heads!"@
            } else {
                truncated("Heads!"@)
            }))),
            depth > 0 && cmd.cmd@ == "giveup"@ && crate::trivia::has_ongoing_game(
                old(self).channel_states.entries@,
                cmd.channel.id,
            ) ==> (r matches Dispatched::Done(o) && o matches Some(t) && t@ == (if cmd.is_pipe {
                "So bad LUL | The answer was '"@ + crate::trivia::state_of(
                    old(self).channel_states.entries@,
                    cmd.channel.id,
                ).specifics.ongoing_trivia_game->0.correct_answer@ + "'"@
            } else {
                truncated(
                    "So bad LUL | The answer was '"@ + crate::trivia::state_of(
                        old(self).channel_states.entries@,
                        cmd.channel.id,
                    ).specifics.ongoing_trivia_game->0.correct_answer@ + "'"@,
                )
            }) && !crate::trivia::has_ongoing_game(
                final(self).channel_states.entries@,
                cmd.channel.id,
            )),
            depth > 0 && cmd.cmd@ == "giveup"@ && !crate::trivia::has_ongoing_game(
                old(self).channel_states.entries@,
                cmd.channel.id,
            ) ==> (r matches Dispatched::Done(o) && o matches Some(t) && t@ == (if cmd.is_pipe {
                "\u{274C} there was no game going on LUL"@
            } else {
                truncated("\u{274C} there was no game going on LUL"@)
            })),
            depth > 0 && cmd.cmd@ == "trivia"@ && crate::trivia::has_ongoing_game(
                old(self).channel_states.entries@,
                cmd.channel.id,
            ) ==> (r matches Dispatched::Done(o) && o matches Some(t) && t@ == (if cmd.is_pipe {
                "\u{274C} there is currently a game going on!"@
            } else {
                truncated("\u{274C} there is currently a game going on!"@)
            })),
            depth > 0 && cmd.cmd@ == "markov"@ && cmd.args@.len() == 0 ==> (
            r matches Dispatched::Done(o) && o matches Some(t) && t@ == (if cmd.is_pipe {
                "\u{274C} insufficient args"@
            } else {
                truncated("\u{274C} insufficient args"@)
            })),
            depth > 0 && !cmd.is_pipe ==> match r {
                Dispatched::Need(_) => true,
                Dispatched::Done(o) => ({
                    let rows = final(self).history.items@;
                    &&& rows.len() >= 1
                    &&& rows.last().sender_id == cmd.sender.id
                    &&& rows.last().sender_name@ == cmd.sender.name@
                    &&& rows.last().command@ == cmd.cmd@
                    &&& rows.last().args.deep_view() == cmd.args.deep_view()
                    &&& rows.last().timestamp == cmd.timestamp
                    &&& match o {
                        Some(t) => t@ == truncated(rows.last().output@),
                        None => rows.last().output@ == Seq::<char>::empty(),
                    }
                }),
            },
        decreases depth,
    {
        if depth == 0 {
            return Dispatched::Done(Some("\u{274C} recursion limit reached".to_owned()));
        }
        proof {
            reveal_strlit("cf");
            reveal_strlit("echo");
            reveal_strlit("8ball");
            reveal_strlit("decide");
            reveal_strlit("query");
            reveal_strlit("math");
            reveal_strlit("ping");
            reveal_strlit("time");
            reveal_strlit("pasta");
            reveal_strlit("markov");
            reveal_strlit("setcmd");
            reveal_strlit("suggest");
            reveal_strlit("inspireme");
            reveal_strlit("reddit");
            reveal_strlit("wiki");
            reveal_strlit("setalias");
            reveal_strlit("define");
            reveal_strlit("rmalias");
            reveal_strlit("random");
            reveal_strlit("lurk");
            reveal_strlit("explain");
            reveal_strlit("urban");
            reveal_strlit("pyramid");
            reveal_strlit("weather");
            reveal_strlit("chatstats");
            reveal_strlit("uptime");
            reveal_strlit("accage");
            reveal_strlit("delcmd");
            reveal_strlit("binomial");
            reveal_strlit("followage");
            reveal_strlit("clearreminders");
            reveal_strlit("rmrm");
            reveal_strlit("ls");
            reveal_strlit("first");
            reveal_strlit("sethook");
            reveal_strlit("offlinetime");
            reveal_strlit("bible");
            reveal_strlit("quran");
            reveal_strlit("tanakh");
            reveal_strlit("remindme");
            reveal_strlit("remind");
            reveal_strlit("giveup");
            reveal_strlit("hint");
            reveal_strlit("wordratio");
            reveal_strlit("commands");
            reveal_strlit("trivia");
            reveal_strlit("rose");
            reveal_strlit("demultiplex");
            reveal_strlit("bench");
            reveal_strlit("pipe");
            assert("cf"@.len() == 2);
            assert("echo"@.len() == 4);
            assert("8ball"@.len() == 5);
            assert("decide"@.len() == 6);
            assert("query"@.len() == 5);
            assert("math"@.len() == 4);
            assert("ping"@.len() == 4);
            assert("time"@.len() == 4);
            assert("pasta"@.len() == 5);
            assert("markov"@.len() == 6);
            assert("setcmd"@.len() == 6);
            assert("suggest"@.len() == 7);
            assert("inspireme"@.len() == 9);
            assert("reddit"@.len() == 6);
            assert("wiki"@.len() == 4);
            assert("setalias"@.len() == 8);
            assert("define"@.len() == 6);
            assert("rmalias"@.len() == 7);
            assert("random"@.len() == 6);
            assert("lurk"@.len() == 4);
            assert("explain"@.len() == 7);
            assert("urban"@.len() == 5);
            assert("pyramid"@.len() == 7);
            assert("weather"@.len() == 7);
            assert("chatstats"@.len() == 9);
            assert("uptime"@.len() == 6);
            assert("accage"@.len() == 6);
            assert("delcmd"@.len() == 6);
            assert("binomial"@.len() == 8);
            assert("followage"@.len() == 9);
            assert("clearreminders"@.len() == 14);
            assert("rmrm"@.len() == 4);
            assert("ls"@.len() == 2);
            assert("first"@.len() == 5);
            assert("sethook"@.len() == 7);
            assert("offlinetime"@.len() == 11);
            assert("bible"@.len() == 5);
            assert("quran"@.len() == 5);
            assert("tanakh"@.len() == 6);
            assert("remindme"@.len() == 8);
            assert("remind"@.len() == 6);
            assert("giveup"@.len() == 6);
            assert("hint"@.len() == 4);
            assert("wordratio"@.len() == 9);
            assert("commands"@.len() == 8);
            assert("trivia"@.len() == 6);
            assert("rose"@.len() == 4);
            assert("demultiplex"@.len() == 11);
            assert("bench"@.len() == 5);
            assert("pipe"@.len() == 4);
            assert("echo"@[0] == 'e');
            assert("decide"@[0] == 'd');
            assert("math"@[0] == 'm');
            assert("ping"@[0] == 'p');
            assert("time"@[0] == 't');
            assert("markov"@[0] == 'm');
            assert("setcmd"@[0] == 's');
            assert("suggest"@[0] == 's');
            assert("reddit"@[0] == 'r');
            assert("wiki"@[0] == 'w');
            assert("define"@[0] == 'd');
            assert("rmalias"@[0] == 'r');
            assert("random"@[0] == 'r');
            assert("lurk"@[0] == 'l');
            assert("explain"@[0] == 'e');
            assert("pyramid"@[0] == 'p');
            assert("weather"@[0] == 'w');
            assert("uptime"@[0] == 'u');
            assert("accage"@[0] == 'a');
            assert("delcmd"@[0] == 'd');
            assert("rmrm"@[0] == 'r');
            assert("sethook"@[0] == 's');
            assert("offlinetime"@[0] == 'o');
            assert("tanakh"@[0] == 't');
            assert("remind"@[0] == 'r');
            assert("giveup"@[0] == 'g');
            assert("hint"@[0] == 'h');
            assert("trivia"@[0] == 't');
            assert("rose"@[0] == 'r');
            assert("demultiplex"@[0] == 'd');
            assert("pipe"@[0] == 'p');
            assert("sethook"@[1] == 'e');
            assert("suggest"@[1] == 'u');
            assert("trivia"@[1] == 'r');
            assert("tanakh"@[1] == 'a');
            assert("cf"@[0] == 'c');
            assert("ls"@[0] == 'l');
        }
        let start = crate::clock::now_instant();
        let ghost items0 = self.name_id_cache.items@;
        self.name_id_cache.insert(cmd.sender.name.as_str(), cmd.sender.id);
        proof {
            let items1 = self.name_id_cache.items@;
            if exists|k: int|
                0 <= k < items0.len() && crate::cache::name_matches(
                    #[trigger] items0[k],
                    cmd.sender.name@,
                ) {
                let k = choose|k: int|
                    0 <= k < items0.len() && crate::cache::name_matches(
                        #[trigger] items0[k],
                        cmd.sender.name@,
                    ) && (forall|j: int|
                        0 <= j < k ==> !crate::cache::name_matches(
                            #[trigger] items0[j],
                            cmd.sender.name@,
                        )) && items1 == items0.update(k, items1[k]);
                lemma_cached_id_at(items1, cmd.sender.name@, k);
            } else {
                assert(items1.len() == items0.len() + 1);
                assert(forall|j: int| 0 <= j < items0.len() ==> items1[j] == items0[j]);
                assert(crate::cache::name_matches(items1[items0.len() as int], cmd.sender.name@));
                lemma_cached_id_at(items1, cmd.sender.name@, items0.len() as int);
            }
            assert(cached_id(items1, cmd.sender.name@) == Some(cmd.sender.id));
        }
        let name = cmd.cmd.as_str();
        let out: Dispatched = if str_eq(name, "cf") {
            Dispatched::Done(Some(coinflip()))
        } else if str_eq(name, "echo") {
            Dispatched::Done(Some(echo(cmd)))
        } else if str_eq(name, "8ball") || str_eq(name, "decide") {
            Dispatched::Done(Some(self.decide(cmd)))
        } else if str_eq(name, "query") || str_eq(name, "math") {
            self.query(cmd, fetched)
        } else if str_eq(name, "ping") {
            Dispatched::Done(Some(self.ping(cmd)))
        } else if str_eq(name, "time") {
            self.get_time(cmd, fetched)
        } else if str_eq(name, "pasta") {
            self.get_rand_pasta(fetched)
        } else if str_eq(name, "markov") {
            Dispatched::Done(Some(self.markov(cmd)))
        } else if str_eq(name, "setcmd") {
            Dispatched::Done(Some(self.set_cmd(cmd)))
        } else if str_eq(name, "suggest") {
            Dispatched::Done(Some(self.suggest(cmd)))
        } else if str_eq(name, "inspireme") {
            self.get_inspire_image(fetched)
        } else if str_eq(name, "reddit") {
            self.get_reddit_post(cmd, fetched)
        } else if str_eq(name, "wiki") {
            self.query_wikipedia(cmd, fetched)
        } else if str_eq(name, "setalias") {
            Dispatched::Done(Some(self.set_alias(cmd)))
        } else if str_eq(name, "define") {
            self.query_dictionary(cmd, fetched)
        } else if str_eq(name, "rmalias") {
            Dispatched::Done(Some(self.remove_alias(cmd)))
        } else if str_eq(name, "random") {
            Dispatched::Done(Some(self.rand_int_from_range(cmd)))
        } else if str_eq(name, "lurk") {
            Dispatched::Done(Some(self.set_lurk_status(cmd)))
        } else if str_eq(name, "explain") {
            Dispatched::Done(Some(self.explain(cmd)))
        } else if str_eq(name, "urban") {
            self.query_urban_dictionary(cmd, fetched)
        } else if str_eq(name, "pyramid") {
            self.pyramid(cmd, fetched)
        } else if str_eq(name, "weather") {
            self.get_weather_report(cmd, fetched)
        } else if str_eq(name, "chatstats") {
            self.get_chatstats(cmd, fetched)
        } else if str_eq(name, "uptime") {
            self.get_uptime(cmd, fetched)
        } else if str_eq(name, "accage") {
            self.get_accage(cmd, fetched)
        } else if str_eq(name, "delcmd") {
            Dispatched::Done(Some(self.remove_channel_command(cmd)))
        } else if str_eq(name, "binomial") {
            self.binomial_probability(cmd, fetched)
        } else if str_eq(name, "followage") {
            self.get_followage(cmd, fetched)
        } else if str_eq(name, "clearreminders") || str_eq(name, "rmrm") {
            Dispatched::Done(Some(self.clear_reminders(cmd.sender.id)))
        } else if str_eq(name, "ls") {
            self.find_last_seen(cmd, fetched)
        } else if str_eq(name, "first") {
            self.first_message(cmd, fetched)
        } else if str_eq(name, "sethook") {
            Dispatched::Done(Some(self.create_hook(cmd)))
        } else if str_eq(name, "offlinetime") {
            self.get_offline_time(cmd, fetched)
        } else if str_eq(name, "bible") {
            self.get_rand_holy_book_verse(HolyBook::Bible, fetched)
        } else if str_eq(name, "quran") {
            self.get_rand_holy_book_verse(HolyBook::Quran, fetched)
        } else if str_eq(name, "tanakh") {
            self.get_rand_holy_book_verse(HolyBook::Tanakh, fetched)
        } else if str_eq(name, "remindme") {
            self.add_reminder(cmd, fetched, true)
        } else if str_eq(name, "remind") {
            self.add_reminder(cmd, fetched, false)
        } else if str_eq(name, "giveup") {
            Dispatched::Done(Some(self.give_up_trivia(cmd)))
        } else if str_eq(name, "hint") {
            Dispatched::Done(Some(self.give_trivia_hint(cmd)))
        } else if str_eq(name, "wordratio") {
            self.get_word_ratio(cmd, fetched)
        } else if str_eq(name, "commands") {
            Dispatched::Done(Some(self.get_commands_reference_link()))
        } else if str_eq(name, "trivia") {
            self.attempt_start_trivia_game(cmd, fetched)
        } else if str_eq(name, "rose") {
            self.tag_rand_chatter_with_rose(cmd, fetched)
        } else if str_eq(name, "demultiplex") {
            self.demultiplex(cmd, fetched, depth)
        } else if str_eq(name, "bench") {
            self.bench_command(cmd, fetched, depth)
        } else if str_eq(name, "pipe") {
            self.pipe(cmd, fetched, depth)
        } else if name.unicode_len() == 0 {
            self.execute_alias(cmd, fetched, depth)
        } else {
            Dispatched::Done(Some(self.try_execute_channel_command(cmd)))
        };
        let output = match out {
            Dispatched::Need(req) => {
                return Dispatched::Need(req);
            },
            Dispatched::Done(o) => o,
        };
        if cmd.is_pipe {
            return Dispatched::Done(output);
        }
        let ms = crate::clock::elapsed_ms(&start);
        match output {
            Some(text) => {
                self.history.log_command(
                    cmd.sender.id,
                    cmd.sender.name.as_str(),
                    cmd.cmd.as_str(),
                    &cmd.args,
                    ms,
                    text.as_str(),
                    cmd.timestamp,
                );
                Dispatched::Done(Some(truncate_message(text)))
            },
            None => {
                self.history.log_command(
                    cmd.sender.id,
                    cmd.sender.name.as_str(),
                    cmd.cmd.as_str(),
                    &cmd.args,
                    ms,
                    "",
                    cmd.timestamp,
                );
                proof {
                    reveal_strlit("");
                    assert(""@.len() == 0);
                    assert(self.history.items@.last().output@ =~= Seq::<char>::empty());
                }
                Dispatched::Done(None)
            },
        }
    }

    /// Handle one command invocation at the outermost level: the
    /// sender's binding is cached, the invocation is routed with the
    /// recursion clamp, and a finished non-piped call records its
    /// history row and cuts the reply to the message limit; a piped call
    /// records nothing.
    pub fn handle_command(&mut self, cmd: &CommandSource, fetched: &Fetched) -> (r: Dispatched)
        ensures
            cached_id(final(self).name_id_cache.items@, cmd.sender.name@) == Some(cmd.sender.id),
            cmd.is_pipe ==> final(self).history.items@ == old(self).history.items@,
            !cmd.is_pipe ==> match r {
                Dispatched::Need(_) => true,
                Dispatched::Done(o) => ({
                    let rows = final(self).history.items@;
                    &&& rows.len() >= 1
                    &&& rows.last().sender_id == cmd.sender.id
                    &&& rows.last().sender_name@ == cmd.sender.name@
                    &&& rows.last().command@ == cmd.cmd@
                    &&& rows.last().args.deep_view() == cmd.args.deep_view()
                    &&& rows.last().timestamp == cmd.timestamp
                    &&& match o {
                        Some(t) => t@ == truncated(rows.last().output@),
                        None => rows.last().output@ == Seq::<char>::empty(),
                    }
                }),
            },
            cmd.cmd@ == "echo"@ ==> (r matches Dispatched::Done(o) && o matches Some(t) && t@ == (
            if cmd.is_pipe {
                echo_spec(*cmd)
            } else {
                truncated(echo_spec(*cmd))
            })),
            cmd.cmd@ == "demultiplex"@ && !crate::types::is_mvb_spec(cmd.sender.statuses@) ==> (
            r matches Dispatched::Done(o) && o matches Some(t) && t@ == (if cmd.is_pipe {
                "\u{274C} requires MVB privileges | E4"@
            } else {
                truncated("\u{274C} requires MVB privileges | E4"@)
            })),
            cmd.cmd@ == "setcmd"@ && !crate::types::is_mvb_spec(cmd.sender.statuses@) ==> (
            r matches Dispatched::Done(o) && o matches Some(t) && t@ == (if cmd.is_pipe {
                "\u{274C} not high enough status"@
            } else {
                truncated("\u{274C} not high enough status"@)
            }) && final(self).commands.rows@ == old(self).commands.rows@),
            cmd.cmd@ == "sethook"@ && !crate::types::is_mvb_spec(cmd.sender.statuses@) ==> (
            r matches Dispatched::Done(o) && o matches Some(t) && t@ == (if cmd.is_pipe {
                "\u{274C} requires MVB privileges | E4"@
            } else {
                truncated("\u{274C} requires MVB privileges | E4"@)
            }) && final(self).channel_states == old(self).channel_states),
    {
        self.dispatch(cmd, fetched, 10)
    }

    /// The binomial-probability arguments are validated here; the
    /// floating-point evaluation itself is the runtime's.
    fn binomial_probability(&self, cmd: &CommandSource, fetched: &Fetched) -> (r: Dispatched) {
        let tries = match crate::parse::parse_by_ident(cmd.args.as_slice(), "tries") {
            Some(v) => v,
            None => {
                return Dispatched::Done(
                    Some(MyError::MissingHardParameter("tries".to_owned()).message()),
                );
            },
        };
        match parse_u64(tries.as_str()) {
            Some(_) => {},
            None => {
                return Dispatched::Done(
                    Some(
                        MyError::BadHardArgumentType(
                            "tries".to_owned(),
                            "non-negative integer".to_owned(),
                        ).message(),
                    ),
                );
            },
        }
        let succ_count = match crate::parse::parse_by_ident(cmd.args.as_slice(), "succ_count") {
            Some(v) => v,
            None => {
                return Dispatched::Done(
                    Some(MyError::MissingHardParameter("tries".to_owned()).message()),
                );
            },
        };
        match parse_u64(succ_count.as_str()) {
            Some(_) => {},
            None => {
                return Dispatched::Done(
                    Some(
                        MyError::BadHardArgumentType(
                            "succ_count".to_owned(),
                            "non-negative integer".to_owned(),
                        ).message(),
                    ),
                );
            },
        }
        match crate::parse::parse_by_ident(cmd.args.as_slice(), "succ_prob") {
            Some(_) => {},
            None => {
                return Dispatched::Done(
                    Some(MyError::MissingHardParameter("tries".to_owned()).message()),
                );
            },
        }
        let mut args_copy: Vec<String> = Vec::new();
        let n = cmd.args.len();
        let mut i: usize = 0;
        while i < n
            invariant
                i <= n,
            decreases n - i,
        {
            args_copy.push(cmd.args[i].clone());
            i = i + 1;
        }
        let req = ExtRequest::Binomial(args_copy);
        match find_response(fetched, &req) {
            None => Dispatched::Need(req),
            Some(k) => match &fetched[k].1 {
                ExtResponse::Text(answer) => Dispatched::Done(Some(answer.clone())),
                ExtResponse::MaybeText(Some(answer)) => Dispatched::Done(Some(answer.clone())),
                _ => Dispatched::Done(
                    Some(MyError::BadHardArgumentType(
                        "succ_prob".to_owned(),
                        "decimal number from [0,1]".to_owned(),
                    ).message()),
                ),
            },
        }
    }
}

/// What handling one non-command chat message produced: lines to
/// speak, or a request the runtime must answer first.
pub enum ChatHandled {
    Say(Vec<String>),
    Need(ExtRequest),
}

impl Bot {
    /// A bot over empty state.
    pub fn new(config: BotConfig) -> (r: Bot)
        ensures
            r.config == config,
            r.name_id_cache.items@.len() == 0,
            r.channel_states.entries@.len() == 0,
            r.markov.rows@.len() == 0,
            r.commands.rows@.len() == 0,
            r.aliases.items@.len() == 0,
            r.reminders.items@.len() == 0,
            r.chat_log.lines@.len() == 0,
    {
        Bot {
            config,
            name_id_cache: NameIdCache::new(),
            emote_cache: EmoteCache::from_lists(Vec::new(), Vec::new()),
            channel_states: ChannelStateStore::new(),
            markov: MarkovTable::new(),
            commands: ChannelCommands::new(),
            aliases: AliasStore::new(),
            reminders: ReminderStore::new(),
            lurkers: Lurkers::new(),
            suggestions: Suggestions::new(),
            explanations: Explanations::new(Vec::new()),
            offliners: Offliners::new(),
            chat_log: ChatLog::new(),
            history: CommandHistory::new(),
        }
    }

    /// Handle one non-command chat message: log it, welcome a returning
    /// lurker back, deliver due reminders, feed the text model, judge a
    /// running trivia game, and fire the channel's hooks. The returned
    /// lines are what the bot speaks.
    #[verifier::rlimit(100)]
    #[verifier::spinoff_prover]
    pub fn handle_chat_message(&mut self, msg: &crate::types::Privmsg, fetched: &Fetched) -> (r:
        ChatHandled)
        ensures
            r matches ChatHandled::Need(q) ==> (q matches ExtRequest::NickFromId(_)
                && response_for(fetched@, q) is None && *final(self) == *old(self)),
            r matches ChatHandled::Say(_) ==> ({
                let lines = final(self).chat_log.lines@;
                &&& lines.len() == old(self).chat_log.lines@.len() + 1
                &&& lines.drop_last() == old(self).chat_log.lines@
                &&& lines.last().channel_id == msg.channel_id
                &&& lines.last().sender_id == msg.sender_id
                &&& lines.last().sender_name@ == msg.sender_name@
                &&& lines.last().timestamp == msg.timestamp
                &&& lines.last().message@ == msg.message_text@
            }),
            crate::trivia::has_ongoing_game(old(self).channel_states.entries@, msg.channel_id)
                && crate::text::eq_ignore_case(
                crate::trivia::state_of(
                    old(self).channel_states.entries@,
                    msg.channel_id,
                ).specifics.ongoing_trivia_game->0.correct_answer@,
                msg.message_text@,
            ) ==> match r {
                ChatHandled::Need(_) => true,
                ChatHandled::Say(lines) => !crate::trivia::has_ongoing_game(
                    final(self).channel_states.entries@,
                    msg.channel_id,
                ) && exists|k: int|
                    0 <= k < lines@.len() && (#[trigger] lines@[k])@ == "@"@ + msg.sender_name@
                        + " Correct!"@,
            },
            r matches ChatHandled::Say(_) && !(crate::trivia::has_ongoing_game(
                old(self).channel_states.entries@,
                msg.channel_id,
            ) && crate::text::eq_ignore_case(
                crate::trivia::state_of(
                    old(self).channel_states.entries@,
                    msg.channel_id,
                ).specifics.ongoing_trivia_game->0.correct_answer@,
                msg.message_text@,
            )) ==> final(self).channel_states.entries@ == old(self).channel_states.entries@,
    {
        let due = self.reminders.due_reminders(msg.sender_id, msg.timestamp);
        let mut reminder_lines: Vec<String> = Vec::new();
        let dn = due.len();
        let mut i: usize = 0;
        while i < dn
            invariant
                i <= dn,
                dn == due@.len(),
            decreases dn - i,
        {
            let rem = &due[i];
            let from_user: String = if rem.from_user_id == rem.for_user_id {
                "yourself".to_owned()
            } else {
                let req = ExtRequest::NickFromId(rem.from_user_id);
                match find_response(fetched, &req) {
                    None => {
                        return ChatHandled::Need(req);
                    },
                    Some(k) => match &fetched[k].1 {
                        ExtResponse::Text(name) => name.clone(),
                        _ => "yourself".to_owned(),
                    },
                }
            };
            let for_req = ExtRequest::NickFromId(rem.for_user_id);
            let for_user: String = match find_response(fetched, &for_req) {
                None => {
                    return ChatHandled::Need(for_req);
                },
                Some(k) => match &fetched[k].1 {
                    ExtResponse::Text(name) => name.clone(),
                    _ => msg.sender_name.clone(),
                },
            };
            let mut line = "@".to_owned();
            line.append(for_user.as_str());
            line.append(" \u{1F514}\u{1F5E8} ");
            line.append(from_user.as_str());
            line.append(": ");
            line.append(rem.message.as_str());
            reminder_lines.push(line);
            i = i + 1;
        }
        let mut lines: Vec<String> = Vec::new();
        self.chat_log.log(
            msg.channel_id,
            msg.sender_id,
            msg.sender_name.as_str(),
            msg.timestamp,
            msg.message_text.as_str(),
        );
        match self.lurkers.is_lurker(msg.sender_id) {
            Some(since) => {
                let away: u64 = if msg.timestamp >= since {
                    let wide: i128 = (msg.timestamp as i128) - (since as i128);
                    if wide > u64::MAX as i128 {
                        u64::MAX
                    } else {
                        wide as u64
                    }
                } else {
                    0
                };
                let mut line = msg.sender_name.clone();
                line.append(" is no longer AFK (");
                let dur = fmt_duration(away, false);
                line.append(dur.as_str());
                line.append(")");
                lines.push(line);
            },
            None => {},
        }
        let _ = self.reminders.check_for_reminders(msg.sender_id, msg.timestamp);
        let rn = reminder_lines.len();
        let mut j: usize = 0;
        while j < rn
            invariant
                j <= rn,
                rn == reminder_lines@.len(),
            decreases rn - j,
        {
            lines.push(reminder_lines[j].clone());
            j = j + 1;
        }
        if self.config.index_markov {
            self.markov.log_markov(
                &self.emote_cache,
                msg.channel_name.as_str(),
                &msg.emote_codes,
                msg.channel_id,
                msg.message_text.as_str(),
            );
        }
        let answered = self.channel_states.evaluate_answer(
            msg.channel_id,
            msg.message_text.as_str(),
        );

        let ghost correct_idx = lines@.len();
        if answered {
            let mut line = "@".to_owned();
            line.append(msg.sender_name.as_str());
            line.append(" Correct!");
            lines.push(line);
            proof {
                assert(lines@[correct_idx as int]@ == "@"@ + msg.sender_name@ + " Correct!"@);
            }
        }
        match self.channel_states.evaluate_hooks(msg.channel_id, msg.message_text.as_str()) {
            Some(content) => {
                lines.push(content);
            },
            None => {},
        }
        let result = ChatHandled::Say(lines);
        proof {
            if answered {
                let l2 = result->Say_0;
                assert(l2@[correct_idx as int]@ == "@"@ + msg.sender_name@ + " Correct!"@);
                assert(!crate::trivia::has_ongoing_game(
                    self.channel_states.entries@,
                    msg.channel_id,
                ));
                assert(match result {
                    ChatHandled::Need(_) => true,
                    ChatHandled::Say(l3) => !crate::trivia::has_ongoing_game(
                        self.channel_states.entries@,
                        msg.channel_id,
                    ) && exists|k: int|
                        0 <= k < l3@.len() && (#[trigger] l3@[k])@ == "@"@ + msg.sender_name@
                            + " Correct!"@,
                });
            }
        }
        result
    }

    /// Evict the whole identity cache, as the periodic eviction task
    /// does, reporting how many bindings were dropped. Lookups after the
    /// eviction miss until the cache is repopulated.
    pub fn clear_name_id_cache(&mut self) -> (r: usize)
        ensures
            r == old(self).name_id_cache.items@.len(),
            final(self).name_id_cache.items@.len() == 0,
            final(self).config == old(self).config,
            final(self).offliners == old(self).offliners,
    {
        self.name_id_cache.clear()
    }

    /// One pass of the offline-time accrual worker: for every
    /// configured channel that is not live, credit one interval to each
    /// chatter who is not disregarded, counting the credits made.
    #[verifier::rlimit(100)]
    #[verifier::spinoff_prover]
    pub fn check_for_offliners(&mut self, fetched: &Fetched) -> (r: Result<u64, ExtRequest>)
        ensures
            r matches Result::Err(req) ==> (response_for(fetched@, req) is None && match req {
                ExtRequest::StreamInfo(_) => true,
                ExtRequest::Chatters(_) => true,
                ExtRequest::ResolveId(_) => true,
                _ => false,
            }),
            r matches Result::Ok(count) ==> exists|pairs: Seq<(i32, i32)>|
                final(self).offliners.rows@ == upsert_pairs(
                    old(self).offliners.rows@,
                    pairs,
                ) && (#[trigger] pairs.len()) <= u64::MAX && count == pairs.len() && (forall|p: int|
                    0 <= p < pairs.len() ==> credit_justified(
                        old(self).config.channels.deep_view(),
                        old(self).config.disregarded_users.deep_view(),
                        old(self).name_id_cache.items@,
                        fetched@,
                        #[trigger] pairs[p],
                    )) && (pairs.len() < u64::MAX ==> ({
                    let chans = old(self).config.channels.deep_view();
                    let dis = old(self).config.disregarded_users.deep_view();
                    let cache = old(self).name_id_cache.items@;
                    forall|ci: int, cj: int|
                        #![trigger chatter_list(fetched@, chans[ci])[cj]]
                        (0 <= ci < chans.len() && stream_not_live(fetched@, chans[ci]) && 0 <= cj
                            < chatter_list(fetched@, chans[ci]).len() && !dis.contains(
                            lower_of(chatter_list(fetched@, chans[ci])[cj]),
                        ) && (resolution_of(cache, fetched@, chans[ci]) matches Some(oc)
                            && oc is Some) && (resolution_of(
                            cache,
                            fetched@,
                            chatter_list(fetched@, chans[ci])[cj],
                        ) matches Some(ou) && ou is Some)) ==> pairs.contains(
                            (
                                resolution_of(cache, fetched@, chans[ci])->0->0,
                                resolution_of(
                                    cache,
                                    fetched@,
                                    chatter_list(fetched@, chans[ci])[cj],
                                )->0->0,
                            ),
                        )
                })),
    {
        let mut count: u64 = 0;
        let ghost rows0 = self.offliners.rows@;
        let ghost cache0 = self.name_id_cache.items@;
        let ghost chans0 = self.config.channels.deep_view();
        let ghost dis0 = self.config.disregarded_users.deep_view();
        let ghost mut pairs: Seq<(i32, i32)> = Seq::empty();
        let n = self.config.channels.len();
        let mut i: usize = 0;
        while i < n
            invariant
                i <= n,
                n == self.config.channels@.len(),
                self.config == old(self).config,
                pairs.len() <= u64::MAX,
                count == pairs.len(),
                self.offliners.rows@ == upsert_pairs(rows0, pairs),
                forall|nm: Seq<char>|
                    #[trigger] resolution_of(cache0, fetched@, nm) == resolution_of(
                        self.name_id_cache.items@,
                        fetched@,
                        nm,
                    ),
                forall|p: int|
                    0 <= p < pairs.len() ==> credit_justified(chans0, dis0, cache0, fetched@,
                    #[trigger] pairs[p]),
                pairs.len() < u64::MAX ==> forall|ci: int, cj: int|
                    #![trigger chatter_list(fetched@, chans0[ci])[cj]]
                    (0 <= ci < i && stream_not_live(fetched@, chans0[ci]) && 0 <= cj < chatter_list(
                        fetched@,
                        chans0[ci],
                    ).len() && !dis0.contains(lower_of(chatter_list(fetched@, chans0[ci])[cj])) && (
                    resolution_of(cache0, fetched@, chans0[ci]) matches Some(oc) && oc is Some) && (
                    resolution_of(cache0, fetched@, chatter_list(fetched@, chans0[ci])[cj])
                        matches Some(ou) && ou is Some)) ==> pairs.contains(
                        (
                            resolution_of(cache0, fetched@, chans0[ci])->0->0,
                            resolution_of(
                                cache0,
                                fetched@,
                                chatter_list(fetched@, chans0[ci])[cj],
                            )->0->0,
                        ),
                    ),
            decreases n - i,
        {
            let channel_name = self.config.channels[i].clone();
            proof {
                assert(channel_name@ == chans0[i as int]);
            }
            let live_req = ExtRequest::StreamInfo(channel_name.clone());
            proof {
                lemma_stream_answer_is_response_for(fetched@, live_req, channel_name@);
            }
            let started = match find_response(fetched, &live_req) {
                None => {
                    return Err(live_req);
                },
                Some(k) => match &fetched[k].1 {
                    ExtResponse::MaybeStamp(s) => match s {
                        Some(_) => true,
                        None => false,
                    },
                    _ => false,
                },
            };
            proof {
                assert(stream_not_live(fetched@, chans0[i as int]) == !started);
            }
            if !started {
                let chat_req = ExtRequest::Chatters(channel_name.clone());
                proof {
                    lemma_chatters_answer_is_response_for(fetched@, chat_req, channel_name@);
                }
                let chatters: Option<Vec<String>> = match find_response(fetched, &chat_req) {
                    None => {
                        return Err(chat_req);
                    },
                    Some(k) => match &fetched[k].1 {
                        ExtResponse::MaybeNames(Some(names)) => {
                            let mut copy: Vec<String> = Vec::new();
                            let cn = names.len();
                            let mut c: usize = 0;
                            proof {
                                assert(copy.deep_view() =~= names.deep_view().subrange(0, 0));
                            }
                            while c < cn
                                invariant
                                    c <= cn,
                                    cn == names@.len(),
                                    copy.deep_view() == names.deep_view().subrange(0, c as int),
                                decreases cn - c,
                            {
                                copy.push(names[c].clone());
                                proof {
                                    assert(copy.deep_view() =~= names.deep_view().subrange(
                                        0,
                                        c + 1,
                                    ));
                                }
                                c = c + 1;
                            }
                            proof {
                                assert(copy.deep_view() =~= names.deep_view());
                            }
                            Some(copy)
                        },
                        _ => None,
                    },
                };
                let ghost chatters_list: Seq<Seq<char>> = match chatters {
                    Some(ref v) => v.deep_view(),
                    None => Seq::empty(),
                };
                match chatters {
                    Some(names) => {
                        let ghost pre_cache = self.name_id_cache.items@;
                        let channel_id = match self.resolve_id(channel_name.as_str(), fetched) {
                            Ok(Some(id)) => Some(id),
                            Ok(None) => None,
                            Err(req) => {
                                proof {
                                    lemma_response_for_none_from_unfetched(fetched@, req);
                                }
                                return Err(req);
                            },
                        };
                        proof {
                            lemma_resolution_preserved_by_resolve(
                                pre_cache,
                                self.name_id_cache.items@,
                                fetched@,
                                channel_name@,
                            );
                        }
                        match channel_id {
                            Some(cid) => {
                                proof {
                                    assert(resolution_of(cache0, fetched@, channel_name@) == Some(
                                        Some(cid),
                                    ));
                                }
                                let cn = names.len();
                                let mut c: usize = 0;
                                while c < cn
                                    invariant
                                        c <= cn,
                                        cn == names@.len(),
                                        n == self.config.channels@.len(),
                                        self.config == old(self).config,
                                        pairs.len() <= u64::MAX,
                                        count == pairs.len(),
                                        self.offliners.rows@ == upsert_pairs(rows0, pairs),
                                        names.deep_view() == chatters_list,
                                        resolution_of(cache0, fetched@, chans0[i as int]) == Some(
                                            Some(cid),
                                        ),
                                        0 <= i < chans0.len(),
                                        match stream_answer(fetched@, chans0[i as int]) {
                                            Some(ExtResponse::MaybeStamp(Some(_))) => false,
                                            Some(_) => true,
                                            None => false,
                                        },
                                        chatters_answer(fetched@, chans0[i as int]) matches Some(
                                            cr,
                                        ) && cr matches ExtResponse::MaybeNames(Some(list))
                                            && list.deep_view() == chatters_list,
                                        chatter_list(fetched@, chans0[i as int]) == chatters_list,
                                        stream_not_live(fetched@, chans0[i as int]),
                                        pairs.len() < u64::MAX ==> forall|cj: int|
                                            #![trigger chatters_list[cj]]
                                            (0 <= cj < c && !dis0.contains(
                                                lower_of(chatters_list[cj]),
                                            ) && (resolution_of(
                                                cache0,
                                                fetched@,
                                                chatters_list[cj],
                                            ) matches Some(ou) && ou is Some))
                                                ==> pairs.contains(
                                                (
                                                    cid,
                                                    resolution_of(
                                                        cache0,
                                                        fetched@,
                                                        chatters_list[cj],
                                                    )->0->0,
                                                ),
                                            ),
                                        pairs.len() < u64::MAX ==> forall|ci: int, cj: int|
                                            #![trigger chatter_list(fetched@, chans0[ci])[cj]]
                                            (0 <= ci < i && stream_not_live(fetched@, chans0[ci])
                                                && 0 <= cj < chatter_list(
                                                fetched@,
                                                chans0[ci],
                                            ).len() && !dis0.contains(
                                                lower_of(chatter_list(fetched@, chans0[ci])[cj]),
                                            ) && (resolution_of(cache0, fetched@, chans0[ci])
                                                matches Some(oc) && oc is Some) && (resolution_of(
                                                cache0,
                                                fetched@,
                                                chatter_list(fetched@, chans0[ci])[cj],
                                            ) matches Some(ou) && ou is Some)) ==> pairs.contains(
                                                (
                                                    resolution_of(
                                                        cache0,
                                                        fetched@,
                                                        chans0[ci],
                                                    )->0->0,
                                                    resolution_of(
                                                        cache0,
                                                        fetched@,
                                                        chatter_list(fetched@, chans0[ci])[cj],
                                                    )->0->0,
                                                ),
                                            ),
                                        forall|nm: Seq<char>|
                                            #[trigger] resolution_of(cache0, fetched@, nm)
                                                == resolution_of(
                                                self.name_id_cache.items@,
                                                fetched@,
                                                nm,
                                            ),
                                        forall|p: int|
                                            0 <= p < pairs.len() ==> credit_justified(chans0, dis0,
                                            cache0, fetched@, #[trigger] pairs[p]),
                                    decreases cn - c,
                                {
                                    let low = lowercase(names[c].as_str());
                                    if !crate::cache::contains_string(
                                        &self.config.disregarded_users,
                                        low.as_str(),
                                    ) {
                                        let ghost pre_cache2 = self.name_id_cache.items@;
                                        let outcome = self.resolve_id(names[c].as_str(), fetched);
                                        proof {
                                            lemma_resolution_preserved_by_resolve(
                                                pre_cache2,
                                                self.name_id_cache.items@,
                                                fetched@,
                                                names@[c as int]@,
                                            );
                                        }
                                        match outcome {
                                            Ok(Some(offliner_id)) => {
                                                if count < u64::MAX {
                                                    self.offliners.add_offliner_minute(
                                                        cid,
                                                        offliner_id,
                                                    );
                                                    count = count + 1;
                                                    proof {
                                                        let chatter = names.deep_view()[c as int];
                                                        assert(resolution_of(
                                                            cache0,
                                                            fetched@,
                                                            chatter,
                                                        ) == Some(Some(offliner_id)));
                                                        assert(chatters_list.contains(chatter));
                                                        assert(!dis0.contains(lower_of(chatter)));
                                                        assert(credit_justified(
                                                            chans0,
                                                            dis0,
                                                            cache0,
                                                            fetched@,
                                                            (cid, offliner_id),
                                                        ));
                                                        let grown = pairs.push(
                                                            (cid, offliner_id),
                                                        );
                                                        assert(grown.drop_last() =~= pairs);
                                                        pairs = grown;
                                                    }
                                                }
                                            },
                                            Ok(None) => {},
                                            Err(req) => {
                                                proof {
                                                    lemma_response_for_none_from_unfetched(
                                                        fetched@,
                                                        req,
                                                    );
                                                }
                                                return Err(req);
                                            },
                                        }
                                    }
                                    c = c + 1;
                                }
                            },
                            None => {},
                        }
                    },
                    None => {},
                }
            }
            i = i + 1;
        }
        Ok(count)
    }
}


/// A sub-command token with the command prefix character removed, when
/// it carries one; stages and expansions may be written with or without
/// the prefix.
fn strip_prefix_char(token: &str, prefix: char) -> (r: String)
    requires
        token@.len() > 0,
    ensures
        r@ == token_command_name(token@, prefix),
{
    let len = token.unicode_len();
    if token.get_char(0) == prefix {
        let rest = token.substring_char(1, len);
        proof {
            assert(rest@ =~= token@.skip(1));
        }
        rest.to_owned()
    } else {
        token.to_owned()
    }
}

impl crate::options::ChatStatsMode {
    /// Read the statistics mode out of the arguments: the earliest of
    /// `top`, `out` and `wordcount` that occurs in the joined lowercased
    /// text wins, with the most-active listing as the default. The
    /// target of a `out` listing is resolved through the identity cache
    /// or the runtime.
    pub fn from_cmd(cmd: &CommandSource, cache: &NameIdCache, fetched: &Fetched) -> (r: Result<
        Self,
        ExtRequest,
    >)
        ensures
            ({
                let t = crate::options::joined_lower(cmd.args.deep_view());
                &&& crate::text::has_substr(t, "top"@) ==> (r matches Ok(m)
                    && m matches crate::options::ChatStatsMode::Top(c) && 1 <= c <= 5)
                &&& !crate::text::has_substr(t, "top"@) && crate::text::has_substr(t, "out"@)
                    ==> match r {
                    Result::Ok(m) => m matches crate::options::ChatStatsMode::One(_),
                    Result::Err(q) => q matches ExtRequest::ResolveId(_) && crate::dispatch::response_for(
                        fetched@,
                        q,
                    ) is None,
                }
                &&& !crate::text::has_substr(t, "top"@) && !crate::text::has_substr(t, "out"@)
                    && crate::text::has_substr(t, "wordcount"@) ==> (r matches Ok(m)
                    && m matches crate::options::ChatStatsMode::WordCount(_))
                &&& !crate::text::has_substr(t, "top"@) && !crate::text::has_substr(t, "out"@)
                    && !crate::text::has_substr(t, "wordcount"@) ==> r == Result::<
                    crate::options::ChatStatsMode,
                    ExtRequest,
                >::Ok(crate::options::ChatStatsMode::Top(3))
            }),
    {
        let joined = join_char(&cmd.args, ' ');
        let low = lowercase(joined.as_str());
        let s = low.as_str();
        if crate::text::contains_substr(s, "top") {
            let mut top_count: u64 = 3;
            match cmd.args.get(2) {
                Some(num) => {
                    match parse_u64(num.as_str()) {
                        Some(v) => {
                            if v > 0 && v < 6 {
                                top_count = v;
                            }
                        },
                        None => {},
                    }
                },
                None => {},
            }
            Ok(crate::options::ChatStatsMode::Top(top_count as u8))
        } else if crate::text::contains_substr(s, "out") {
            let mut user_id = cmd.sender.id;
            match cmd.args.get(2) {
                Some(user_name) => {
                    match cache.get(user_name.as_str()) {
                        Some(id) => {
                            user_id = id;
                        },
                        None => {
                            let req = ExtRequest::ResolveId(user_name.clone());
                            match find_response(fetched, &req) {
                                Some(k) => match &fetched[k].1 {
                                    ExtResponse::MaybeId(Some(id)) => {
                                        user_id = *id;
                                    },
                                    _ => {},
                                },
                                None => {
                                    return Err(req);
                                },
                            }
                        },
                    }
                },
                None => {},
            }
            Ok(crate::options::ChatStatsMode::One(user_id))
        } else if crate::text::contains_substr(s, "wordcount") {
            let phrase: String = if cmd.args.len() > 2 {
                let mut rest: Vec<String> = Vec::new();
                let n = cmd.args.len();
                let mut i: usize = 2;
                while i < n
                    invariant
                        2 <= i <= n,
                    decreases n - i,
                {
                    rest.push(cmd.args[i].clone());
                    i = i + 1;
                }
                join_char(&rest, ' ')
            } else {
                String::new()
            };
            Ok(crate::options::ChatStatsMode::WordCount(phrase))
        } else {
            Ok(crate::options::ChatStatsMode::Top(3))
        }
    }
}

/// Parse a 16-bit signed bound as the random-range command accepts it.
fn parse_i16(s: &str) -> (r: Option<i64>)
    ensures
        match r {
            Some(v) => crate::text::parse_int_spec(s@) == Some(v as int) && -0x8000 <= v <= 0x7FFF,
            None => crate::text::parse_int_spec(s@) is None || !(-0x8000
                <= crate::text::parse_int_spec(s@)->0 <= 0x7FFF),
        },
{
    match crate::text::parse_i64(s) {
        Some(v) => {
            if -0x8000 <= v && v <= 0x7FFF {
                Some(v)
            } else {
                None
            }
        },
        None => None,
    }
}

} // verus!

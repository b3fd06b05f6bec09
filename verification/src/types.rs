//! The data carried by one inbound chat event: sender, channel, badges,
//! and the parsed command invocation, together with the library's error
//! type.

use vstd::prelude::*;

use crate::text::{lower_of, lowercase, split_char, str_eq};

verus! {

/// The statuses a chatter can hold in a channel.
#[derive(Clone, Copy, PartialEq, Eq, Structural, Debug)]
pub enum TwitchBadge {
    Broadcaster,
    Admin,
    GlobalMod,
    Mod,
    Staff,
    Subscriber,
    Vip,
    Premium,
    GlitchCon2020,
    Unrecognized,
    GLHFPledge,
    Bits,
    BitsCharity,
    Partner,
}

/// The badge that a badge name of the inbound event denotes.
pub open spec fn badge_of(s: Seq<char>) -> TwitchBadge {
    if s == "admin"@ {
        TwitchBadge::Admin
    } else if s == "broadcaster"@ {
        TwitchBadge::Broadcaster
    } else if s == "global_mod"@ {
        TwitchBadge::GlobalMod
    } else if s == "moderator"@ {
        TwitchBadge::Mod
    } else if s == "staff"@ {
        TwitchBadge::Staff
    } else if s == "subscriber"@ {
        TwitchBadge::Subscriber
    } else if s == "vip"@ {
        TwitchBadge::Vip
    } else if s == "premium"@ {
        TwitchBadge::Premium
    } else if s == "glitchcon2020"@ {
        TwitchBadge::GlitchCon2020
    } else if s == "glhf-pledge"@ {
        TwitchBadge::GLHFPledge
    } else if s == "bits"@ {
        TwitchBadge::Bits
    } else if s == "bits-charity"@ {
        TwitchBadge::BitsCharity
    } else if s == "partner"@ {
        TwitchBadge::Partner
    } else {
        TwitchBadge::Unrecognized
    }
}

/// Map a badge name to the badge it denotes.
pub fn badge_from_name(s: &str) -> (r: TwitchBadge)
    ensures
        r == badge_of(s@),
{
    if str_eq(s, "admin") {
        TwitchBadge::Admin
    } else if str_eq(s, "broadcaster") {
        TwitchBadge::Broadcaster
    } else if str_eq(s, "global_mod") {
        TwitchBadge::GlobalMod
    } else if str_eq(s, "moderator") {
        TwitchBadge::Mod
    } else if str_eq(s, "staff") {
        TwitchBadge::Staff
    } else if str_eq(s, "subscriber") {
        TwitchBadge::Subscriber
    } else if str_eq(s, "vip") {
        TwitchBadge::Vip
    } else if str_eq(s, "premium") {
        TwitchBadge::Premium
    } else if str_eq(s, "glitchcon2020") {
        TwitchBadge::GlitchCon2020
    } else if str_eq(s, "glhf-pledge") {
        TwitchBadge::GLHFPledge
    } else if str_eq(s, "bits") {
        TwitchBadge::Bits
    } else if str_eq(s, "bits-charity") {
        TwitchBadge::BitsCharity
    } else if str_eq(s, "partner") {
        TwitchBadge::Partner
    } else {
        TwitchBadge::Unrecognized
    }
}

/// The sender of a message.
pub struct Sender {
    pub id: i32,
    pub name: String,
    pub statuses: Vec<TwitchBadge>,
}

/// The sender holds at least one of the moderator, VIP or broadcaster
/// badges.
pub open spec fn is_mvb_spec(statuses: Seq<TwitchBadge>) -> bool {
    statuses.contains(TwitchBadge::Vip) || statuses.contains(TwitchBadge::Mod)
        || statuses.contains(TwitchBadge::Broadcaster)
}

impl Sender {
    /// Whether the sender is mod, VIP or broadcaster.
    pub fn is_mvb(&self) -> (r: bool)
        ensures
            r == is_mvb_spec(self.statuses@),
    {
        let n = self.statuses.len();
        let mut i: usize = 0;
        while i < n
            invariant
                i <= n,
                forall|j: int|
                    0 <= j < i ==> self.statuses@[j] != TwitchBadge::Vip && self.statuses@[j]
                        != TwitchBadge::Mod && self.statuses@[j] != TwitchBadge::Broadcaster,
            decreases n - i,
        {
            let b = self.statuses[i];
            if b == TwitchBadge::Vip || b == TwitchBadge::Mod || b == TwitchBadge::Broadcaster {
                return true;
            }
            i = i + 1;
        }
        false
    }

    /// Copy of the sender.
    pub fn duplicate(&self) -> (r: Sender)
        ensures
            r.id == self.id,
            r.name == self.name,
            r.statuses@ == self.statuses@,
    {
        let mut statuses: Vec<TwitchBadge> = Vec::new();
        let n = self.statuses.len();
        let mut i: usize = 0;
        while i < n
            invariant
                i <= n,
                statuses@ == self.statuses@.subrange(0, i as int),
            decreases n - i,
        {
            statuses.push(self.statuses[i]);
            proof {
                assert(statuses@ =~= self.statuses@.subrange(0, i + 1));
            }
            i = i + 1;
        }
        proof {
            assert(statuses@ =~= self.statuses@);
        }
        Sender { id: self.id, name: self.name.clone(), statuses }
    }
}

/// The channel a message is posted in.
pub struct Channel {
    pub id: i32,
    pub name: String,
}

impl Channel {
    /// Copy of the channel.
    pub fn duplicate(&self) -> (r: Channel)
        ensures
            r == *self,
    {
        Channel { id: self.id, name: self.name.clone() }
    }
}

/// One inbound chat event, reduced to the values the library works
/// with: who spoke, where, what, and when (seconds since the epoch).
pub struct Privmsg {
    pub sender_id: i32,
    pub sender_name: String,
    pub badges: Vec<String>,
    pub channel_id: i32,
    pub channel_name: String,
    pub message_text: String,
    pub timestamp: i64,
    /// The emote codes the messaging service marked in this message.
    pub emote_codes: Vec<String>,
}

/// A parsed command invocation.
pub struct CommandSource {
    pub cmd: String,
    pub args: Vec<String>,
    pub sender: Sender,
    pub channel: Channel,
    pub timestamp: i64,
    pub is_pipe: bool,
}

impl CommandSource {
    /// Copy of the invocation.
    pub fn duplicate(&self) -> (r: CommandSource)
        ensures
            r.cmd == self.cmd,
            r.args@ == self.args@,
            r.sender.id == self.sender.id,
            r.sender.name == self.sender.name,
            r.sender.statuses@ == self.sender.statuses@,
            r.channel == self.channel,
            r.timestamp == self.timestamp,
            r.is_pipe == self.is_pipe,
    {
        let mut args: Vec<String> = Vec::new();
        let n = self.args.len();
        let mut i: usize = 0;
        while i < n
            invariant
                i <= n,
                args@ == self.args@.subrange(0, i as int),
            decreases n - i,
        {
            args.push(self.args[i].clone());
            proof {
                assert(args@ =~= self.args@.subrange(0, i + 1));
            }
            i = i + 1;
        }
        proof {
            assert(args@ =~= self.args@);
        }
        CommandSource {
            cmd: self.cmd.clone(),
            args,
            sender: self.sender.duplicate(),
            channel: self.channel.duplicate(),
            timestamp: self.timestamp,
            is_pipe: self.is_pipe,
        }
    }

    /// Parse an invocation from an inbound event whose text begins with
    /// the command prefix character: the first token, lowercased and
    /// stripped of the prefix, names the command; the remaining tokens
    /// are the arguments; the badges are mapped to their meanings.
    pub fn from_privmsg(privmsg: &Privmsg) -> (r: CommandSource)
        requires
            privmsg.message_text@.len() > 0,
        ensures
            ({
                let parts = crate::text::split_spec(privmsg.message_text@, ' ');
                let low = lower_of(parts[0]);
                &&& r.cmd@ == if low.len() > 0 {
                    low.skip(1)
                } else {
                    low
                }
                &&& r.args.deep_view() == parts.drop_first()
                &&& r.sender.id == privmsg.sender_id
                &&& r.sender.name@ == privmsg.sender_name@
                &&& r.sender.statuses@.len() == privmsg.badges@.len()
                &&& forall|j: int|
                    0 <= j < privmsg.badges@.len() ==> r.sender.statuses@[j] == badge_of(
                        privmsg.badges.deep_view()[j],
                    )
                &&& r.channel.id == privmsg.channel_id
                &&& r.channel.name@ == privmsg.channel_name@
                &&& r.timestamp == privmsg.timestamp
                &&& r.is_pipe == false
            }),
    {
        let parts = split_char(privmsg.message_text.as_str(), ' ');
        let low = lowercase(parts[0].as_str());
        let lowlen = low.as_str().unicode_len();
        let cmd = if lowlen > 0 {
            low.as_str().substring_char(1, lowlen).to_owned()
        } else {
            low
        };
        let mut args: Vec<String> = Vec::new();
        let n = parts.len();
        let mut i: usize = 1;
        while i < n
            invariant
                1 <= i <= n,
                args.deep_view() == parts.deep_view().subrange(1, i as int),
            decreases n - i,
        {
            args.push(parts[i].clone());
            proof {
                assert(args.deep_view() =~= parts.deep_view().subrange(1, i + 1));
            }
            i = i + 1;
        }
        proof {
            assert(args.deep_view() =~= parts.deep_view().drop_first());
        }
        let mut statuses: Vec<TwitchBadge> = Vec::new();
        let bn = privmsg.badges.len();
        let mut i: usize = 0;
        while i < bn
            invariant
                i <= bn,
                statuses@.len() == i,
                forall|j: int|
                    0 <= j < i ==> statuses@[j] == badge_of(privmsg.badges.deep_view()[j]),
            decreases bn - i,
        {
            statuses.push(badge_from_name(privmsg.badges[i].as_str()));
            i = i + 1;
        }
        CommandSource {
            cmd,
            args,
            sender: Sender {
                id: privmsg.sender_id,
                name: privmsg.sender_name.clone(),
                statuses,
            },
            channel: Channel { id: privmsg.channel_id, name: privmsg.channel_name.clone() },
            timestamp: privmsg.timestamp,
            is_pipe: false,
        }
    }
}

/// The library's error taxonomy.
#[derive(Debug)]
pub enum MyError {
    OutOfBounds,
    NotFound,
    ThreadError,
    InsufficientPrivileges,
    MissingHardParameter(String),
    BadHardArgumentType(String, String),
    MissingPositionalArgument(u8, String),
    Internal,
    Unknown,
}

/// The user-facing message of each error.
pub open spec fn error_message_spec(e: &MyError) -> Seq<char> {
    match e {
        MyError::OutOfBounds => "index out of bounds"@,
        MyError::NotFound => "item not found"@,
        MyError::ThreadError => "Thread error"@,
        MyError::InsufficientPrivileges =>
            "Insufficient privileges | requires to be mod/vip/broadcaster"@,
        MyError::MissingHardParameter(p) =>
            "\u{274C} missing a parameter | add "@ + p@ + "=\"something\" into the command"@,
        MyError::BadHardArgumentType(p, t) =>
            "\u{274C} parameter `"@ + p@ + "` has bad type, expected a "@ + t@,
        MyError::MissingPositionalArgument(pos, t) =>
            "\u{274C} missing positional argument | position "@ + crate::text::dec_rep(
                *pos as nat,
            ) + ", argument type: "@ + t@,
        MyError::Internal => "\u{274C} an internal error has occured, sorry PoroSad"@,
        MyError::Unknown => "\u{274C} an unknown error has occured, sorry PoroSad"@,
    }
}

impl MyError {
    /// Render the error as the text shown to the user.
    pub fn message(&self) -> (r: String)
        ensures
            r@ == error_message_spec(self),
    {
        match self {
            MyError::OutOfBounds => "index out of bounds".to_owned(),
            MyError::NotFound => "item not found".to_owned(),
            MyError::ThreadError => "Thread error".to_owned(),
            MyError::InsufficientPrivileges =>
                "Insufficient privileges | requires to be mod/vip/broadcaster".to_owned(),
            MyError::MissingHardParameter(p) => {
                let mut s = "\u{274C} missing a parameter | add ".to_owned();
                s.append(p.as_str());
                s.append("=\"something\" into the command");
                s
            },
            MyError::BadHardArgumentType(p, t) => {
                let mut s = "\u{274C} parameter `".to_owned();
                s.append(p.as_str());
                s.append("` has bad type, expected a ");
                s.append(t.as_str());
                s
            },
            MyError::MissingPositionalArgument(pos, t) => {
                let mut s = "\u{274C} missing positional argument | position ".to_owned();
                let num = crate::text::u64_to_string(*pos as u64);
                s.append(num.as_str());
                s.append(", argument type: ");
                s.append(t.as_str());
                s
            },
            MyError::Internal => "\u{274C} an internal error has occured, sorry PoroSad".to_owned(),
            MyError::Unknown => "\u{274C} an unknown error has occured, sorry PoroSad".to_owned(),
        }
    }
}

/// How a hook's capture string is matched against a message.
#[derive(Clone, Copy, PartialEq, Eq, Structural, Debug)]
pub enum HookMatchType {
    Exact,
    Substring,
}

/// The match kind a name denotes, compared ignoring case.
pub open spec fn hook_type_of(s: Seq<char>) -> Option<HookMatchType> {
    if lower_of(s) == "exact"@ {
        Some(HookMatchType::Exact)
    } else if lower_of(s) == "substr"@ {
        Some(HookMatchType::Substring)
    } else {
        None
    }
}

impl HookMatchType {
    /// Parse a hook match kind from its name, ignoring case.
    pub fn from_str(s: &str) -> (r: Result<Self, MyError>)
        ensures
            match hook_type_of(s@) {
                Some(h) => r == Result::<Self, MyError>::Ok(h),
                None => r matches Result::Err(e) && e is NotFound,
            },
    {
        proof {
            reveal_strlit("exact");
            reveal_strlit("substr");
            assert("exact"@.len() == 5);
            assert("substr"@.len() == 6);
        }
        let low = lowercase(s);
        if str_eq(low.as_str(), "exact") {
            Ok(HookMatchType::Exact)
        } else if str_eq(low.as_str(), "substr") {
            Ok(HookMatchType::Substring)
        } else {
            Err(MyError::NotFound)
        }
    }

    /// The stored name of the hook match kind.
    pub fn to_string(&self) -> (r: String)
        ensures
            *self == HookMatchType::Exact ==> r@ == "exact"@,
            *self == HookMatchType::Substring ==> r@ == "substr"@,
    {
        match self {
            HookMatchType::Exact => "exact".to_owned(),
            HookMatchType::Substring => "substr".to_owned(),
        }
    }
}

/// A per-channel trigger: when a message matches the capture string,
/// the content is spoken.
pub struct MessageHook {
    pub capture_string: String,
    pub content: String,
    pub h_type: HookMatchType,
}

impl MessageHook {
    /// Copy of the hook.
    pub fn duplicate(&self) -> (r: MessageHook)
        ensures
            r == *self,
    {
        MessageHook {
            capture_string: self.capture_string.clone(),
            content: self.content.clone(),
            h_type: self.h_type,
        }
    }
}

/// A trivia question with its answers.
pub struct TriviaGameInfo {
    pub question: String,
    pub correct_answer: String,
    pub wrong_answers: Vec<String>,
}

/// The per-channel mutable state: registered hooks and the at most one
/// trivia game in progress.
pub struct ChannelSpecifics {
    pub hooks: Vec<MessageHook>,
    pub ongoing_trivia_game: Option<TriviaGameInfo>,
}

/// Why inferring the target user and channel of a command failed.
#[derive(Debug)]
pub enum UserChannelParseError {
    UserNotFound(String),
    ChannelNotFound(String),
    Unknown,
}

/// The user-facing message of each target-inference error.
pub open spec fn user_channel_error_spec(e: &UserChannelParseError) -> Seq<char> {
    match e {
        UserChannelParseError::UserNotFound(n) => "\u{1F4A2} User `"@ + n@ + "` was not found"@,
        UserChannelParseError::ChannelNotFound(n) =>
            "\u{1F4A2} Channel `"@ + n@ + "` was not found"@,
        UserChannelParseError::Unknown => "\u{1F4A2} Unknown error has occured"@,
    }
}

impl UserChannelParseError {
    /// Render the error as the text shown to the user.
    pub fn message(&self) -> (r: String)
        ensures
            r@ == user_channel_error_spec(self),
    {
        match self {
            UserChannelParseError::UserNotFound(n) => {
                let mut s = "\u{1F4A2} User `".to_owned();
                s.append(n.as_str());
                s.append("` was not found");
                s
            },
            UserChannelParseError::ChannelNotFound(n) => {
                let mut s = "\u{1F4A2} Channel `".to_owned();
                s.append(n.as_str());
                s.append("` was not found");
                s
            },
            UserChannelParseError::Unknown => "\u{1F4A2} Unknown error has occured".to_owned(),
        }
    }
}

} // verus!

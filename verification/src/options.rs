//! Option values parsed out of command arguments: reddit post
//! selection, trivia question filters, holy book names, and chat
//! statistic periods.

use vstd::prelude::*;

use crate::text::{contains_substr, has_substr, join_char, lower_of, lowercase, str_eq};
use crate::types::MyError;

verus! {

/// One of the argument tokens equals the given word.
pub open spec fn has_token(args: Seq<Seq<char>>, word: Seq<char>) -> bool {
    args.contains(word)
}

/// Test whether one of the argument tokens equals the given word.
fn contains_token(args: &[String], word: &str) -> (r: bool)
    ensures
        r == has_token(args.deep_view(), word@),
{
    let n = args.len();
    let mut i: usize = 0;
    while i < n
        invariant
            i <= n,
            forall|j: int| 0 <= j < i ==> args.deep_view()[j] != word@,
        decreases n - i,
    {
        if str_eq(args[i].as_str(), word) {
            assert(args.deep_view()[i as int] == word@);
            return true;
        }
        i = i + 1;
    }
    false
}

/// The arguments joined with spaces and lowercased: the text the
/// substring-matched option parsers search in.
pub open spec fn joined_lower(args: Seq<Seq<char>>) -> Seq<char> {
    lower_of(crate::text::join_with(args, ' '))
}

/// Join the arguments with spaces and lowercase the result.
fn joined_lower_exec(args: &Vec<String>) -> (r: String)
    ensures
        r@ == joined_lower(args.deep_view()),
{
    let joined = join_char(args, ' ');
    lowercase(joined.as_str())
}

/// How far back a reddit post search reaches.
#[derive(Clone, Copy, PartialEq, Eq, Structural, Debug)]
pub enum RedditPostRelevancy {
    Hour,
    Day,
    Week,
    Month,
    Year,
    All,
}

/// The relevancy the argument tokens select: the latest entry of the
/// option list that occurs among the tokens wins; the default is a
/// week.
pub open spec fn relevancy_of(args: Seq<Seq<char>>) -> RedditPostRelevancy {
    if has_token(args, "alltime"@) || has_token(args, "all"@) {
        RedditPostRelevancy::All
    } else if has_token(args, "year"@) {
        RedditPostRelevancy::Year
    } else if has_token(args, "month"@) {
        RedditPostRelevancy::Month
    } else if has_token(args, "week"@) {
        RedditPostRelevancy::Week
    } else if has_token(args, "day"@) {
        RedditPostRelevancy::Day
    } else if has_token(args, "hour"@) {
        RedditPostRelevancy::Hour
    } else {
        RedditPostRelevancy::Week
    }
}

impl RedditPostRelevancy {
    /// Read the relevancy out of the argument tokens.
    pub fn new_from_vec(v: &[String]) -> (r: Self)
        ensures
            r == relevancy_of(v.deep_view()),
    {
        if contains_token(v, "alltime") || contains_token(v, "all") {
            RedditPostRelevancy::All
        } else if contains_token(v, "year") {
            RedditPostRelevancy::Year
        } else if contains_token(v, "month") {
            RedditPostRelevancy::Month
        } else if contains_token(v, "week") {
            RedditPostRelevancy::Week
        } else if contains_token(v, "day") {
            RedditPostRelevancy::Day
        } else if contains_token(v, "hour") {
            RedditPostRelevancy::Hour
        } else {
            RedditPostRelevancy::Week
        }
    }

    /// The name the reddit query string uses for this relevancy.
    pub fn as_str(&self) -> (r: &'static str)
        ensures
            r@ == relevancy_name(*self),
    {
        match self {
            RedditPostRelevancy::Hour => "hour",
            RedditPostRelevancy::Day => "day",
            RedditPostRelevancy::Week => "week",
            RedditPostRelevancy::Month => "month",
            RedditPostRelevancy::Year => "year",
            RedditPostRelevancy::All => "all",
        }
    }
}

/// The query-string name of each relevancy.
pub open spec fn relevancy_name(r: RedditPostRelevancy) -> Seq<char> {
    match r {
        RedditPostRelevancy::Hour => "hour"@,
        RedditPostRelevancy::Day => "day"@,
        RedditPostRelevancy::Week => "week"@,
        RedditPostRelevancy::Month => "month"@,
        RedditPostRelevancy::Year => "year"@,
        RedditPostRelevancy::All => "all"@,
    }
}

/// How a post is chosen from the fetched list.
#[derive(Clone, Copy, PartialEq, Eq, Structural, Debug)]
pub enum RedditPostType {
    MostUpvotes,
    Random,
}

/// The post choice the argument tokens select; random by default.
pub open spec fn post_type_of(args: Seq<Seq<char>>) -> RedditPostType {
    if has_token(args, "random"@) {
        RedditPostType::Random
    } else if has_token(args, "upvotes"@) {
        RedditPostType::MostUpvotes
    } else {
        RedditPostType::Random
    }
}

impl RedditPostType {
    /// Read the post choice out of the argument tokens.
    pub fn new_from_vec(v: &[String]) -> (r: Self)
        ensures
            r == post_type_of(v.deep_view()),
    {
        if contains_token(v, "random") {
            RedditPostType::Random
        } else if contains_token(v, "upvotes") {
            RedditPostType::MostUpvotes
        } else {
            RedditPostType::Random
        }
    }
}

/// Extra filters on the fetched posts.
#[derive(Clone, Copy, PartialEq, Eq, Structural, Debug)]
pub enum AdditionalRedditParameter {
    HasMedia,
}

/// The tokens ask for posts with media.
pub open spec fn wants_media(args: Seq<Seq<char>>) -> bool {
    has_token(args, "media"@) || has_token(args, "--has-media"@)
}

impl AdditionalRedditParameter {
    /// Read the extra filters out of the argument tokens.
    pub fn new_from_vec(v: &[String]) -> (r: Vec<Self>)
        ensures
            wants_media(v.deep_view()) ==> r@ == seq![AdditionalRedditParameter::HasMedia],
            !wants_media(v.deep_view()) ==> r@ == Seq::<AdditionalRedditParameter>::empty(),
    {
        let mut out: Vec<AdditionalRedditParameter> = Vec::new();
        if contains_token(v, "media") || contains_token(v, "--has-media") {
            out.push(AdditionalRedditParameter::HasMedia);
            proof {
                assert(out@ =~= seq![AdditionalRedditParameter::HasMedia]);
            }
        } else {
            proof {
                assert(out@ =~= Seq::<AdditionalRedditParameter>::empty());
            }
        }
        out
    }
}

/// The books a random verse can come from.
#[derive(Clone, Copy, PartialEq, Eq, Structural, Debug)]
pub enum HolyBook {
    Quran,
    Bible,
    Tanakh,
}

impl HolyBook {
    /// Parse a book name, ignoring case.
    pub fn from_str(s: &str) -> (r: Result<Self, MyError>)
        ensures
            lower_of(s@) == "quran"@ ==> r == Result::<Self, MyError>::Ok(HolyBook::Quran),
            lower_of(s@) == "bible"@ ==> r == Result::<Self, MyError>::Ok(HolyBook::Bible),
            lower_of(s@) == "tanakh"@ ==> r == Result::<Self, MyError>::Ok(HolyBook::Tanakh),
            lower_of(s@) != "quran"@ && lower_of(s@) != "bible"@ && lower_of(s@) != "tanakh"@
                ==> (r matches Result::Err(e) && e is NotFound),
    {
        proof {
            reveal_strlit("quran");
            reveal_strlit("bible");
            reveal_strlit("tanakh");
            assert("quran"@.len() == 5);
            assert("bible"@.len() == 5);
            assert("tanakh"@.len() == 6);
            assert("quran"@[0] == 'q' && "bible"@[0] == 'b');
        }
        let low = lowercase(s);
        if str_eq(low.as_str(), "quran") {
            Ok(HolyBook::Quran)
        } else if str_eq(low.as_str(), "bible") {
            Ok(HolyBook::Bible)
        } else if str_eq(low.as_str(), "tanakh") {
            Ok(HolyBook::Tanakh)
        } else {
            Err(MyError::NotFound)
        }
    }
}

/// The question categories the trivia service offers.
#[derive(Clone, Copy, PartialEq, Eq, Structural, Debug)]
pub enum TriviaCategory {
    Any,
    GeneralKnowledge,
    EntertainmentBoardGames,
    EntertainmentBooks,
    EntertainmentCartoonAndAnimations,
    EntertainmentComics,
    EntertainmentFilm,
    EntertainmentJapaneseAnimeAndSaga,
    EntertainmentMusic,
    EntertainmentMusicalsAndTheatres,
    EntertainmentTelevision,
    EntertainmentVideoGames,
    ScienceAndNature,
    ScienceComputers,
    ScienceGadgets,
    ScienceMathematics,
    Mythology,
    Sports,
    Geography,
    History,
    Politics,
    Art,
    Celebrities,
    Animals,
    Vehicles,
}

/// The category the arguments select: the earliest entry of the option
/// list that occurs in the joined, lowercased argument text wins.
pub open spec fn category_of(args: Seq<Seq<char>>) -> TriviaCategory {
    let t = joined_lower(args);
    if has_substr(t, "any category"@) {
        TriviaCategory::Any
    } else if has_substr(t, "general knowledge"@) {
        TriviaCategory::GeneralKnowledge
    } else if has_substr(t, "board games"@) {
        TriviaCategory::EntertainmentBoardGames
    } else if has_substr(t, "books"@) {
        TriviaCategory::EntertainmentBooks
    } else if has_substr(t, "cartoons"@) {
        TriviaCategory::EntertainmentCartoonAndAnimations
    } else if has_substr(t, "comics"@) {
        TriviaCategory::EntertainmentComics
    } else if has_substr(t, "film"@) {
        TriviaCategory::EntertainmentFilm
    } else if has_substr(t, "anime"@) {
        TriviaCategory::EntertainmentJapaneseAnimeAndSaga
    } else if has_substr(t, "music"@) {
        TriviaCategory::EntertainmentMusic
    } else if has_substr(t, "musical"@) {
        TriviaCategory::EntertainmentMusicalsAndTheatres
    } else if has_substr(t, "musicals"@) {
        TriviaCategory::EntertainmentMusicalsAndTheatres
    } else if has_substr(t, "theatre"@) {
        TriviaCategory::EntertainmentMusicalsAndTheatres
    } else if has_substr(t, "television"@) {
        TriviaCategory::EntertainmentTelevision
    } else if has_substr(t, "games"@) {
        TriviaCategory::EntertainmentVideoGames
    } else if has_substr(t, "video games"@) {
        TriviaCategory::EntertainmentVideoGames
    } else if has_substr(t, "science"@) {
        TriviaCategory::ScienceAndNature
    } else if has_substr(t, "cs"@) {
        TriviaCategory::ScienceComputers
    } else if has_substr(t, "computer science"@) {
        TriviaCategory::ScienceComputers
    } else if has_substr(t, "gadgets"@) {
        TriviaCategory::ScienceGadgets
    } else if has_substr(t, "math"@) {
        TriviaCategory::ScienceMathematics
    } else if has_substr(t, "mathematics"@) {
        TriviaCategory::ScienceMathematics
    } else if has_substr(t, "mythology"@) {
        TriviaCategory::Mythology
    } else if has_substr(t, "sport"@) {
        TriviaCategory::Sports
    } else if has_substr(t, "sports"@) {
        TriviaCategory::Sports
    } else if has_substr(t, "geography"@) {
        TriviaCategory::Geography
    } else if has_substr(t, "geo"@) {
        TriviaCategory::Geography
    } else if has_substr(t, "history"@) {
        TriviaCategory::History
    } else if has_substr(t, "politics"@) {
        TriviaCategory::Politics
    } else if has_substr(t, "art"@) {
        TriviaCategory::Art
    } else if has_substr(t, "celebrities"@) {
        TriviaCategory::Celebrities
    } else if has_substr(t, "animals"@) {
        TriviaCategory::Animals
    } else if has_substr(t, "vehicles"@) {
        TriviaCategory::Vehicles
    } else {
        TriviaCategory::Any
    }
}

impl TriviaCategory {
    /// Read the category out of the argument tokens.
    pub fn from_vec(v: &Vec<String>) -> (r: Self)
        ensures
            r == category_of(v.deep_view()),
    {
        let t = joined_lower_exec(v);
        let s = t.as_str();
        if contains_substr(s, "any category") {
            TriviaCategory::Any
        } else if contains_substr(s, "general knowledge") {
            TriviaCategory::GeneralKnowledge
        } else if contains_substr(s, "board games") {
            TriviaCategory::EntertainmentBoardGames
        } else if contains_substr(s, "books") {
            TriviaCategory::EntertainmentBooks
        } else if contains_substr(s, "cartoons") {
            TriviaCategory::EntertainmentCartoonAndAnimations
        } else if contains_substr(s, "comics") {
            TriviaCategory::EntertainmentComics
        } else if contains_substr(s, "film") {
            TriviaCategory::EntertainmentFilm
        } else if contains_substr(s, "anime") {
            TriviaCategory::EntertainmentJapaneseAnimeAndSaga
        } else if contains_substr(s, "music") {
            TriviaCategory::EntertainmentMusic
        } else if contains_substr(s, "musical") {
            TriviaCategory::EntertainmentMusicalsAndTheatres
        } else if contains_substr(s, "musicals") {
            TriviaCategory::EntertainmentMusicalsAndTheatres
        } else if contains_substr(s, "theatre") {
            TriviaCategory::EntertainmentMusicalsAndTheatres
        } else if contains_substr(s, "television") {
            TriviaCategory::EntertainmentTelevision
        } else if contains_substr(s, "games") {
            TriviaCategory::EntertainmentVideoGames
        } else if contains_substr(s, "video games") {
            TriviaCategory::EntertainmentVideoGames
        } else if contains_substr(s, "science") {
            TriviaCategory::ScienceAndNature
        } else if contains_substr(s, "cs") {
            TriviaCategory::ScienceComputers
        } else if contains_substr(s, "computer science") {
            TriviaCategory::ScienceComputers
        } else if contains_substr(s, "gadgets") {
            TriviaCategory::ScienceGadgets
        } else if contains_substr(s, "math") {
            TriviaCategory::ScienceMathematics
        } else if contains_substr(s, "mathematics") {
            TriviaCategory::ScienceMathematics
        } else if contains_substr(s, "mythology") {
            TriviaCategory::Mythology
        } else if contains_substr(s, "sport") {
            TriviaCategory::Sports
        } else if contains_substr(s, "sports") {
            TriviaCategory::Sports
        } else if contains_substr(s, "geography") {
            TriviaCategory::Geography
        } else if contains_substr(s, "geo") {
            TriviaCategory::Geography
        } else if contains_substr(s, "history") {
            TriviaCategory::History
        } else if contains_substr(s, "politics") {
            TriviaCategory::Politics
        } else if contains_substr(s, "art") {
            TriviaCategory::Art
        } else if contains_substr(s, "celebrities") {
            TriviaCategory::Celebrities
        } else if contains_substr(s, "animals") {
            TriviaCategory::Animals
        } else if contains_substr(s, "vehicles") {
            TriviaCategory::Vehicles
        } else {
            TriviaCategory::Any
        }
    }

    /// The category number the trivia service expects in its query
    /// string.
    pub fn to_opentdb_index(&self) -> (r: &'static str)
        ensures
            r@ == opentdb_category_index(*self),
    {
        match self {
            TriviaCategory::Any => "any",
            TriviaCategory::GeneralKnowledge => "9",
            TriviaCategory::EntertainmentBooks => "10",
            TriviaCategory::EntertainmentFilm => "11",
            TriviaCategory::EntertainmentMusic => "12",
            TriviaCategory::EntertainmentMusicalsAndTheatres => "13",
            TriviaCategory::EntertainmentTelevision => "14",
            TriviaCategory::EntertainmentVideoGames => "15",
            TriviaCategory::EntertainmentBoardGames => "16",
            TriviaCategory::ScienceAndNature => "17",
            TriviaCategory::ScienceComputers => "18",
            TriviaCategory::ScienceMathematics => "19",
            TriviaCategory::Mythology => "20",
            TriviaCategory::Sports => "21",
            TriviaCategory::Geography => "22",
            TriviaCategory::History => "23",
            TriviaCategory::Politics => "24",
            TriviaCategory::Art => "25",
            TriviaCategory::Celebrities => "26",
            TriviaCategory::Animals => "27",
            TriviaCategory::Vehicles => "28",
            TriviaCategory::EntertainmentComics => "29",
            TriviaCategory::ScienceGadgets => "30",
            TriviaCategory::EntertainmentJapaneseAnimeAndSaga => "31",
            TriviaCategory::EntertainmentCartoonAndAnimations => "32",
        }
    }
}

/// The category number of each trivia category.
pub open spec fn opentdb_category_index(c: TriviaCategory) -> Seq<char> {
    match c {
        TriviaCategory::Any => "any"@,
        TriviaCategory::GeneralKnowledge => "9"@,
        TriviaCategory::EntertainmentBooks => "10"@,
        TriviaCategory::EntertainmentFilm => "11"@,
        TriviaCategory::EntertainmentMusic => "12"@,
        TriviaCategory::EntertainmentMusicalsAndTheatres => "13"@,
        TriviaCategory::EntertainmentTelevision => "14"@,
        TriviaCategory::EntertainmentVideoGames => "15"@,
        TriviaCategory::EntertainmentBoardGames => "16"@,
        TriviaCategory::ScienceAndNature => "17"@,
        TriviaCategory::ScienceComputers => "18"@,
        TriviaCategory::ScienceMathematics => "19"@,
        TriviaCategory::Mythology => "20"@,
        TriviaCategory::Sports => "21"@,
        TriviaCategory::Geography => "22"@,
        TriviaCategory::History => "23"@,
        TriviaCategory::Politics => "24"@,
        TriviaCategory::Art => "25"@,
        TriviaCategory::Celebrities => "26"@,
        TriviaCategory::Animals => "27"@,
        TriviaCategory::Vehicles => "28"@,
        TriviaCategory::EntertainmentComics => "29"@,
        TriviaCategory::ScienceGadgets => "30"@,
        TriviaCategory::EntertainmentJapaneseAnimeAndSaga => "31"@,
        TriviaCategory::EntertainmentCartoonAndAnimations => "32"@,
    }
}

/// The difficulties the trivia service offers.
#[derive(Clone, Copy, PartialEq, Eq, Structural, Debug)]
pub enum TriviaDifficulty {
    Any,
    Easy,
    Medium,
    Hard,
}

/// The difficulty the arguments select, by the earliest matching
/// option.
pub open spec fn difficulty_of(args: Seq<Seq<char>>) -> TriviaDifficulty {
    let t = joined_lower(args);
    if has_substr(t, "any difficulty"@) {
        TriviaDifficulty::Any
    } else if has_substr(t, "easy"@) {
        TriviaDifficulty::Easy
    } else if has_substr(t, "medium"@) {
        TriviaDifficulty::Medium
    } else if has_substr(t, "hard"@) {
        TriviaDifficulty::Hard
    } else {
        TriviaDifficulty::Any
    }
}

impl TriviaDifficulty {
    /// Read the difficulty out of the argument tokens.
    pub fn from_vec(v: &Vec<String>) -> (r: Self)
        ensures
            r == difficulty_of(v.deep_view()),
    {
        let t = joined_lower_exec(v);
        let s = t.as_str();
        if contains_substr(s, "any difficulty") {
            TriviaDifficulty::Any
        } else if contains_substr(s, "easy") {
            TriviaDifficulty::Easy
        } else if contains_substr(s, "medium") {
            TriviaDifficulty::Medium
        } else if contains_substr(s, "hard") {
            TriviaDifficulty::Hard
        } else {
            TriviaDifficulty::Any
        }
    }

    /// The difficulty name the trivia service expects.
    pub fn to_opentdb_index(&self) -> (r: &'static str)
        ensures
            r@ == opentdb_difficulty_index(*self),
    {
        match self {
            TriviaDifficulty::Any => "any",
            TriviaDifficulty::Easy => "easy",
            TriviaDifficulty::Medium => "medium",
            TriviaDifficulty::Hard => "hard",
        }
    }
}

/// The difficulty name of each trivia difficulty.
pub open spec fn opentdb_difficulty_index(d: TriviaDifficulty) -> Seq<char> {
    match d {
        TriviaDifficulty::Any => "any"@,
        TriviaDifficulty::Easy => "easy"@,
        TriviaDifficulty::Medium => "medium"@,
        TriviaDifficulty::Hard => "hard"@,
    }
}

/// The question shapes the trivia service offers.
#[derive(Clone, Copy, PartialEq, Eq, Structural, Debug)]
pub enum TriviaType {
    Any,
    Multiple,
    TrueFalse,
}

/// The question shape the arguments select, by the earliest matching
/// option; multiple choice by default.
pub open spec fn trivia_type_of(args: Seq<Seq<char>>) -> TriviaType {
    let t = joined_lower(args);
    if has_substr(t, "any type"@) {
        TriviaType::Any
    } else if has_substr(t, "multiple"@) {
        TriviaType::Multiple
    } else if has_substr(t, "true false"@) {
        TriviaType::TrueFalse
    } else {
        TriviaType::Multiple
    }
}

impl TriviaType {
    /// Read the question shape out of the argument tokens.
    pub fn from_vec(v: &Vec<String>) -> (r: Self)
        ensures
            r == trivia_type_of(v.deep_view()),
    {
        let t = joined_lower_exec(v);
        let s = t.as_str();
        if contains_substr(s, "any type") {
            TriviaType::Any
        } else if contains_substr(s, "multiple") {
            TriviaType::Multiple
        } else if contains_substr(s, "true false") {
            TriviaType::TrueFalse
        } else {
            TriviaType::Multiple
        }
    }

    /// The shape name the trivia service expects.
    pub fn to_opentdb_index(&self) -> (r: &'static str)
        ensures
            r@ == opentdb_type_index(*self),
    {
        match self {
            TriviaType::Any => "any",
            TriviaType::Multiple => "multiple",
            TriviaType::TrueFalse => "boolean",
        }
    }
}

/// The shape name of each trivia question shape.
pub open spec fn opentdb_type_index(t: TriviaType) -> Seq<char> {
    match t {
        TriviaType::Any => "any"@,
        TriviaType::Multiple => "multiple"@,
        TriviaType::TrueFalse => "boolean"@,
    }
}

/// The time window a chat statistic covers.
#[derive(Clone, Copy, PartialEq, Eq, Structural, Debug)]
pub enum ChatStatPeriod {
    ThisStream,
    Last24Hours,
    Alltime,
}

/// The period the arguments select, by the earliest matching option;
/// all time by default.
pub open spec fn period_of(args: Seq<Seq<char>>) -> ChatStatPeriod {
    let t = joined_lower(args);
    if has_substr(t, "stream"@) {
        ChatStatPeriod::ThisStream
    } else if has_substr(t, "this stream"@) {
        ChatStatPeriod::ThisStream
    } else if has_substr(t, "24"@) {
        ChatStatPeriod::Last24Hours
    } else if has_substr(t, "last24hours"@) {
        ChatStatPeriod::Last24Hours
    } else {
        ChatStatPeriod::Alltime
    }
}

/// The period a single lowercased word names; all time for anything
/// unrecognized.
pub open spec fn period_of_word(w: Seq<char>) -> ChatStatPeriod {
    if w == "stream"@ || w == "thisstream"@ || w == "this_stream"@ {
        ChatStatPeriod::ThisStream
    } else if w == "24"@ || w == "last24hours"@ || w == "last_24_hours"@ {
        ChatStatPeriod::Last24Hours
    } else {
        ChatStatPeriod::Alltime
    }
}

impl ChatStatPeriod {
    /// Read the period out of the argument tokens.
    pub fn from_vec(v: &Vec<String>) -> (r: Self)
        ensures
            r == period_of(v.deep_view()),
    {
        let t = joined_lower_exec(v);
        let s = t.as_str();
        if contains_substr(s, "stream") {
            ChatStatPeriod::ThisStream
        } else if contains_substr(s, "this stream") {
            ChatStatPeriod::ThisStream
        } else if contains_substr(s, "24") {
            ChatStatPeriod::Last24Hours
        } else if contains_substr(s, "last24hours") {
            ChatStatPeriod::Last24Hours
        } else {
            ChatStatPeriod::Alltime
        }
    }

    /// Read the period from a single word, ignoring case.
    pub fn from_str(s: &str) -> (r: Self)
        ensures
            r == period_of_word(lower_of(s@)),
    {
        let low = lowercase(s);
        let t = low.as_str();
        if str_eq(t, "stream") || str_eq(t, "thisstream") || str_eq(t, "this_stream") {
            ChatStatPeriod::ThisStream
        } else if str_eq(t, "24") || str_eq(t, "last24hours") || str_eq(t, "last_24_hours") {
            ChatStatPeriod::Last24Hours
        } else {
            ChatStatPeriod::Alltime
        }
    }
}

/// What a chat statistic reports: the most active chatters, one
/// chatter, or how often a phrase occurs.
pub enum ChatStatsMode {
    Top(u8),
    One(i32),
    WordCount(String),
}

} // verus!

//! The response shapes of the external services, reduced to plain
//! values. The runtime around the library parses wire payloads into
//! these and hands them in; the library formats and selects from them.

use vstd::prelude::*;

verus! {

/// The chatter list of a channel, grouped by role.
pub struct ChattersResponse {
    pub links: Links,
    pub chatter_count: i64,
    pub chatters: Chatters,
}

/// The link section of a chatter list response.
pub struct Links {}

/// The chatter names of a channel, grouped by role.
pub struct Chatters {
    pub broadcaster: Vec<String>,
    pub vips: Vec<String>,
    pub moderators: Vec<String>,
    pub staff: Vec<String>,
    pub admins: Vec<String>,
    pub global_mods: Vec<String>,
    pub viewers: Vec<String>,
}

/// The cursor of a paged response.
pub struct Pagination {
    pub cursor: Option<String>,
}

/// One emote of the shared emote directory.
pub struct Root2 {
    pub name: String,
}

/// A channel's emote list at the second emote directory.
pub struct EmotesBttvResponse {
    pub channel_emotes: Vec<ChannelEmote>,
    pub shared_emotes: Vec<SharedEmote>,
}

/// One channel-owned emote.
pub struct ChannelEmote {
    pub id: String,
    pub code: String,
    pub image_type: String,
    pub user_id: String,
}

/// One emote shared into a channel.
pub struct SharedEmote {
    pub id: String,
    pub code: String,
    pub image_type: String,
    pub user: User,
}

/// The uploader of a shared emote.
pub struct User {
    pub id: String,
    pub name: String,
    pub display_name: String,
    pub provider_id: String,
}

/// One emote of the third emote directory.
pub struct EmotesFfzResponse {
    pub code: String,
}

/// An account record of the third emote directory.
pub struct User_ {
    pub id: i64,
    pub name: String,
    pub display_name: String,
}

/// One emote of the combined channel emote listing.
pub struct Root2___ {
    pub code: String,
}

/// One global emote of the shared emote directory.
pub struct Root2Globals {
    pub name: String,
}

/// One global emote of the second emote directory.
pub struct Root2GlobalsBttv {
    pub code: String,
}

/// One global emote of the third emote directory.
pub struct Root2FfzGlobals {
    pub code: String,
}

/// An account record of the third directory's global listing.
pub struct UserFfzGlobals {
    pub name: String,
    pub display_name: String,
}

/// A weather report.
pub struct WttrInResponse {
    pub current_condition: Vec<CurrentCondition>,
    pub nearest_area: Vec<NearestArea>,
}

/// The current weather conditions.
pub struct CurrentCondition {
    pub humidity: String,
    pub precip_mm: String,
    pub pressure: String,
    pub temp_c: String,
    pub winddir16point: String,
    pub winddir_degree: String,
    pub windspeed_kmph: String,
}

/// The area a weather report is nearest to.
pub struct NearestArea {
    pub area_name: Vec<AreaName>,
    pub country: Vec<Country>,
}

/// One name of a weather area.
pub struct AreaName {
    pub value: String,
}

/// One country name of a weather area.
pub struct Country {
    pub value: String,
}

/// A translation response.
pub struct DeelResponse {
    pub translations: Vec<Translation>,
}

/// One translated text.
pub struct Translation {
    pub detected_source_language: String,
    pub text: String,
}

/// An encyclopedia query response.
pub struct WikiResponse {
    pub query: Query,
}

/// The page section of an encyclopedia response.
pub struct Query {
    pub pages: Vec<(i32, PagesInner)>,
}

/// One encyclopedia page with its extract.
pub struct PagesInner {
    pub pageid: i64,
    pub ns: i64,
    pub title: String,
    pub extract: String,
}

/// One dictionary entry.
pub struct Root2_ {
    pub word: String,
    pub phonetic: Option<String>,
    pub meanings: Vec<Meaning>,
}

/// A pronunciation record of a dictionary entry.
pub struct Phonetic {
    pub text: Option<String>,
    pub audio: Option<String>,
    pub source_url: Option<String>,
    pub license: Option<License>,
}

/// The license of a pronunciation recording.
pub struct License {
    pub name: String,
    pub url: String,
}

/// One meaning of a dictionary entry.
pub struct Meaning {
    pub part_of_speech: String,
    pub definitions: Vec<Definition>,
    pub synonyms: Vec<String>,
    pub antonyms: Vec<String>,
}

/// One definition of a meaning.
pub struct Definition {
    pub definition: String,
    pub synonyms: Vec<String>,
    pub antonyms: Vec<String>,
}

/// A crowd-sourced dictionary response.
pub struct UrbanDictionaryResponse {
    pub list: Vec<List>,
}

/// One crowd-sourced definition.
pub struct List {
    pub definition: String,
    pub word: String,
    pub example: String,
}

/// A subreddit listing.
pub struct SubredditResponse {
    pub data: Data___,
}

/// The children of a subreddit listing.
pub struct Data___ {
    pub children: Vec<Children>,
}

/// One listed post.
pub struct Children {
    pub data: Data2___,
}

/// The fields of one post.
pub struct Data2___ {
    pub selftext: String,
    pub title: String,
    pub url: String,
}

impl Data2___ {
    /// Copy of the post fields.
    pub fn duplicate(&self) -> (r: Data2___)
        ensures
            r.selftext == self.selftext,
            r.title == self.title,
            r.url == self.url,
    {
        Data2___ {
            selftext: self.selftext.clone(),
            title: self.title.clone(),
            url: self.url.clone(),
        }
    }
}

/// A time zone lookup response.
pub struct IPGeolocationResponse {
    pub timezone: String,
    pub timezone_offset: i64,
    pub timezone_offset_with_dst: i64,
    pub date_time: String,
    pub is_dst: bool,
}

/// A daily verse response: one verse from each book.
pub struct DevotionaliumResponse {
    pub tanakh: HolyBook,
    pub bible: HolyBook,
    pub quran: HolyBook,
}

/// One verse with its source.
pub struct HolyBook {
    pub book: String,
    pub book_number: Option<i64>,
    pub chapter: i64,
    pub text: String,
}

/// A trivia service response.
pub struct TriviaResponse {
    pub results: Vec<TriviaQuestion>,
}

/// One trivia question with its answers.
pub struct TriviaQuestion {
    pub category: String,
    pub type_field: String,
    pub difficulty: String,
    pub question: String,
    pub correct_answer: String,
    pub incorrect_answers: Vec<String>,
}

/// An answer-engine response.
pub struct WolframAlphaResponse {
    pub queryresult: Queryresult,
}

/// The result section of an answer-engine response.
pub struct Queryresult {
    pub success: bool,
    pub error: bool,
    pub pods: Option<Vec<Pod>>,
}

/// One answer pod.
pub struct Pod {
    pub subpods: Option<Vec<Subpod>>,
    pub primary: Option<bool>,
}

/// The text of one answer pod.
pub struct Subpod {
    pub plaintext: String,
}

/// The bundled copypasta file.
pub struct CopypastaFileJSON {
    pub pastas: Vec<Pasta>,
}

/// One stored copypasta.
pub struct Pasta {
    pub text: String,
}

/// One (user id, message count) row of a chat statistic.
pub struct I32I32QR(pub i32, pub i32);

} // verus!

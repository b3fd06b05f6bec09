//! The text toolkit, the argument parsers and the formatters, on
//! concrete values.

use twitch_bot::fmt::{convert_from_html_entities, convert_to_html_encoding, factorial,
    fmt_duration};
use twitch_bot::options::{ChatStatPeriod, HolyBook, RedditPostRelevancy, RedditPostType,
    TriviaCategory, TriviaDifficulty, TriviaType, AdditionalRedditParameter};
use twitch_bot::parse::{find_char, find_substr, parse_by_ident, parse_duration_to_hm, parse_langs};
use twitch_bot::text::{contains_substr, i64_to_string, join_char, lowercase, parse_i64, parse_u64,
    replace_all, split_char, split_str, str_eq, str_eq_ignore_case, trim_spaces, u64_to_string,
    uppercase};
use twitch_bot::types::{badge_from_name, HookMatchType, MyError, TwitchBadge};

#[test]
fn string_equality_and_case_folding() {
    assert!(str_eq("abc", "abc"));
    assert!(!str_eq("abc", "abd"));
    assert!(str_eq_ignore_case("HeLLo", "hello"));
    assert!(!str_eq_ignore_case("hello", "world"));
    assert_eq!(lowercase("MiXeD"), "mixed");
    assert_eq!(uppercase("hello"), "HELLO");
}

#[test]
fn substring_search() {
    assert!(contains_substr("hello world", "lo wo"));
    assert!(!contains_substr("hello", "world"));
    assert!(contains_substr("abc", ""));
    assert_eq!(find_substr("banana", "na"), Some(2));
    assert_eq!(find_substr("banana", "x"), None);
    assert_eq!(find_char("banana", 'n'), Some(2));
}

#[test]
fn splitting_and_joining() {
    let parts = split_char("a b  c", ' ');
    let texts: Vec<&str> = parts.iter().map(|p| p.as_str()).collect();
    assert_eq!(texts, vec!["a", "b", "", "c"]);
    let joined = join_char(&parts, ' ');
    assert_eq!(joined, "a b  c");
    let on_or = split_str("this or that or other", " or ");
    let texts2: Vec<&str> = on_or.iter().map(|p| p.as_str()).collect();
    assert_eq!(texts2, vec!["this", "that", "other"]);
}

#[test]
fn trimming_and_replacing() {
    assert_eq!(trim_spaces("  padded  "), "padded");
    assert_eq!(trim_spaces("bare"), "bare");
    assert_eq!(trim_spaces("   "), "");
    assert_eq!(replace_all("a{1}b{1}", "{1}", "X"), "aXbX");
    assert_eq!(replace_all("nothing", "zz", "X"), "nothing");
}

#[test]
fn number_rendering_and_parsing() {
    assert_eq!(u64_to_string(0), "0");
    assert_eq!(u64_to_string(90217), "90217");
    assert_eq!(i64_to_string(-45), "-45");
    assert_eq!(parse_u64("150"), Some(150));
    assert_eq!(parse_u64(""), None);
    assert_eq!(parse_u64("12x"), None);
    assert_eq!(parse_u64("18446744073709551615"), Some(u64::MAX));
    assert_eq!(parse_u64("18446744073709551616"), None);
    assert_eq!(parse_i64("-7"), Some(-7));
    assert_eq!(parse_i64("7"), Some(7));
    assert_eq!(parse_i64("-"), None);
}

#[test]
fn named_argument_extraction() {
    let args = vec![
        "blabla".to_string(),
        "number=\"150\"".to_string(),
        "albalb".to_string(),
    ];
    assert_eq!(parse_by_ident(&args, "number"), Some("150".to_string()));
    assert_eq!(parse_by_ident(&args, "count"), None);
}

#[test]
fn duration_and_language_arguments() {
    assert_eq!(parse_duration_to_hm("(2h,30m)").ok(), Some((2, 30)));
    assert!(parse_duration_to_hm("nope").is_err());
    assert!(parse_duration_to_hm("(h2,3m)").is_err());
    let (a, b) = parse_langs("(en,de)").unwrap();
    assert_eq!(a, "en");
    assert_eq!(b, "de");
    assert!(parse_langs("en de").is_err());
}

#[test]
fn durations_format_like_the_chat_expects() {
    assert_eq!(fmt_duration(0, false), "no time");
    assert_eq!(fmt_duration(59, false), "59s");
    assert_eq!(fmt_duration(3661, false), "1h, 1m, 1s");
    assert_eq!(fmt_duration(3661, true), "1 hours, 1 minutes, 1 seconds");
    assert_eq!(fmt_duration(31536000 + 86400 + 3600 + 60 + 1, false), "1y, 1d, 1h");
    assert_eq!(fmt_duration(86400 * 2, false), "2d");
}

#[test]
fn html_entity_conversion() {
    assert_eq!(
        convert_from_html_entities("a&nbsp;b&quot;c&#039;d".to_string()),
        "a b\"c'd"
    );
    assert_eq!(convert_to_html_encoding("a b%c".to_string()), "a%20b%25c");
}

#[test]
fn factorial_values() {
    assert_eq!(factorial(0), 1);
    assert_eq!(factorial(1), 1);
    assert_eq!(factorial(5), 120);
    assert_eq!(factorial(10), 3628800);
}

#[test]
fn badge_names_map_to_badges() {
    assert_eq!(badge_from_name("moderator"), TwitchBadge::Mod);
    assert_eq!(badge_from_name("vip"), TwitchBadge::Vip);
    assert_eq!(badge_from_name("broadcaster"), TwitchBadge::Broadcaster);
    assert_eq!(badge_from_name("wat"), TwitchBadge::Unrecognized);
}

#[test]
fn hook_match_type_parsing() {
    assert_eq!(HookMatchType::from_str("EXACT").ok(), Some(HookMatchType::Exact));
    assert_eq!(HookMatchType::from_str("substr").ok(), Some(HookMatchType::Substring));
    assert!(HookMatchType::from_str("fuzzy").is_err());
    assert_eq!(HookMatchType::Exact.to_string(), "exact");
}

#[test]
fn error_messages_render() {
    assert_eq!(MyError::NotFound.message(), "item not found");
    assert_eq!(
        MyError::MissingHardParameter("tries".to_string()).message(),
        "\u{274C} missing a parameter | add tries=\"something\" into the command"
    );
    assert_eq!(
        MyError::BadHardArgumentType("x".to_string(), "integer".to_string()).message(),
        "\u{274C} parameter `x` has bad type, expected a integer"
    );
}

#[test]
fn reddit_options_from_tokens() {
    let args: Vec<String> = vec!["year".to_string(), "upvotes".to_string()];
    assert_eq!(RedditPostRelevancy::new_from_vec(&args), RedditPostRelevancy::Year);
    assert_eq!(RedditPostType::new_from_vec(&args), RedditPostType::MostUpvotes);
    assert_eq!(RedditPostRelevancy::new_from_vec(&[]).as_str(), "week");
    assert_eq!(RedditPostType::new_from_vec(&[]), RedditPostType::Random);
    let media: Vec<String> = vec!["media".to_string()];
    assert_eq!(
        AdditionalRedditParameter::new_from_vec(&media),
        vec![AdditionalRedditParameter::HasMedia]
    );
    assert!(AdditionalRedditParameter::new_from_vec(&[]).is_empty());
}

#[test]
fn trivia_options_from_tokens() {
    let args: Vec<String> = vec!["easy".to_string(), "geography".to_string()];
    assert_eq!(TriviaCategory::from_vec(&args), TriviaCategory::Geography);
    assert_eq!(TriviaDifficulty::from_vec(&args), TriviaDifficulty::Easy);
    assert_eq!(TriviaType::from_vec(&args), TriviaType::Multiple);
    assert_eq!(TriviaCategory::from_vec(&vec![]), TriviaCategory::Any);
    assert_eq!(TriviaCategory::Geography.to_opentdb_index(), "22");
    assert_eq!(TriviaDifficulty::Hard.to_opentdb_index(), "hard");
    assert_eq!(TriviaType::TrueFalse.to_opentdb_index(), "boolean");
}

#[test]
fn holy_book_and_stat_period_parsing() {
    assert_eq!(HolyBook::from_str("Quran").ok(), Some(HolyBook::Quran));
    assert!(HolyBook::from_str("novel").is_err());
    assert_eq!(ChatStatPeriod::from_str("ALLTIME"), ChatStatPeriod::Alltime);
    assert_eq!(ChatStatPeriod::from_str("stream"), ChatStatPeriod::ThisStream);
    assert_eq!(ChatStatPeriod::from_str("24"), ChatStatPeriod::Last24Hours);
    assert_eq!(ChatStatPeriod::from_str("whatever"), ChatStatPeriod::Alltime);
    let v: Vec<String> = vec!["last24hours".to_string()];
    assert_eq!(ChatStatPeriod::from_vec(&v), ChatStatPeriod::Last24Hours);
}

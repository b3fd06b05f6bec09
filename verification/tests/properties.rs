//! The library's behavioral properties, exercised on concrete values.

use twitch_bot::dispatch::{Bot, BotConfig, Dispatched, ExtRequest, ExtResponse, demux_round_count};
use twitch_bot::markov::{MarkovRow, MarkovTable};
use twitch_bot::models::TriviaQuestion;
use twitch_bot::types::{Channel, CommandSource, Sender, TwitchBadge};

fn make_bot() -> Bot {
    Bot::new(BotConfig {
        channels: vec!["testchan".to_string()],
        disregarded_users: vec![],
        commands_reference_path: "https://example.invalid/commands".to_string(),
        index_markov: true,
        track_offliners: false,
        prefix: '!',
        startup_time: 1_000_000,
    })
}

fn invocation(cmd: &str, args: &[&str], mvb: bool) -> CommandSource {
    CommandSource {
        cmd: cmd.to_string(),
        args: args.iter().map(|a| a.to_string()).collect(),
        sender: Sender {
            id: 42,
            name: "alice".to_string(),
            statuses: if mvb { vec![TwitchBadge::Mod] } else { vec![TwitchBadge::Subscriber] },
        },
        channel: Channel { id: 7, name: "testchan".to_string() },
        timestamp: 1_000_100,
        is_pipe: false,
    }
}

fn output_of(d: Dispatched) -> String {
    match d {
        Dispatched::Done(Some(text)) => text,
        Dispatched::Done(None) => panic!("expected text output"),
        Dispatched::Need(_) => panic!("expected a finished dispatch"),
    }
}

#[test]
fn privilege_echo_rejects_plain_sender() {
    let mut bot = make_bot();
    let cmd = invocation("echo", &["hi", "there"], false);
    let out = output_of(bot.handle_command(&cmd, &vec![]));
    assert_eq!(out, "\u{274C} requires MVB privileges | E4");
}

#[test]
fn privilege_echo_accepts_mvb() {
    let mut bot = make_bot();
    let cmd = invocation("echo", &["hi", "there"], true);
    let out = output_of(bot.handle_command(&cmd, &vec![]));
    assert_eq!(out, "hi there");
}

#[test]
fn privilege_setcmd_rejects_plain_sender() {
    let mut bot = make_bot();
    let cmd = invocation("setcmd", &["x", "paste", "hello"], false);
    let out = output_of(bot.handle_command(&cmd, &vec![]));
    assert_eq!(out, "\u{274C} not high enough status");
}

#[test]
fn privilege_sethook_rejects_plain_sender() {
    let mut bot = make_bot();
    let cmd = invocation("sethook", &["h", "exact"], false);
    let out = output_of(bot.handle_command(&cmd, &vec![]));
    assert_eq!(out, "\u{274C} requires MVB privileges | E4");
}

#[test]
fn privilege_sethook_accepts_mvb() {
    let mut bot = make_bot();
    let cmd = invocation(
        "sethook",
        &["greet", "exact", "catch=\"hello\"", "content=\"hi back\""],
        true,
    );
    let out = output_of(bot.handle_command(&cmd, &vec![]));
    assert_eq!(out, "\u{1F527} hook created successfully");
}

#[test]
fn privilege_demultiplex_rejects_plain_sender() {
    let mut bot = make_bot();
    let cmd = invocation("demultiplex", &["3", "!cf"], false);
    let out = output_of(bot.handle_command(&cmd, &vec![]));
    assert_eq!(out, "\u{274C} requires MVB privileges | E4");
}

#[test]
fn markov_sampling_follows_row_multiplicity() {
    let mut table = MarkovTable::new();
    for _ in 0..3 {
        table.rows.push(MarkovRow {
            channel_id: 1,
            word: "a".to_string(),
            succ: "b".to_string(),
        });
    }
    table.rows.push(MarkovRow { channel_id: 1, word: "a".to_string(), succ: "c".to_string() });
    let mut b_count = 0u32;
    for _ in 0..10_000 {
        match table.get_rand_markov_succ(1, "a") {
            Some(s) => {
                if s == "b" {
                    b_count += 1;
                }
            }
            None => panic!("the word has successors"),
        }
    }
    assert!(b_count > 7000 && b_count < 8000, "b sampled {} times", b_count);
}

#[test]
fn pipe_transform_applies_to_accumulator() {
    let mut bot = make_bot();
    let cmd = invocation("pipe", &["echo", "hello", "|", "upper"], true);
    let out = output_of(bot.handle_command(&cmd, &vec![]));
    assert_eq!(out, "HELLO");
}

#[test]
fn pipe_second_stage_overwrites_accumulator() {
    let mut bot = make_bot();
    let cmd = invocation(
        "pipe",
        &["echo", "hello", "|", "echo", "world", "|", "upper"],
        true,
    );
    let out = output_of(bot.handle_command(&cmd, &vec![]));
    assert_eq!(out, "WORLD");
}

#[test]
fn demultiplex_clamps_to_fifty() {
    assert_eq!(demux_round_count("1000"), Some(50));
    assert_eq!(demux_round_count("50"), Some(50));
    assert_eq!(demux_round_count("49"), Some(49));
    assert_eq!(demux_round_count("1"), Some(1));
    assert_eq!(demux_round_count("0"), Some(1));
    assert_eq!(demux_round_count("x"), None);
}

#[test]
fn demultiplex_runs_fifty_times_for_a_thousand() {
    let mut bot = make_bot();
    let setcmd = invocation("setcmd", &["cnt", "incr", "{}"], true);
    output_of(bot.handle_command(&setcmd, &vec![]));
    let demux = invocation("demultiplex", &["1000", "!cnt"], true);
    output_of(bot.handle_command(&demux, &vec![]));
    let probe = invocation("cnt", &[], true);
    let out = output_of(bot.handle_command(&probe, &vec![]));
    assert_eq!(out, "51");
}

#[test]
fn alias_round_trip_matches_direct_invocation() {
    let mut bot = make_bot();
    let setalias = invocation("setalias", &["foo", "!ping"], false);
    let out = output_of(bot.handle_command(&setalias, &vec![]));
    assert_eq!(out, "\u{2705} alias created");
    let via_alias = invocation("", &["foo"], false);
    let aliased = output_of(bot.handle_command(&via_alias, &vec![]));
    let direct = invocation("ping", &[], false);
    let direct_out = output_of(bot.handle_command(&direct, &vec![]));
    assert_eq!(aliased, direct_out);
}

fn trivia_fetch() -> Vec<(ExtRequest, ExtResponse)> {
    vec![(
        ExtRequest::FetchTrivia("any".to_string(), "any".to_string(), "multiple".to_string()),
        ExtResponse::Trivia(Some(TriviaQuestion {
            category: "General Knowledge".to_string(),
            type_field: "multiple".to_string(),
            difficulty: "easy".to_string(),
            question: "What color is the sky?".to_string(),
            correct_answer: "Blue".to_string(),
            incorrect_answers: vec![
                "Green".to_string(),
                "Red".to_string(),
                "Plaid".to_string(),
            ],
        })),
    )]
}

#[test]
fn trivia_second_start_is_rejected() {
    let mut bot = make_bot();
    let fetched = trivia_fetch();
    let start = invocation("trivia", &[], false);
    let out = output_of(bot.handle_command(&start, &fetched));
    assert_eq!(out, "What color is the sky?");
    let again = invocation("trivia", &[], false);
    let out2 = output_of(bot.handle_command(&again, &fetched));
    assert_eq!(out2, "\u{274C} there is currently a game going on!");
}

#[test]
fn trivia_commit_is_last_write_wins() {
    let mut bot = make_bot();
    bot.channel_states.ensure_channel(7);
    bot.channel_states.commit_trivia(
        7,
        twitch_bot::types::TriviaGameInfo {
            question: "q1".to_string(),
            correct_answer: "a1".to_string(),
            wrong_answers: vec!["w".to_string(), "w".to_string(), "w".to_string()],
        },
    );
    bot.channel_states.commit_trivia(
        7,
        twitch_bot::types::TriviaGameInfo {
            question: "q2".to_string(),
            correct_answer: "a2".to_string(),
            wrong_answers: vec!["w".to_string(), "w".to_string(), "w".to_string()],
        },
    );
    let revealed = bot.channel_states.give_up(7);
    assert_eq!(revealed, Some("a2".to_string()));
    assert_eq!(bot.channel_states.give_up(7), None);
}

#[test]
fn trivia_answer_ends_game_case_insensitively() {
    let mut bot = make_bot();
    let fetched = trivia_fetch();
    let start = invocation("trivia", &[], false);
    output_of(bot.handle_command(&start, &fetched));
    assert!(bot.channel_states.evaluate_answer(7, "bLuE"));
    assert!(!bot.channel_states.evaluate_answer(7, "bLuE"));
}

#[test]
fn cache_eviction_empties_and_forces_misses() {
    let mut bot = make_bot();
    for (name, id) in [("a", 1), ("b", 2), ("c", 3)] {
        bot.name_id_cache.insert(name, id);
    }
    assert_eq!(bot.name_id_cache.len(), 3);
    assert_eq!(bot.name_id_cache.get("b"), Some(2));
    let evicted = bot.clear_name_id_cache();
    assert_eq!(evicted, 3);
    assert_eq!(bot.name_id_cache.len(), 0);
    assert_eq!(bot.name_id_cache.get("a"), None);
    assert_eq!(bot.name_id_cache.get("b"), None);
}

fn chat_message(text: &str) -> twitch_bot::types::Privmsg {
    twitch_bot::types::Privmsg {
        sender_id: 42,
        sender_name: "alice".to_string(),
        badges: vec![],
        channel_id: 7,
        channel_name: "testchan".to_string(),
        message_text: text.to_string(),
        timestamp: 1_000_200,
        emote_codes: vec![],
    }
}

#[test]
fn ingestion_of_links_only_adds_no_rows() {
    let mut bot = make_bot();
    let msg = chat_message("https://example.com/a www.example.org");
    bot.handle_chat_message(&msg, &vec![]);
    assert_eq!(bot.markov.rows.len(), 0);
}

#[test]
fn ingestion_of_placeholder_only_adds_no_rows() {
    let mut bot = make_bot();
    let msg = chat_message("\u{2800} \u{2800}\u{2800}");
    bot.handle_chat_message(&msg, &vec![]);
    assert_eq!(bot.markov.rows.len(), 0);
}

#[test]
fn ingestion_does_not_shift_pairing_around_a_discard() {
    let mut bot = make_bot();
    let msg = chat_message("hello https://a.b world");
    bot.handle_chat_message(&msg, &vec![]);
    assert_eq!(bot.markov.rows.len(), 0);
    let msg2 = chat_message("Hello there friend");
    bot.handle_chat_message(&msg2, &vec![]);
    assert_eq!(bot.markov.rows.len(), 2);
    assert_eq!(bot.markov.rows[0].word, "hello");
    assert_eq!(bot.markov.rows[0].succ, "there");
    assert_eq!(bot.markov.rows[1].word, "there");
    assert_eq!(bot.markov.rows[1].succ, "friend");
}

#[test]
fn usage_counter_strictly_increases() {
    let mut bot = make_bot();
    let setcmd = invocation("setcmd", &["hits", "incr", "seen {} times"], true);
    output_of(bot.handle_command(&setcmd, &vec![]));
    let mut previous = 0u64;
    for k in 1..=5u64 {
        let probe = invocation("hits", &[], false);
        let out = output_of(bot.handle_command(&probe, &vec![]));
        assert_eq!(out, format!("seen {} times", k));
        assert!(k > previous);
        previous = k;
    }
}

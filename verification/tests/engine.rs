//! Dispatcher routing, the storage model and the request protocol, on
//! concrete values.

use twitch_bot::dispatch::{Bot, BotConfig, ChatHandled, Dispatched, ExtRequest, ExtResponse};
use twitch_bot::types::{Channel, CommandSource, Privmsg, Sender, TwitchBadge};

fn make_bot() -> Bot {
    Bot::new(BotConfig {
        channels: vec!["testchan".to_string()],
        disregarded_users: vec!["robot".to_string()],
        commands_reference_path: "https://example.invalid/commands".to_string(),
        index_markov: true,
        track_offliners: true,
        prefix: '!',
        startup_time: 1_000_000,
    })
}

fn invocation(cmd: &str, args: &[&str], mvb: bool) -> CommandSource {
    CommandSource {
        cmd: cmd.to_string(),
        args: args.iter().map(|a| a.to_string()).collect(),
        sender: Sender {
            id: 42,
            name: "alice".to_string(),
            statuses: if mvb { vec![TwitchBadge::Vip] } else { vec![] },
        },
        channel: Channel { id: 7, name: "testchan".to_string() },
        timestamp: 1_000_100,
        is_pipe: false,
    }
}

fn output_of(d: Dispatched) -> String {
    match d {
        Dispatched::Done(Some(text)) => text,
        Dispatched::Done(None) => panic!("expected text output"),
        Dispatched::Need(_) => panic!("expected a finished dispatch"),
    }
}

fn chat_message(sender_id: i32, name: &str, text: &str) -> Privmsg {
    Privmsg {
        sender_id,
        sender_name: name.to_string(),
        badges: vec![],
        channel_id: 7,
        channel_name: "testchan".to_string(),
        message_text: text.to_string(),
        timestamp: 1_000_500,
        emote_codes: vec![],
    }
}

#[test]
fn unknown_command_is_not_recognized() {
    let mut bot = make_bot();
    let cmd = invocation("nosuchthing", &[], false);
    assert_eq!(output_of(bot.handle_command(&cmd, &vec![])), "command not recognized");
}

#[test]
fn template_command_substitutes_positional_markers() {
    let mut bot = make_bot();
    let setcmd = invocation("setcmd", &["greet", "templ", "hi {1}, from {2}"], true);
    output_of(bot.handle_command(&setcmd, &vec![]));
    let run = invocation("greet", &["bob", "alice"], false);
    let out = output_of(bot.handle_command(&run, &vec![]));
    assert_eq!(out, "hi bob, from alice");
}

#[test]
fn paste_command_returns_expression_verbatim() {
    let mut bot = make_bot();
    let setcmd = invocation("setcmd", &["motd", "paste", "be kind {1}"], true);
    output_of(bot.handle_command(&setcmd, &vec![]));
    let run = invocation("motd", &["ignored"], false);
    let out = output_of(bot.handle_command(&run, &vec![]));
    assert_eq!(out, "be kind {1}");
}

#[test]
fn delcmd_removes_a_custom_command() {
    let mut bot = make_bot();
    let setcmd = invocation("setcmd", &["gone", "paste", "x"], true);
    output_of(bot.handle_command(&setcmd, &vec![]));
    let del = invocation("delcmd", &["gone"], false);
    assert_eq!(output_of(bot.handle_command(&del, &vec![])), "\u{2705} removed successfully");
    let del_again = invocation("delcmd", &["gone"], false);
    assert_eq!(
        output_of(bot.handle_command(&del_again, &vec![])),
        "\u{274C} no such command existed"
    );
}

#[test]
fn reminders_are_delivered_once_due() {
    let mut bot = make_bot();
    let remind = invocation("remindme", &["(0h,1m)", "drink", "water"], false);
    let out = output_of(bot.handle_command(&remind, &vec![]));
    assert_eq!(out, "\u{2705} set successfully");
    let fetched = vec![(ExtRequest::NickFromId(42), ExtResponse::Text("alice".to_string()))];
    let msg = chat_message(42, "alice", "back again");
    match bot.handle_chat_message(&msg, &fetched) {
        ChatHandled::Say(lines) => {
            assert_eq!(lines.len(), 1);
            assert_eq!(lines[0], "@alice \u{1F514}\u{1F5E8} yourself: drink water");
        }
        ChatHandled::Need(_) => panic!("nick was supplied"),
    }
    let again = chat_message(42, "alice", "anything new?");
    match bot.handle_chat_message(&again, &fetched) {
        ChatHandled::Say(lines) => assert_eq!(lines.len(), 0),
        ChatHandled::Need(_) => panic!("no request expected"),
    }
}

#[test]
fn clear_reminders_counts_deletions() {
    let mut bot = make_bot();
    let r1 = invocation("remind", &["(5h,0m)", "bob", "hello", "bob"], false);
    let fetched = vec![(
        ExtRequest::ResolveId("bob".to_string()),
        ExtResponse::MaybeId(Some(77)),
    )];
    assert_eq!(output_of(bot.handle_command(&r1, &fetched)), "\u{2705} set successfully");
    let clear = invocation("clearreminders", &[], false);
    assert_eq!(output_of(bot.handle_command(&clear, &vec![])), "\u{2705} cleared 1 reminders");
    let clear2 = invocation("rmrm", &[], false);
    assert_eq!(
        output_of(bot.handle_command(&clear2, &vec![])),
        "\u{274C} no reminders set, nothing happened"
    );
}

#[test]
fn reminder_needs_resolution_before_storing() {
    let mut bot = make_bot();
    let r1 = invocation("remind", &["(5h,0m)", "carol", "hi", "carol"], false);
    match bot.handle_command(&r1, &vec![]) {
        Dispatched::Need(ExtRequest::ResolveId(name)) => assert_eq!(name, "carol"),
        _ => panic!("the unknown name needs resolving"),
    }
    let fetched = vec![(
        ExtRequest::ResolveId("carol".to_string()),
        ExtResponse::MaybeId(None),
    )];
    assert_eq!(output_of(bot.handle_command(&r1, &fetched)), "\u{274C} user nonexistant");
}

#[test]
fn lurk_and_return_report_the_away_time() {
    let mut bot = make_bot();
    let lurk = invocation("lurk", &[], false);
    assert_eq!(output_of(bot.handle_command(&lurk, &vec![])), "alice is now AFK");
    let msg = chat_message(42, "alice", "i am back");
    match bot.handle_chat_message(&msg, &vec![]) {
        ChatHandled::Say(lines) => {
            assert_eq!(lines.len(), 1);
            assert_eq!(lines[0], "alice is no longer AFK (6m, 40s)");
        }
        ChatHandled::Need(_) => panic!("no request expected"),
    }
}

#[test]
fn hooks_fire_on_matching_messages() {
    let mut bot = make_bot();
    let hook = invocation(
        "sethook",
        &["h", "substr", "catch=\"cookie\"", "content=\"have one!\""],
        true,
    );
    output_of(bot.handle_command(&hook, &vec![]));
    let msg = chat_message(5, "bob", "anyone got a cookie here");
    match bot.handle_chat_message(&msg, &vec![]) {
        ChatHandled::Say(lines) => {
            assert!(lines.iter().any(|l| l == "have one!"));
        }
        ChatHandled::Need(_) => panic!("no request expected"),
    }
    let quiet = chat_message(5, "bob", "nothing relevant");
    match bot.handle_chat_message(&quiet, &vec![]) {
        ChatHandled::Say(lines) => assert!(lines.iter().all(|l| l != "have one!")),
        ChatHandled::Need(_) => panic!("no request expected"),
    }
}

#[test]
fn first_message_comes_from_the_log() {
    let mut bot = make_bot();
    let m1 = chat_message(42, "alice", "first words");
    bot.handle_chat_message(&m1, &vec![]);
    let m2 = chat_message(42, "alice", "second words");
    bot.handle_chat_message(&m2, &vec![]);
    let first = invocation("first", &[], false);
    assert_eq!(output_of(bot.handle_command(&first, &vec![])), "first words");
}

#[test]
fn word_ratio_counts_non_command_messages() {
    let mut bot = make_bot();
    bot.handle_chat_message(&chat_message(42, "alice", "tea is great"), &vec![]);
    bot.handle_chat_message(&chat_message(42, "alice", "more tea please"), &vec![]);
    bot.handle_chat_message(&chat_message(42, "alice", "coffee rules"), &vec![]);
    bot.handle_chat_message(&chat_message(42, "alice", "!ignored command"), &vec![]);
    let ratio = invocation("wordratio", &["tea"], false);
    let out = output_of(bot.handle_command(&ratio, &vec![]));
    assert_eq!(
        out,
        "66.66% of tracked alice's messages in this channel contain the word tea"
    );
}

#[test]
fn chatstats_lists_top_chatters() {
    let mut bot = make_bot();
    bot.handle_chat_message(&chat_message(1, "ann", "a"), &vec![]);
    bot.handle_chat_message(&chat_message(1, "ann", "b"), &vec![]);
    bot.handle_chat_message(&chat_message(1, "ann", "c"), &vec![]);
    bot.handle_chat_message(&chat_message(2, "ben", "d"), &vec![]);
    let fetched = vec![
        (ExtRequest::NickFromId(1), ExtResponse::Text("ann".to_string())),
        (ExtRequest::NickFromId(2), ExtResponse::Text("ben".to_string())),
    ];
    let stats = invocation("chatstats", &[], false);
    let out = output_of(bot.handle_command(&stats, &fetched));
    assert_eq!(out, " 1. ann (3) 2. ben (1)");
}

#[test]
fn offline_time_accrues_per_poll() {
    let mut bot = make_bot();
    let fetched = vec![
        (
            ExtRequest::StreamInfo("testchan".to_string()),
            ExtResponse::MaybeStamp(None),
        ),
        (
            ExtRequest::Chatters("testchan".to_string()),
            ExtResponse::MaybeNames(Some(vec!["dora".to_string(), "robot".to_string()])),
        ),
        (
            ExtRequest::ResolveId("testchan".to_string()),
            ExtResponse::MaybeId(Some(7)),
        ),
        (
            ExtRequest::ResolveId("dora".to_string()),
            ExtResponse::MaybeId(Some(9)),
        ),
    ];
    match bot.check_for_offliners(&fetched) {
        Ok(n) => assert_eq!(n, 1),
        Err(_) => panic!("all requests were supplied"),
    }
    match bot.check_for_offliners(&fetched) {
        Ok(n) => assert_eq!(n, 1),
        Err(_) => panic!("all requests were supplied"),
    }
    assert_eq!(bot.offliners.get_offline_time(7, 9), 120);
    assert_eq!(bot.offliners.get_offline_time(7, 99), 0);
    let show = invocation("offlinetime", &["dora"], false);
    let out = output_of(bot.handle_command(&show, &fetched));
    assert_eq!(out, "dora has spent 2m in testchan's offline chat!");
}

#[test]
fn pipe_pastebin_uploads_the_accumulator() {
    let mut bot = make_bot();
    let cmd = CommandSource {
        sender: Sender {
            id: 42,
            name: "alice".to_string(),
            statuses: vec![TwitchBadge::Broadcaster],
        },
        ..invocation("pipe", &["echo", "secret", "note", "|", "pastebin"], true)
    };
    match bot.handle_command(&cmd, &vec![]) {
        Dispatched::Need(ExtRequest::Paste(text)) => assert_eq!(text, "secret note"),
        _ => panic!("the upload must be requested"),
    }
    let fetched = vec![(
        ExtRequest::Paste("secret note".to_string()),
        ExtResponse::Text("https://paste.invalid/abc".to_string()),
    )];
    let out = output_of(bot.handle_command(&cmd, &fetched));
    assert_eq!(out, "https://paste.invalid/abc");
}

#[test]
fn pipe_devnull_clears_the_accumulator() {
    let mut bot = make_bot();
    let cmd = invocation("pipe", &["echo", "loud", "|", "devnull"], true);
    assert_eq!(output_of(bot.handle_command(&cmd, &vec![])), "");
}

#[test]
fn bench_reports_milliseconds() {
    let mut bot = make_bot();
    let cmd = invocation("bench", &["!cf"], false);
    let out = output_of(bot.handle_command(&cmd, &vec![]));
    assert!(out.starts_with("\u{1F4E1} "), "unexpected: {}", out);
    assert!(out.ends_with(" ms"), "unexpected: {}", out);
}

#[test]
fn pyramid_builds_and_requests_the_lines() {
    let mut bot = make_bot();
    let cmd = invocation("pyramid", &["kappa", "2"], false);
    let lines = match bot.handle_command(&cmd, &vec![]) {
        Dispatched::Need(ExtRequest::SayLines(lines)) => lines,
        _ => panic!("the lines must be requested"),
    };
    assert_eq!(lines, vec!["kappa ", "kappa kappa ", "kappa ", ""]);
    let fetched = vec![(ExtRequest::SayLines(lines), ExtResponse::Ack)];
    match bot.handle_command(&cmd, &fetched) {
        Dispatched::Done(None) => {}
        _ => panic!("after the lines are spoken, nothing is said"),
    }
}

#[test]
fn uptime_formats_the_live_duration() {
    let mut bot = make_bot();
    let fetched = vec![(
        ExtRequest::StreamInfo("testchan".to_string()),
        ExtResponse::MaybeStamp(Some(1_000_100 - 3_725)),
    )];
    let cmd = invocation("uptime", &[], false);
    let out = output_of(bot.handle_command(&cmd, &fetched));
    assert_eq!(out, "\u{23F1}\u{FE0F} testchan has been live for 1h, 2m, 5s");
    let offline = vec![(
        ExtRequest::StreamInfo("testchan".to_string()),
        ExtResponse::MaybeStamp(None),
    )];
    assert_eq!(output_of(bot.handle_command(&cmd, &offline)), "\u{274C} streamer not live");
}

#[test]
fn random_number_stays_in_range() {
    let mut bot = make_bot();
    for _ in 0..50 {
        let cmd = invocation("random", &["3", "5"], false);
        let out = output_of(bot.handle_command(&cmd, &vec![]));
        let v: i64 = out.parse().unwrap();
        assert!((3..=5).contains(&v));
    }
    let bad = invocation("random", &["5", "3"], false);
    assert_eq!(output_of(bot.handle_command(&bad, &vec![])), "\u{274C} number expected");
}

#[test]
fn suggestions_and_explanations() {
    let mut bot = make_bot();
    let s = invocation("suggest", &["add", "more", "games"], false);
    assert_eq!(output_of(bot.handle_command(&s, &vec![])), "\u{2705} suggestion saved");
    assert_eq!(bot.suggestions.items.len(), 1);
    assert_eq!(bot.suggestions.items[0].text, "add more games");
    let e = invocation("explain", &["E1"], false);
    assert_eq!(output_of(bot.handle_command(&e, &vec![])), "no such error code");
}

#[test]
fn output_is_cut_to_the_message_limit() {
    let mut bot = make_bot();
    let long = "x".repeat(700);
    let cmd = CommandSource {
        sender: Sender {
            id: 42,
            name: "alice".to_string(),
            statuses: vec![TwitchBadge::Mod],
        },
        ..invocation("echo", &[long.as_str()], true)
    };
    let out = output_of(bot.handle_command(&cmd, &vec![]));
    assert_eq!(out.chars().count(), 500);
}

#[test]
fn aliases_can_be_removed() {
    let mut bot = make_bot();
    let set = invocation("setalias", &["x", "!cf"], false);
    output_of(bot.handle_command(&set, &vec![]));
    let rm = invocation("rmalias", &["x"], false);
    assert_eq!(output_of(bot.handle_command(&rm, &vec![])), "\u{2705} alias removed");
    let rm2 = invocation("rmalias", &["x"], false);
    assert_eq!(output_of(bot.handle_command(&rm2, &vec![])), "\u{274C} no such alias");
    let gone = invocation("", &["x"], false);
    assert_eq!(output_of(bot.handle_command(&gone, &vec![])), "\u{274C} alias not recognized");
}

#[test]
fn trivia_hint_shuffles_the_four_answers() {
    let mut bot = make_bot();
    bot.channel_states.ensure_channel(7);
    bot.channel_states.commit_trivia(
        7,
        twitch_bot::types::TriviaGameInfo {
            question: "q".to_string(),
            correct_answer: "right".to_string(),
            wrong_answers: vec!["w1".to_string(), "w2".to_string(), "w3".to_string()],
        },
    );
    let hint = invocation("hint", &[], false);
    let out = output_of(bot.handle_command(&hint, &vec![]));
    assert!(out.starts_with("The options are: \""));
    for answer in ["right", "w1", "w2", "w3"] {
        assert!(out.contains(answer), "{} missing from {}", answer, out);
    }
    let giveup = invocation("giveup", &[], false);
    assert_eq!(
        output_of(bot.handle_command(&giveup, &vec![])),
        "So bad LUL | The answer was 'right'"
    );
}

#[test]
fn markov_command_walks_the_table() {
    let mut bot = make_bot();
    bot.handle_chat_message(&chat_message(1, "ann", "one two three"), &vec![]);
    let walk = invocation("markov", &["one", "3"], false);
    let out = output_of(bot.handle_command(&walk, &vec![]));
    assert_eq!(out, "\u{1F52E} one two three");
    let missing = invocation("markov", &["unseen"], false);
    assert_eq!(
        output_of(bot.handle_command(&missing, &vec![])),
        "\u{274C} word not indexed yet | E1"
    );
    let no_args = invocation("markov", &[], false);
    assert_eq!(output_of(bot.handle_command(&no_args, &vec![])), "\u{274C} insufficient args");
}

#[test]
fn inbound_events_parse_into_invocations() {
    let msg = Privmsg {
        sender_id: 8,
        sender_name: "Carol".to_string(),
        badges: vec!["moderator".to_string(), "subscriber".to_string()],
        channel_id: 7,
        channel_name: "testchan".to_string(),
        message_text: "!Echo one Two".to_string(),
        timestamp: 5,
        emote_codes: vec![],
    };
    let cmd = CommandSource::from_privmsg(&msg);
    assert_eq!(cmd.cmd, "echo");
    assert_eq!(cmd.args, vec!["one", "Two"]);
    assert_eq!(cmd.sender.id, 8);
    assert_eq!(cmd.sender.statuses, vec![TwitchBadge::Mod, TwitchBadge::Subscriber]);
    assert!(!cmd.is_pipe);
    assert!(cmd.sender.is_mvb());
}

#[test]
fn decide_answers_each_form() {
    let mut bot = make_bot();
    let empty = invocation("decide", &[], false);
    assert_eq!(output_of(bot.handle_command(&empty, &vec![])), "\u{274C} no options provided");
    let options = invocation("8ball", &["tea,", "coffee"], false);
    let out = output_of(bot.handle_command(&options, &vec![]));
    assert!(out.starts_with("\u{1F3B1} I choose... "), "unexpected: {}", out);
    let yesno = invocation("decide", &["is", "it", "friday"], false);
    let out2 = output_of(bot.handle_command(&yesno, &vec![]));
    assert!(
        out2 == "\u{1F3B1} No, I don't think so" || out2 == "\u{1F3B1} Yes, I do think so",
        "unexpected: {}",
        out2
    );
    let odd = invocation("decide", &["banana"], false);
    assert_eq!(output_of(bot.handle_command(&odd, &vec![])), "\u{274C} prompt not recognized");
}

#[test]
fn ping_reports_uptime_and_commands_link() {
    let mut bot = make_bot();
    let ping = invocation("ping", &[], false);
    assert_eq!(output_of(bot.handle_command(&ping, &vec![])), "Pong! | uptime: 1m, 40s");
    let commands = invocation("commands", &[], false);
    assert_eq!(
        output_of(bot.handle_command(&commands, &vec![])),
        "\u{1F6E0}\u{FE0F} https://example.invalid/commands"
    );
}

#[test]
fn coinflip_lands_on_a_side() {
    let mut bot = make_bot();
    for _ in 0..20 {
        let cmd = invocation("cf", &[], false);
        let out = output_of(bot.handle_command(&cmd, &vec![]));
        assert!(out == "Tails!" || out == "Heads!", "unexpected: {}", out);
    }
}

#[test]
fn single_bound_random_starts_at_one() {
    let mut bot = make_bot();
    for _ in 0..30 {
        let cmd = invocation("random", &["4"], false);
        let out = output_of(bot.handle_command(&cmd, &vec![]));
        let v: i64 = out.parse().unwrap();
        assert!((1..=4).contains(&v));
    }
}

#[test]
fn history_records_each_outermost_command() {
    let mut bot = make_bot();
    let cmd = invocation("ping", &[], false);
    output_of(bot.handle_command(&cmd, &vec![]));
    assert_eq!(bot.history.items.len(), 1);
    assert_eq!(bot.history.items[0].command, "ping");
    assert_eq!(bot.history.items[0].sender_name, "alice");
}

#[test]
fn markov_count_zero_clamps_to_one_round() {
    let mut bot = make_bot();
    bot.handle_chat_message(&chat_message(1, "ann", "one two three"), &vec![]);
    let zero = invocation("markov", &["one", "0"], false);
    assert_eq!(
        output_of(bot.handle_command(&zero, &vec![])),
        "\u{274C} word not indexed yet | E1"
    );
    let one = invocation("markov", &["one", "1"], false);
    assert_eq!(
        output_of(bot.handle_command(&one, &vec![])),
        "\u{274C} word not indexed yet | E1"
    );
    let bad = invocation("markov", &["one", "x"], false);
    assert_eq!(
        output_of(bot.handle_command(&bad, &vec![])),
        "\u{274C} expected positive integer"
    );
    let two = invocation("markov", &["one", "2"], false);
    assert_eq!(output_of(bot.handle_command(&two, &vec![])), "\u{1F52E} one two");
}

#[test]
fn demultiplex_runs_once_for_a_count_of_zero() {
    let mut bot = make_bot();
    let setcmd = CommandSource {
        sender: Sender {
            id: 42,
            name: "alice".to_string(),
            statuses: vec![TwitchBadge::Mod],
        },
        ..invocation("setcmd", &["tick", "incr", "{}"], true)
    };
    output_of(bot.handle_command(&setcmd, &vec![]));
    let demux = CommandSource {
        sender: Sender {
            id: 42,
            name: "alice".to_string(),
            statuses: vec![TwitchBadge::Mod],
        },
        ..invocation("demultiplex", &["0", "!tick"], true)
    };
    assert_eq!(output_of(bot.handle_command(&demux, &vec![])), " 1");
}

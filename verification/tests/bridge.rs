use tgbridge::config::{resolve_config, ConfigError};
use tgbridge::dispatch::{combine_outcomes, runs_receiver, runs_sender, select_mode, Mode, Outcome};
use tgbridge::numeral::{i64_to_string, parse_i64};
use tgbridge::receiver::{render_update, TextMessage, Update};
use tgbridge::sender::{sender_init, sender_step, SenderAction, SenderEvent, SenderInit};

#[test]
fn config_from_flags() {
    let r = resolve_config(
        "42".to_string(),
        "tok".to_string(),
        true,
        false,
        None,
        None,
    );
    let c = r.unwrap();
    assert_eq!(c.id, "42");
    assert_eq!(c.token, "tok");
    assert!(c.send_only);
    assert!(!c.receive_only);
}

#[test]
fn config_env_fallback() {
    let env_id = "7".to_string();
    let env_token = "envtok".to_string();
    let r = resolve_config(
        String::new(),
        String::new(),
        false,
        true,
        Some(&env_id),
        Some(&env_token),
    );
    let c = r.unwrap();
    assert_eq!(c.id, "7");
    assert_eq!(c.token, "envtok");
    assert!(!c.send_only);
    assert!(c.receive_only);
}

#[test]
fn config_flag_wins_over_env() {
    let env_id = "7".to_string();
    let env_token = "envtok".to_string();
    let r = resolve_config(
        "1".to_string(),
        "flagtok".to_string(),
        false,
        false,
        Some(&env_id),
        Some(&env_token),
    );
    let c = r.unwrap();
    assert_eq!(c.id, "1");
    assert_eq!(c.token, "flagtok");
}

#[test]
fn config_missing_token_is_fatal() {
    // Token absent everywhere: fatal before any workflow, even though the
    // id is missing too the token is reported first.
    let r = resolve_config(String::new(), String::new(), false, false, None, None);
    assert_eq!(r.unwrap_err(), ConfigError::MissingToken);
}

#[test]
fn config_missing_id_is_fatal() {
    let r = resolve_config(
        String::new(),
        "tok".to_string(),
        false,
        false,
        None,
        None,
    );
    assert_eq!(r.unwrap_err(), ConfigError::MissingId);
}

#[test]
fn parse_accepts_plain_and_signed() {
    assert_eq!(parse_i64("42"), Some(42));
    assert_eq!(parse_i64("0"), Some(0));
    assert_eq!(parse_i64("-7"), Some(-7));
    assert_eq!(parse_i64("+5"), Some(5));
    assert_eq!(parse_i64("007"), Some(7));
}

#[test]
fn parse_accepts_extremes() {
    assert_eq!(parse_i64("9223372036854775807"), Some(i64::MAX));
    assert_eq!(parse_i64("-9223372036854775808"), Some(i64::MIN));
}

#[test]
fn parse_rejects_out_of_range() {
    assert_eq!(parse_i64("9223372036854775808"), None);
    assert_eq!(parse_i64("-9223372036854775809"), None);
    assert_eq!(parse_i64("99999999999999999999999"), None);
}

#[test]
fn parse_rejects_non_numeric() {
    assert_eq!(parse_i64(""), None);
    assert_eq!(parse_i64("abc"), None);
    assert_eq!(parse_i64("12 "), None);
    assert_eq!(parse_i64(" 12"), None);
    assert_eq!(parse_i64("1.5"), None);
    assert_eq!(parse_i64("--4"), None);
    assert_eq!(parse_i64("+"), None);
    assert_eq!(parse_i64("-"), None);
    assert_eq!(parse_i64("4a"), None);
}

#[test]
fn format_matches_std() {
    assert_eq!(i64_to_string(0), "0");
    assert_eq!(i64_to_string(42), "42");
    assert_eq!(i64_to_string(-1), "-1");
    assert_eq!(i64_to_string(i64::MAX), "9223372036854775807");
    assert_eq!(i64_to_string(i64::MIN), "-9223372036854775808");
}

#[test]
fn numeral_round_trip() {
    for n in [0i64, 1, -1, 42, -100, 1000, i64::MAX, i64::MIN] {
        assert_eq!(parse_i64(&i64_to_string(n)), Some(n));
    }
}

#[test]
fn sender_disabled_on_invalid_id() {
    // A non-numeric id disables sending: no send can ever be issued.
    assert_eq!(sender_init("abc"), SenderInit::Disabled);
    assert_eq!(sender_init(""), SenderInit::Disabled);
    assert_eq!(sender_init("9223372036854775808"), SenderInit::Disabled);
}

#[test]
fn sender_active_on_numeric_id() {
    assert_eq!(sender_init("42"), SenderInit::Active { recipient: 42 });
    assert_eq!(sender_init("-100"), SenderInit::Active { recipient: -100 });
}

#[test]
fn sender_step_sends_readable_line() {
    let a = sender_step(9, SenderEvent::LineRead("hello".to_string()));
    match a {
        SenderAction::Send(m) => {
            assert_eq!(m.recipient, 9);
            assert_eq!(m.text, "hello");
        }
        _ => panic!("expected a send"),
    }
}

#[test]
fn sender_step_skips_unreadable_line() {
    assert!(matches!(
        sender_step(9, SenderEvent::LineUnreadable),
        SenderAction::AwaitNext
    ));
}

#[test]
fn sender_step_finishes_on_end_of_input() {
    assert!(matches!(
        sender_step(9, SenderEvent::InputClosed),
        SenderAction::FinishSuccess
    ));
}

#[test]
fn sender_step_propagates_send_failure() {
    match sender_step(9, SenderEvent::SendFailed("boom".to_string())) {
        SenderAction::FinishFailure(e) => assert_eq!(e, "boom"),
        _ => panic!("expected a failure"),
    }
}

#[test]
fn sender_sends_each_line_in_order() {
    // Three readable lines then end of input: exactly three sends, in input
    // order, then success.
    let lines = ["one", "two", "three"];
    let mut sent = Vec::new();
    for line in lines {
        match sender_step(5, SenderEvent::LineRead(line.to_string())) {
            SenderAction::Send(m) => {
                assert_eq!(m.recipient, 5);
                sent.push(m.text);
            }
            _ => panic!("expected a send"),
        }
    }
    assert!(matches!(
        sender_step(5, SenderEvent::InputClosed),
        SenderAction::FinishSuccess
    ));
    assert_eq!(sent, ["one", "two", "three"]);
}

#[test]
fn render_text_message_all_fields() {
    let u = Update::Text(TextMessage {
        username: Some("bob".to_string()),
        first_name: "Bo".to_string(),
        last_name: Some("Burns".to_string()),
        sender_id: -5,
        chat_id: 10,
        date: 1234567890,
        text: "hello, world".to_string(),
    });
    assert_eq!(
        render_update(&u),
        Some("bob,Bo,Burns,-5,10,1234567890,hello, world\n".to_string())
    );
}

#[test]
fn render_text_message_optional_fields_empty() {
    let u = Update::Text(TextMessage {
        username: None,
        first_name: "Ann".to_string(),
        last_name: None,
        sender_id: 42,
        chat_id: 7,
        date: 1000,
        text: "hi".to_string(),
    });
    assert_eq!(render_update(&u), Some(",Ann,,42,7,1000,hi\n".to_string()));
}

#[test]
fn render_skips_other_updates() {
    assert_eq!(render_update(&Update::Other), None);
}

#[test]
fn mode_selection() {
    assert_eq!(select_mode(true, false), Mode::SendOnly);
    assert_eq!(select_mode(false, true), Mode::ReceiveOnly);
    assert_eq!(select_mode(false, false), Mode::Both);
    // The dispatch checks the send-only switch first.
    assert_eq!(select_mode(true, true), Mode::SendOnly);
}

#[test]
fn send_only_never_touches_update_stream() {
    let m = select_mode(true, false);
    assert!(runs_sender(m));
    assert!(!runs_receiver(m));
}

#[test]
fn receive_only_never_reads_input() {
    let m = select_mode(false, true);
    assert!(!runs_sender(m));
    assert!(runs_receiver(m));
}

#[test]
fn both_mode_runs_both() {
    let m = select_mode(false, false);
    assert!(runs_sender(m));
    assert!(runs_receiver(m));
}

#[test]
fn sender_failure_takes_priority() {
    let r = combine_outcomes(
        Outcome::Failure("send broke".to_string()),
        Outcome::Failure("receive broke".to_string()),
    );
    match r {
        Outcome::Failure(e) => assert_eq!(e, "send broke"),
        _ => panic!("expected a failure"),
    }
}

#[test]
fn receiver_failure_surfaces_when_sender_succeeded() {
    let r = combine_outcomes(Outcome::Success, Outcome::Failure("receive broke".to_string()));
    match r {
        Outcome::Failure(e) => assert_eq!(e, "receive broke"),
        _ => panic!("expected a failure"),
    }
}

#[test]
fn combined_success() {
    assert!(matches!(
        combine_outcomes(Outcome::Success, Outcome::Success),
        Outcome::Success
    ));
    match combine_outcomes(Outcome::Failure("send broke".to_string()), Outcome::Success) {
        Outcome::Failure(e) => assert_eq!(e, "send broke"),
        _ => panic!("expected a failure"),
    }
}

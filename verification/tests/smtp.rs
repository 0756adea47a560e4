use email_sec::models::SmtpPhase;
use email_sec::smtp::{spoof_message, Action, Event, Handshake, Stage};

fn reply(text: &str) -> Event {
    Event::Received(text.as_bytes().to_vec())
}

/// Connects and answers every command with the given replies; gives back what was sent.
fn play(h: &mut Handshake, replies: &[&str]) -> Vec<String> {
    let mut sent = Vec::new();
    let mut next = 0;
    loop {
        let event = match h.action() {
            Action::Connect(address) => {
                sent.push(address);
                Event::Connected
            }
            Action::Send(text) => {
                sent.push(text);
                Event::Sent
            }
            Action::SendMessage => {
                sent.push("message".to_string());
                Event::Sent
            }
            Action::Read => {
                next += 1;
                reply(replies[next - 1])
            }
            Action::Stop => return sent,
        };
        h.advance(event);
    }
}

#[test]
fn message_is_delivered() {
    let mut h = Handshake::new("127.0.0.1", 1025, "test.com");
    let replies = ["220 hi", "250-a\r\n250 b", "250 ok", "250 ok", "354 go", "250 queued", "221 bye"];
    let sent = play(&mut h, &replies);
    assert_eq!(
        sent,
        vec![
            "127.0.0.1:1025",
            "EHLO attacker.local\r\n",
            "MAIL FROM:<admin@test.com>\r\n",
            "RCPT TO:<victim@example.com>\r\n",
            "DATA\r\n",
            "message",
            "QUIT\r\n",
        ]
    );
    assert_eq!(h.stage, Stage::Finished);
    assert!(h.result.delivered);
    assert_eq!(h.result.dropped_at, None);
    assert_eq!(h.result.steps.len(), 7);
    assert_eq!(h.result.theory_match, None);
    let phases: Vec<SmtpPhase> = h.result.steps.iter().map(|s| s.phase).collect();
    assert_eq!(
        phases,
        vec![
            SmtpPhase::Connect,
            SmtpPhase::Ehlo,
            SmtpPhase::MailFrom,
            SmtpPhase::RcptTo,
            SmtpPhase::Data,
            SmtpPhase::Body,
            SmtpPhase::Quit,
        ]
    );
    assert_eq!(h.result.steps[0].command_sent, None);
    assert_eq!(h.result.steps[1].response_text, "250-a\r\n250 b");
    assert_eq!(h.result.steps[2].command_sent, Some("MAIL FROM:<admin@test.com>".to_string()));
    assert_eq!(h.result.steps[5].command_sent, Some("[message body + .]".to_string()));
    assert_eq!(h.result.steps[6].response_code, 221);
}

#[test]
fn refusal_halts_at_once() {
    let mut h = Handshake::new("mx", 25, "test.com");
    let sent = play(&mut h, &["220 hi", "250 b", "550 no"]);
    assert_eq!(sent.len(), 3);
    assert!(!h.result.delivered);
    assert_eq!(h.result.dropped_at, Some(SmtpPhase::MailFrom));
    assert_eq!(h.result.steps.len(), 3);
    assert!(!h.result.steps[2].success);
    assert_eq!(h.result.steps[2].response_code, 550);
}

#[test]
fn refused_message_is_not_delivered() {
    let mut h = Handshake::new("mx", 25, "test.com");
    play(&mut h, &["220 hi", "250 b", "250 c", "250 d", "354 e", "451 later"]);
    assert!(!h.result.delivered);
    assert_eq!(h.result.dropped_at, Some(SmtpPhase::Body));
}

#[test]
fn failing_quit_does_not_matter() {
    let mut h = Handshake::new("mx", 25, "test.com");
    play(&mut h, &["220 hi", "250 b", "250 c", "250 d", "354 e", "250 f", "500 g"]);
    assert!(h.result.delivered);
    assert_eq!(h.result.dropped_at, None);
    assert!(!h.result.steps[6].success);
}

#[test]
fn connection_fails() {
    let mut h = Handshake::new("mx", 25, "test.com");
    h.advance(Event::ConnectFailed("refused".to_string()));
    assert_eq!(h.result.dropped_at, Some(SmtpPhase::Connect));
    assert_eq!(h.result.steps[0].response_text, "CONNECTION_REFUSED: refused");
    assert_eq!(h.result.steps[0].response_code, 0);
    assert!(matches!(h.action(), Action::Stop));
    let mut h = Handshake::new("mx", 25, "test.com");
    h.advance(Event::ConnectTimedOut);
    assert_eq!(h.result.steps[0].response_text, "TIMEOUT: TCP connection timed out");
}

#[test]
fn sending_fails() {
    let ready = || {
        let mut h = Handshake::new("mx", 25, "test.com");
        h.advance(Event::Connected);
        h.advance(reply("220 hi"));
        h
    };
    let mut h = ready();
    h.advance(Event::SendFailed("broken pipe".to_string()));
    assert_eq!(h.result.steps[1].response_text, "IO_ERROR: broken pipe");
    assert_eq!(h.result.steps[1].command_sent, Some("EHLO attacker.local".to_string()));
    assert_eq!(h.result.dropped_at, Some(SmtpPhase::Ehlo));
    let mut h = ready();
    h.advance(Event::SendTimedOut);
    assert_eq!(h.result.steps[1].response_text, "TIMEOUT: Write timed out");
}

#[test]
fn sending_the_message_fails() {
    let ready = || {
        let mut h = Handshake::new("mx", 25, "test.com");
        h.advance(Event::Connected);
        for text in ["220 a", "250 b", "250 c", "250 d"] {
            h.advance(reply(text));
            h.advance(Event::Sent);
        }
        h.advance(reply("354 e"));
        assert_eq!(h.stage, Stage::Sending(SmtpPhase::Body));
        h
    };
    let mut h = ready();
    h.advance(Event::SendTimedOut);
    assert_eq!(h.result.steps[5].response_text, "TIMEOUT: Body write timed out");
    assert_eq!(h.result.steps[5].command_sent, Some("[message body]".to_string()));
    assert_eq!(h.result.dropped_at, Some(SmtpPhase::Body));
    let mut h = ready();
    h.advance(Event::SendFailed("e".to_string()));
    assert_eq!(h.result.steps[5].response_text, "IO_ERROR: e");
}

#[test]
fn reading_fails() {
    let ready = || {
        let mut h = Handshake::new("mx", 25, "test.com");
        h.advance(Event::Connected);
        h
    };
    let mut h = ready();
    h.advance(Event::Received(vec![]));
    assert_eq!(h.result.steps[0].response_text, "CONNECTION_CLOSED: Server closed the connection");
    let mut h = ready();
    h.advance(Event::ReadFailed("reset".to_string()));
    assert_eq!(h.result.steps[0].response_text, "IO_ERROR: reset");
    let mut h = ready();
    h.advance(Event::ReadTimedOut);
    assert_eq!(h.result.steps[0].response_text, "TIMEOUT: Read timed out");
    assert_eq!(h.result.dropped_at, Some(SmtpPhase::Connect));
    let mut h = ready();
    h.advance(Event::Received(vec![0x32, 0x32, 0x30, 0x20, 0xff]));
    assert_eq!(h.result.steps[0].response_text, "220 \u{fffd}");
    let mut h = ready();
    h.take_reply("554 go away\r\n");
    assert_eq!(h.result.steps[0].response_code, 554);
    assert_eq!(h.stage, Stage::Finished);
}

#[test]
fn message_in_full() {
    assert_eq!(
        spoof_message("test.com", "Tue, 14 Nov 2023 22:13:20 +0000"),
        "From: \"CEO\" <ceo@test.com>\r\nTo: victim@example.com\r\nSubject: [SPOOF TEST] Email Security Assessment\r\nDate: Tue, 14 Nov 2023 22:13:20 +0000\r\nX-Spoof-Test: email-sec-cli/0.3.0\r\nMIME-Version: 1.0\r\nContent-Type: text/plain; charset=utf-8\r\n\r\nThis is an automated spoof test from the email-sec CLI.\r\nIf you received this, the domain test.com may be vulnerable to spoofing.\r\n.\r\n"
    );
}

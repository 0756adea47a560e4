//! The SMTP handshake as a state machine. The caller performs each action and hands back what
//! came of it; every decision is made here.

use crate::models::{
    SmtpHandshakeResult, SmtpHandshakeResultView, SmtpPhase, SmtpStep, SmtpStepView,
};
use crate::spoof::{is_success, parse_smtp_response, smtp_code, success_code};
use crate::text::{cat2, cat3, decimal, decode_bytes, decoded_text, to_decimal, trimmed};
use vstd::prelude::*;

verus! {

broadcast use vstd::string::group_string_axioms;

/// Where a handshake stands.
#[derive(Debug, Clone, Copy, PartialEq, Eq, Structural)]
pub enum Stage {
    /// The connection is to be opened.
    Connecting,
    /// The command or message of a phase is to be sent.
    Sending(SmtpPhase),
    /// The server's reply in a phase is to be read.
    Reading(SmtpPhase),
    /// Nothing is left to do.
    Finished,
}

/// What the caller is to do next.
#[derive(Debug)]
pub enum Action {
    /// Open a connection to an address.
    Connect(String),
    /// Send a text.
    Send(String),
    /// Send the message, dated at the moment of sending.
    SendMessage,
    /// Read a reply.
    Read,
    /// Stop.
    Stop,
}

/// What came of an action.
#[derive(Debug)]
pub enum Event {
    /// The connection is open.
    Connected,
    /// The connection could not be opened.
    ConnectFailed(String),
    /// The connection was not opened in time.
    ConnectTimedOut,
    /// Everything was sent.
    Sent,
    /// Sending failed.
    SendFailed(String),
    /// Sending took too long.
    SendTimedOut,
    /// Bytes arrived. No bytes means that the server closed the connection.
    Received(Vec<u8>),
    /// Reading failed.
    ReadFailed(String),
    /// Nothing arrived in time.
    ReadTimedOut,
}

/// A handshake under way: where it stands, and its result so far.
#[derive(Debug)]
pub struct Handshake {
    pub stage: Stage,
    pub result: SmtpHandshakeResult,
}

/// The view of a `Handshake`.
pub struct HandshakeView {
    pub stage: Stage,
    pub result: SmtpHandshakeResultView,
}

impl View for Handshake {
    type V = HandshakeView;

    open spec fn view(&self) -> HandshakeView {
        HandshakeView { stage: self.stage, result: self.result@ }
    }
}

// ─── The script ────────────────────────────────────────────────────

/// The place of a phase in the script.
pub open spec fn rank(phase: SmtpPhase) -> int {
    match phase {
        SmtpPhase::Connect => 0,
        SmtpPhase::Ehlo => 1,
        SmtpPhase::MailFrom => 2,
        SmtpPhase::RcptTo => 3,
        SmtpPhase::Data => 4,
        SmtpPhase::Body => 5,
        SmtpPhase::Quit => 6,
        SmtpPhase::Complete => 7,
    }
}

/// The phase that follows another.
pub open spec fn next_phase(phase: SmtpPhase) -> SmtpPhase {
    match phase {
        SmtpPhase::Connect => SmtpPhase::Ehlo,
        SmtpPhase::Ehlo => SmtpPhase::MailFrom,
        SmtpPhase::MailFrom => SmtpPhase::RcptTo,
        SmtpPhase::RcptTo => SmtpPhase::Data,
        SmtpPhase::Data => SmtpPhase::Body,
        SmtpPhase::Body => SmtpPhase::Quit,
        SmtpPhase::Quit => SmtpPhase::Complete,
        SmtpPhase::Complete => SmtpPhase::Complete,
    }
}

/// The command of a phase. The banner needs none, and the message is no command.
pub open spec fn command_of(phase: SmtpPhase, domain: Seq<char>) -> Option<Seq<char>> {
    match phase {
        SmtpPhase::Connect => None,
        SmtpPhase::Ehlo => Some("EHLO attacker.local"@),
        SmtpPhase::MailFrom => Some("MAIL FROM:<admin@"@ + domain + ">"@),
        SmtpPhase::RcptTo => Some("RCPT TO:<victim@example.com>"@),
        SmtpPhase::Data => Some("DATA"@),
        SmtpPhase::Body => None,
        SmtpPhase::Quit => Some("QUIT"@),
        SmtpPhase::Complete => None,
    }
}

/// What the log shows as sent when sending failed.
pub open spec fn sent_text(phase: SmtpPhase, domain: Seq<char>) -> Option<Seq<char>> {
    if phase == SmtpPhase::Body {
        Some("[message body]"@)
    } else {
        command_of(phase, domain)
    }
}

/// What the log shows as sent in front of a reply.
pub open spec fn answered_text(phase: SmtpPhase, domain: Seq<char>) -> Option<Seq<char>> {
    if phase == SmtpPhase::Body {
        Some("[message body + .]"@)
    } else {
        command_of(phase, domain)
    }
}

/// The test message, and the dot behind it.
pub open spec fn message_text(domain: Seq<char>, date: Seq<char>) -> Seq<char> {
    "From: \"CEO\" <ceo@"@ + domain
        + ">\r\nTo: victim@example.com\r\nSubject: [SPOOF TEST] Email Security Assessment\r\nDate: "@
        + date
        + "\r\nX-Spoof-Test: email-sec-cli/0.3.0\r\nMIME-Version: 1.0\r\nContent-Type: text/plain; charset=utf-8\r\n\r\nThis is an automated spoof test from the email-sec CLI.\r\nIf you received this, the domain "@
        + domain + " may be vulnerable to spoofing.\r\n.\r\n"@
}

/// Writes the test message.
pub fn spoof_message(domain: &str, date: &str) -> (s: String)
    ensures
        s@ == message_text(domain@, date@),
{
    let mut s = cat3(
        "From: \"CEO\" <ceo@",
        domain,
        ">\r\nTo: victim@example.com\r\nSubject: [SPOOF TEST] Email Security Assessment\r\nDate: ",
    );
    s.append(date);
    s.append(
        "\r\nX-Spoof-Test: email-sec-cli/0.3.0\r\nMIME-Version: 1.0\r\nContent-Type: text/plain; charset=utf-8\r\n\r\nThis is an automated spoof test from the email-sec CLI.\r\nIf you received this, the domain ",
    );
    s.append(domain);
    s.append(" may be vulnerable to spoofing.\r\n.\r\n");
    s
}

// ─── Transitions ───────────────────────────────────────────────────

/// A step that never got a reply.
pub open spec fn broken_step(
    phase: SmtpPhase,
    command: Option<Seq<char>>,
    text: Seq<char>,
) -> SmtpStepView {
    SmtpStepView {
        phase,
        command_sent: command,
        response_code: 0,
        response_text: text,
        success: false,
    }
}

/// A step that got a reply.
pub open spec fn replied_step(
    phase: SmtpPhase,
    command: Option<Seq<char>>,
    raw: Seq<char>,
) -> SmtpStepView {
    SmtpStepView {
        phase,
        command_sent: command,
        response_code: smtp_code(raw),
        response_text: trimmed(raw),
        success: success_code(smtp_code(raw)),
    }
}

/// A handshake after one more step. A step that fails ends it and says where it was dropped;
/// but the message counts as delivered once the server has taken it, whatever `QUIT` gives.
pub open spec fn logged(h: HandshakeView, step: SmtpStepView) -> HandshakeView {
    let steps = h.result.steps.push(step);
    if step.phase == SmtpPhase::Quit {
        HandshakeView {
            stage: Stage::Finished,
            result: SmtpHandshakeResultView { steps, delivered: true, ..h.result },
        }
    } else if step.success {
        HandshakeView {
            stage: Stage::Sending(next_phase(step.phase)),
            result: SmtpHandshakeResultView { steps, ..h.result },
        }
    } else {
        HandshakeView {
            stage: Stage::Finished,
            result: SmtpHandshakeResultView { steps, dropped_at: Some(step.phase), ..h.result },
        }
    }
}

/// The handshake before anything was done.
pub open spec fn initial(host: Seq<char>, port: u16, domain: Seq<char>) -> HandshakeView {
    HandshakeView {
        stage: Stage::Connecting,
        result: SmtpHandshakeResultView {
            target_host: host,
            target_port: port,
            spoofed_domain: domain,
            steps: Seq::empty(),
            dropped_at: None,
            delivered: false,
            theory_match: None,
        },
    }
}

/// An event is the outcome of the action that a stage asks for.
pub open spec fn fits(stage: Stage, event: Event) -> bool {
    match event {
        Event::Connected | Event::ConnectFailed(_) | Event::ConnectTimedOut => stage
            == Stage::Connecting,
        Event::Sent | Event::SendFailed(_) | Event::SendTimedOut => stage is Sending,
        Event::Received(_) | Event::ReadFailed(_) | Event::ReadTimedOut => stage is Reading,
    }
}

/// The phase that a stage belongs to.
pub open spec fn phase_of(stage: Stage) -> SmtpPhase {
    match stage {
        Stage::Connecting => SmtpPhase::Connect,
        Stage::Sending(phase) => phase,
        Stage::Reading(phase) => phase,
        Stage::Finished => SmtpPhase::Complete,
    }
}

/// The handshake after a reply with a text.
pub open spec fn after_reply(h: HandshakeView, raw: Seq<char>) -> HandshakeView {
    let phase = phase_of(h.stage);
    logged(h, replied_step(phase, answered_text(phase, h.result.spoofed_domain), raw))
}

/// The handshake after an event.
pub open spec fn after(h: HandshakeView, event: Event) -> HandshakeView {
    let phase = phase_of(h.stage);
    let sent = sent_text(phase, h.result.spoofed_domain);
    let answered = answered_text(phase, h.result.spoofed_domain);
    match event {
        Event::Connected => HandshakeView { stage: Stage::Reading(SmtpPhase::Connect), ..h },
        Event::ConnectFailed(e) => logged(
            h,
            broken_step(phase, None, "CONNECTION_REFUSED: "@ + e@),
        ),
        Event::ConnectTimedOut => logged(
            h,
            broken_step(phase, None, "TIMEOUT: TCP connection timed out"@),
        ),
        Event::Sent => HandshakeView { stage: Stage::Reading(phase), ..h },
        Event::SendFailed(e) => logged(h, broken_step(phase, sent, "IO_ERROR: "@ + e@)),
        Event::SendTimedOut => logged(
            h,
            broken_step(
                phase,
                sent,
                if phase == SmtpPhase::Body {
                    "TIMEOUT: Body write timed out"@
                } else {
                    "TIMEOUT: Write timed out"@
                },
            ),
        ),
        Event::Received(bytes) => if bytes@.len() == 0 {
            logged(
                h,
                broken_step(
                    phase,
                    answered,
                    "CONNECTION_CLOSED: Server closed the connection"@,
                ),
            )
        } else {
            after_reply(h, decoded_text(bytes@))
        },
        Event::ReadFailed(e) => logged(h, broken_step(phase, answered, "IO_ERROR: "@ + e@)),
        Event::ReadTimedOut => logged(
            h,
            broken_step(phase, answered, "TIMEOUT: Read timed out"@),
        ),
    }
}

/// What a stage asks of the caller.
pub open spec fn asks(h: HandshakeView, action: Action) -> bool {
    match h.stage {
        Stage::Connecting => action matches Action::Connect(address) && address@
            == h.result.target_host + ":"@ + decimal(h.result.target_port as nat),
        Stage::Sending(SmtpPhase::Body) => action is SendMessage,
        Stage::Sending(phase) => match command_of(phase, h.result.spoofed_domain) {
            Some(command) => action matches Action::Send(text) && text@ == command + "\r\n"@,
            None => action is Stop,
        },
        Stage::Reading(_) => action is Read,
        Stage::Finished => action is Stop,
    }
}

fn write_command(phase: SmtpPhase, domain: &str) -> (command: Option<String>)
    ensures
        command.deep_view() == command_of(phase, domain@),
{
    match phase {
        SmtpPhase::Ehlo => Some("EHLO attacker.local".to_owned()),
        SmtpPhase::MailFrom => Some(cat3("MAIL FROM:<admin@", domain, ">")),
        SmtpPhase::RcptTo => Some("RCPT TO:<victim@example.com>".to_owned()),
        SmtpPhase::Data => Some("DATA".to_owned()),
        SmtpPhase::Quit => Some("QUIT".to_owned()),
        SmtpPhase::Connect | SmtpPhase::Body | SmtpPhase::Complete => None,
    }
}

fn successor(phase: SmtpPhase) -> (next: SmtpPhase)
    ensures
        next == next_phase(phase),
{
    match phase {
        SmtpPhase::Connect => SmtpPhase::Ehlo,
        SmtpPhase::Ehlo => SmtpPhase::MailFrom,
        SmtpPhase::MailFrom => SmtpPhase::RcptTo,
        SmtpPhase::RcptTo => SmtpPhase::Data,
        SmtpPhase::Data => SmtpPhase::Body,
        SmtpPhase::Body => SmtpPhase::Quit,
        SmtpPhase::Quit => SmtpPhase::Complete,
        SmtpPhase::Complete => SmtpPhase::Complete,
    }
}

fn broken(phase: SmtpPhase, command: Option<String>, text: String) -> (step: SmtpStep)
    ensures
        step@ == broken_step(phase, command.deep_view(), text@),
{
    SmtpStep {
        phase,
        command_sent: command,
        response_code: 0,
        response_text: text,
        success: false,
    }
}

impl Handshake {
    /// Prepares a handshake with a server.
    pub fn new(host: &str, port: u16, domain: &str) -> (h: Handshake)
        ensures
            h@ == initial(host@, port, domain@),
    {
        let steps: Vec<SmtpStep> = Vec::new();
        assert(steps.deep_view() =~= Seq::empty());
        Handshake {
            stage: Stage::Connecting,
            result: SmtpHandshakeResult {
                target_host: host.to_string(),
                target_port: port,
                spoofed_domain: domain.to_string(),
                steps,
                dropped_at: None,
                delivered: false,
                theory_match: None,
            },
        }
    }

    /// What to do next.
    pub fn action(&self) -> (action: Action)
        ensures
            asks(self@, action),
    {
        match self.stage {
            Stage::Connecting => Action::Connect(
                cat3(
                    self.result.target_host.as_str(),
                    ":",
                    to_decimal(self.result.target_port as u64).as_str(),
                ),
            ),
            Stage::Sending(phase) => {
                if phase == SmtpPhase::Body {
                    return Action::SendMessage;
                }
                match write_command(phase, self.result.spoofed_domain.as_str()) {
                    Some(command) => Action::Send(cat2(command.as_str(), "\r\n")),
                    None => Action::Stop,
                }
            },
            Stage::Reading(_) => Action::Read,
            Stage::Finished => Action::Stop,
        }
    }

    fn log(&mut self, step: SmtpStep)
        ensures
            final(self)@ == logged(old(self)@, step@),
    {
        let phase = step.phase;
        let success = step.success;
        let ghost before = self.result.steps.deep_view();
        self.result.steps.push(step);
        assert(self.result.steps.deep_view() =~= before.push(step@));
        if phase == SmtpPhase::Quit {
            self.result.delivered = true;
            self.stage = Stage::Finished;
        } else if success {
            self.stage = Stage::Sending(successor(phase));
        } else {
            self.result.dropped_at = Some(phase);
            self.stage = Stage::Finished;
        }
    }

    fn phase(&self) -> (phase: SmtpPhase)
        ensures
            phase == phase_of(self.stage),
    {
        match self.stage {
            Stage::Connecting => SmtpPhase::Connect,
            Stage::Sending(phase) => phase,
            Stage::Reading(phase) => phase,
            Stage::Finished => SmtpPhase::Complete,
        }
    }

    fn sent(&self) -> (command: Option<String>)
        ensures
            command.deep_view() == sent_text(phase_of(self@.stage), self@.result.spoofed_domain),
    {
        let phase = self.phase();
        if phase == SmtpPhase::Body {
            Some("[message body]".to_owned())
        } else {
            write_command(phase, self.result.spoofed_domain.as_str())
        }
    }

    fn answered(&self) -> (command: Option<String>)
        ensures
            command.deep_view() == answered_text(
                phase_of(self@.stage),
                self@.result.spoofed_domain,
            ),
    {
        let phase = self.phase();
        if phase == SmtpPhase::Body {
            Some("[message body + .]".to_owned())
        } else {
            write_command(phase, self.result.spoofed_domain.as_str())
        }
    }

    /// Takes in the text of a reply.
    pub fn take_reply(&mut self, raw: &str)
        requires
            old(self).stage is Reading,
        ensures
            final(self)@ == after_reply(old(self)@, raw@),
    {
        let (code, text) = parse_smtp_response(raw);
        let step = SmtpStep {
            phase: self.phase(),
            command_sent: self.answered(),
            response_code: code,
            response_text: text,
            success: is_success(code),
        };
        self.log(step);
    }

    /// Takes in what came of the action that was asked for.
    pub fn advance(&mut self, event: Event)
        requires
            fits(old(self).stage, event),
        ensures
            final(self)@ == after(old(self)@, event),
    {
        let phase = self.phase();
        match event {
            Event::Connected => {
                self.stage = Stage::Reading(SmtpPhase::Connect);
            },
            Event::ConnectFailed(e) => {
                self.log(broken(phase, None, cat2("CONNECTION_REFUSED: ", e.as_str())));
            },
            Event::ConnectTimedOut => {
                self.log(broken(phase, None, "TIMEOUT: TCP connection timed out".to_owned()));
            },
            Event::Sent => {
                self.stage = Stage::Reading(phase);
            },
            Event::SendFailed(e) => {
                let step = broken(phase, self.sent(), cat2("IO_ERROR: ", e.as_str()));
                self.log(step);
            },
            Event::SendTimedOut => {
                let text = if phase == SmtpPhase::Body {
                    "TIMEOUT: Body write timed out"
                } else {
                    "TIMEOUT: Write timed out"
                };
                let step = broken(phase, self.sent(), text.to_owned());
                self.log(step);
            },
            Event::Received(bytes) => {
                if bytes.is_empty() {
                    let step = broken(
                        phase,
                        self.answered(),
                        "CONNECTION_CLOSED: Server closed the connection".to_owned(),
                    );
                    self.log(step);
                } else {
                    let raw = decode_bytes(bytes.as_slice());
                    self.take_reply(raw.as_str());
                }
            },
            Event::ReadFailed(e) => {
                let step = broken(phase, self.answered(), cat2("IO_ERROR: ", e.as_str()));
                self.log(step);
            },
            Event::ReadTimedOut => {
                let step = broken(phase, self.answered(), "TIMEOUT: Read timed out".to_owned());
                self.log(step);
            },
        }
    }
}

// ─── Laws ──────────────────────────────────────────────────────────

/// The log of a handshake follows the script: one step for each phase, in order; a step is a
/// success exactly where its code says so; all steps but the last are successes; and the
/// result says delivered, or where the handshake was dropped, once it is finished and not before.
pub open spec fn orderly(h: HandshakeView) -> bool {
    let steps = h.result.steps;
    let n = steps.len() as int;
    &&& forall|i: int|
        0 <= i < n ==> rank((#[trigger] steps[i]).phase) == i && steps[i].success == success_code(
            steps[i].response_code,
        )
    &&& forall|i: int| 0 <= i < n - 1 ==> (#[trigger] steps[i]).success
    &&& match h.stage {
        Stage::Connecting => n == 0 && !h.result.delivered && h.result.dropped_at is None,
        Stage::Sending(phase) => 1 <= rank(phase) <= 6 && n == rank(phase) && steps.last().success
            && !h.result.delivered && h.result.dropped_at is None,
        Stage::Reading(phase) => 0 <= rank(phase) <= 6 && n == rank(phase) && (n > 0
            ==> steps.last().success) && !h.result.delivered && h.result.dropped_at is None,
        Stage::Finished => if h.result.delivered {
            n == 7 && h.result.dropped_at is None
        } else {
            1 <= n <= 6 && !steps.last().success && h.result.dropped_at == Some(steps.last().phase)
        },
    }
}

/// The number of actions that a stage is away from the end of the script.
pub open spec fn actions_left(stage: Stage) -> int {
    match stage {
        Stage::Connecting => 14,
        Stage::Sending(phase) => 14 - 2 * rank(phase),
        Stage::Reading(phase) => 13 - 2 * rank(phase),
        Stage::Finished => 0,
    }
}

/// What a run of events makes of a handshake.
pub open spec fn run(h: HandshakeView, events: Seq<Event>) -> HandshakeView
    decreases events.len(),
{
    if events.len() == 0 {
        h
    } else {
        after(run(h, events.drop_last()), events.last())
    }
}

/// Each event of a run is the outcome of the action that was asked for.
pub open spec fn run_fits(h: HandshakeView, events: Seq<Event>) -> bool {
    forall|i: int|
        0 <= i < events.len() ==> fits(run(h, events.take(i)).stage, #[trigger] events[i])
}

/// Every event leaves an orderly handshake orderly, and nearer to its end.
pub proof fn law_event_keeps_order(h: HandshakeView, event: Event)
    requires
        orderly(h),
        fits(h.stage, event),
    ensures
        orderly(after(h, event)),
        actions_left(after(h, event).stage) < actions_left(h.stage),
        0 <= actions_left(after(h, event).stage),
{
    let next = after(h, event);
    assert forall|i: int| 0 <= i < next.result.steps.len() - 1 implies (
    #[trigger] next.result.steps[i]).success by {
        assert(next.result.steps[i] == h.result.steps[i]);
    }
}

/// A handshake asks for an action until it is finished, and then for none.
pub proof fn law_stops_when_finished(h: HandshakeView, action: Action)
    requires
        orderly(h),
        asks(h, action),
    ensures
        action is Stop <==> h.stage == Stage::Finished,
{
}

/// The message is sent only once the server has taken every command up to `DATA`.
pub proof fn law_message_waits_for_go_ahead(h: HandshakeView, action: Action)
    requires
        orderly(h),
        asks(h, action),
        action is SendMessage,
    ensures
        h.result.steps.len() == 5,
        h.result.steps[4].phase == SmtpPhase::Data,
        forall|i: int| 0 <= i < 5 ==> (#[trigger] h.result.steps[i]).success,
{
    assert(rank(h.result.steps[4].phase) == 4);
}

/// No event changes the server, the domain or the comparison, nor a step that is already logged.
pub proof fn law_event_only_adds(h: HandshakeView, event: Event)
    ensures
        after(h, event).result.target_host == h.result.target_host,
        after(h, event).result.target_port == h.result.target_port,
        after(h, event).result.spoofed_domain == h.result.spoofed_domain,
        after(h, event).result.theory_match == h.result.theory_match,
        h.result.steps.is_prefix_of(after(h, event).result.steps),
        after(h, event).result.steps.len() <= h.result.steps.len() + 1,
{
}

/// A step that fails before `QUIT` halts the handshake at once: nothing more is asked for, the
/// message is not delivered, and the phase of the step is where it was dropped.
pub proof fn law_failure_halts(h: HandshakeView, event: Event)
    requires
        orderly(h),
        fits(h.stage, event),
        after(h, event).result.steps.len() == h.result.steps.len() + 1,
        !after(h, event).result.steps.last().success,
        after(h, event).result.steps.last().phase != SmtpPhase::Quit,
    ensures
        after(h, event).stage == Stage::Finished,
        !after(h, event).result.delivered,
        after(h, event).result.dropped_at == Some(phase_of(h.stage)),
{
}

/// A handshake is orderly after any run of events, and ends after at most fourteen.
pub proof fn law_run_is_orderly(
    host: Seq<char>,
    port: u16,
    domain: Seq<char>,
    events: Seq<Event>,
)
    requires
        run_fits(initial(host, port, domain), events),
    ensures
        orderly(run(initial(host, port, domain), events)),
        events.len() + actions_left(run(initial(host, port, domain), events).stage) <= 14,
        0 <= actions_left(run(initial(host, port, domain), events).stage),
    decreases events.len(),
{
    let start = initial(host, port, domain);
    if events.len() > 0 {
        let shorter = events.drop_last();
        assert forall|i: int| 0 <= i < shorter.len() implies fits(
            run(start, shorter.take(i)).stage,
            #[trigger] shorter[i],
        ) by {
            assert(shorter.take(i) =~= events.take(i));
            assert(shorter[i] == events[i]);
        }
        law_run_is_orderly(host, port, domain, shorter);
        assert(events.take(events.len() - 1) =~= shorter);
        law_event_keeps_order(run(start, shorter), events.last());
    }
}

/// A finished handshake has delivered its message exactly where the server took the message.
pub proof fn law_delivered_means_taken(h: HandshakeView)
    requires
        orderly(h),
        h.stage == Stage::Finished,
    ensures
        h.result.delivered <==> (h.result.steps.len() > 5 && h.result.steps[5].phase
            == SmtpPhase::Body && h.result.steps[5].success),
        h.result.delivered <==> h.result.dropped_at is None,
{
    if h.result.steps.len() > 5 {
        assert(rank(h.result.steps[5].phase) == 5);
    }
}

/// The caller is asked to connect to the host and port; to greet, name the spoofed sender and the
/// recipient, announce the message, send it and take leave, each command on a line of its own; and
/// to read after each.
pub proof fn law_script_is_spoken(h: HandshakeView, action: Action)
    requires
        asks(h, action),
    ensures
        h.stage == Stage::Connecting ==> action is Connect && action->Connect_0@
            == h.result.target_host + ":"@ + decimal(h.result.target_port as nat),
        h.stage == Stage::Sending(SmtpPhase::Ehlo) ==> action is Send && action->Send_0@
            == "EHLO attacker.local\r\n"@,
        h.stage == Stage::Sending(SmtpPhase::MailFrom) ==> action is Send
            && action->Send_0@ == "MAIL FROM:<admin@"@ + h.result.spoofed_domain + ">\r\n"@,
        h.stage == Stage::Sending(SmtpPhase::RcptTo) ==> action is Send && action->Send_0@
            == "RCPT TO:<victim@example.com>\r\n"@,
        h.stage == Stage::Sending(SmtpPhase::Data) ==> action is Send && action->Send_0@
            == "DATA\r\n"@,
        h.stage == Stage::Sending(SmtpPhase::Body) ==> action is SendMessage,
        h.stage == Stage::Sending(SmtpPhase::Quit) ==> action is Send && action->Send_0@
            == "QUIT\r\n"@,
        h.stage is Reading ==> action is Read,
        h.stage == Stage::Finished ==> action is Stop,
{
    reveal_strlit("\r\n");
    reveal_strlit("EHLO attacker.local");
    reveal_strlit("EHLO attacker.local\r\n");
    reveal_strlit(">");
    reveal_strlit(">\r\n");
    reveal_strlit("RCPT TO:<victim@example.com>");
    reveal_strlit("RCPT TO:<victim@example.com>\r\n");
    reveal_strlit("DATA");
    reveal_strlit("DATA\r\n");
    reveal_strlit("QUIT");
    reveal_strlit("QUIT\r\n");
    assert("EHLO attacker.local"@ + "\r\n"@ =~= "EHLO attacker.local\r\n"@);
    assert("RCPT TO:<victim@example.com>"@ + "\r\n"@ =~= "RCPT TO:<victim@example.com>\r\n"@);
    assert("DATA"@ + "\r\n"@ =~= "DATA\r\n"@);
    assert("QUIT"@ + "\r\n"@ =~= "QUIT\r\n"@);
    assert("MAIL FROM:<admin@"@ + h.result.spoofed_domain + ">"@ + "\r\n"@ =~= "MAIL FROM:<admin@"@
        + h.result.spoofed_domain + ">\r\n"@);
}

/// A reply is logged with its phase, what was sent, its code and its trimmed text, and counts as a
/// success exactly for a code from 200 to 399. A success leads to the next phase of the script, a
/// refusal ends it, and after the farewell the message is delivered either way.
pub proof fn law_reply_moves_the_script(h: HandshakeView, raw: Seq<char>, phase: SmtpPhase)
    requires
        h.stage == Stage::Reading(phase),
    ensures
        ({
            let next = after_reply(h, raw);
            let step = next.result.steps.last();
            let success = 200 <= smtp_code(raw) <= 399;
            &&& next.result.steps.drop_last() == h.result.steps
            &&& step.phase == phase
            &&& step.command_sent == match phase {
                SmtpPhase::Ehlo => Some("EHLO attacker.local"@),
                SmtpPhase::MailFrom => Some(
                    "MAIL FROM:<admin@"@ + h.result.spoofed_domain + ">"@,
                ),
                SmtpPhase::RcptTo => Some("RCPT TO:<victim@example.com>"@),
                SmtpPhase::Data => Some("DATA"@),
                SmtpPhase::Body => Some("[message body + .]"@),
                SmtpPhase::Quit => Some("QUIT"@),
                SmtpPhase::Connect | SmtpPhase::Complete => None,
            }
            &&& step.response_code == smtp_code(raw)
            &&& step.response_text == trimmed(raw)
            &&& step.success == success
            &&& phase == SmtpPhase::Quit ==> next.stage == Stage::Finished && next.result.delivered
                && next.result.dropped_at == h.result.dropped_at
            &&& phase != SmtpPhase::Quit ==> next.result.delivered == h.result.delivered
            &&& phase != SmtpPhase::Quit && !success ==> next.stage == Stage::Finished
                && next.result.dropped_at == Some(phase)
            &&& phase != SmtpPhase::Quit && success ==> next.result.dropped_at
                == h.result.dropped_at
            &&& success && phase == SmtpPhase::Connect ==> next.stage == Stage::Sending(
                SmtpPhase::Ehlo,
            )
            &&& success && phase == SmtpPhase::Ehlo ==> next.stage == Stage::Sending(
                SmtpPhase::MailFrom,
            )
            &&& success && phase == SmtpPhase::MailFrom ==> next.stage == Stage::Sending(
                SmtpPhase::RcptTo,
            )
            &&& success && phase == SmtpPhase::RcptTo ==> next.stage == Stage::Sending(
                SmtpPhase::Data,
            )
            &&& success && phase == SmtpPhase::Data ==> next.stage == Stage::Sending(
                SmtpPhase::Body,
            )
            &&& success && phase == SmtpPhase::Body ==> next.stage == Stage::Sending(
                SmtpPhase::Quit,
            )
        }),
{
    let next = after_reply(h, raw);
    assert(next.result.steps.drop_last() =~= h.result.steps);
}

/// A connection leads to the banner and a command to its reply, with nothing logged; bytes are
/// taken for a reply, decoded.
pub proof fn law_progress_is_not_logged(h: HandshakeView, event: Event)
    requires
        fits(h.stage, event),
    ensures
        event is Connected ==> after(h, event).stage == Stage::Reading(SmtpPhase::Connect)
            && after(h, event).result == h.result,
        event is Sent && h.stage is Sending ==> after(h, event).stage == Stage::Reading(
            h.stage->Sending_0,
        ) && after(h, event).result == h.result,
        event matches Event::Received(bytes) ==> bytes@.len() > 0 ==> after(h, event)
            == after_reply(h, decoded_text(bytes@)),
{
}

/// Whatever breaks a step off is logged as a failure with code zero, in its phase, with what was
/// sent and what went wrong; it ends the script, and before the farewell it drops the message.
pub proof fn law_breakage_is_logged(h: HandshakeView, event: Event, phase: SmtpPhase)
    requires
        fits(h.stage, event),
        h.stage == Stage::Connecting && phase == SmtpPhase::Connect || h.stage == Stage::Sending(
            phase,
        ) || h.stage == Stage::Reading(phase),
        event !is Connected,
        event !is Sent,
        event matches Event::Received(bytes) ==> bytes@.len() == 0,
    ensures
        ({
            let next = after(h, event);
            let step = next.result.steps.last();
            &&& next.stage == Stage::Finished
            &&& next.result.steps.drop_last() == h.result.steps
            &&& step.phase == phase
            &&& step.response_code == 0
            &&& !step.success
            &&& phase != SmtpPhase::Quit ==> next.result.dropped_at == Some(phase)
                && next.result.delivered == h.result.delivered
            &&& phase == SmtpPhase::Quit ==> next.result.delivered && next.result.dropped_at
                == h.result.dropped_at
            &&& h.stage == Stage::Connecting ==> step.command_sent is None
            &&& h.stage !is Connecting ==> step.command_sent == match phase {
                SmtpPhase::Ehlo => Some("EHLO attacker.local"@),
                SmtpPhase::MailFrom => Some(
                    "MAIL FROM:<admin@"@ + h.result.spoofed_domain + ">"@,
                ),
                SmtpPhase::RcptTo => Some("RCPT TO:<victim@example.com>"@),
                SmtpPhase::Data => Some("DATA"@),
                SmtpPhase::Body => Some(
                    if h.stage is Sending {
                        "[message body]"@
                    } else {
                        "[message body + .]"@
                    },
                ),
                SmtpPhase::Quit => Some("QUIT"@),
                SmtpPhase::Connect | SmtpPhase::Complete => None,
            }
            &&& event matches Event::ConnectFailed(e) ==> step.response_text
                == "CONNECTION_REFUSED: "@ + e@
            &&& event is ConnectTimedOut ==> step.response_text
                == "TIMEOUT: TCP connection timed out"@
            &&& event matches Event::SendFailed(e) ==> step.response_text == "IO_ERROR: "@ + e@
            &&& event is SendTimedOut && phase == SmtpPhase::Body ==> step.response_text
                == "TIMEOUT: Body write timed out"@
            &&& event is SendTimedOut && phase != SmtpPhase::Body ==> step.response_text
                == "TIMEOUT: Write timed out"@
            &&& event is Received ==> step.response_text
                == "CONNECTION_CLOSED: Server closed the connection"@
            &&& event matches Event::ReadFailed(e) ==> step.response_text == "IO_ERROR: "@ + e@
            &&& event is ReadTimedOut ==> step.response_text == "TIMEOUT: Read timed out"@
        }),
{
    let next = after(h, event);
    assert(next.result.steps.drop_last() =~= h.result.steps);
}

/// A handshake begins unconnected, with an empty log and nothing delivered, dropped or compared.
pub proof fn law_handshake_begins_empty(host: Seq<char>, port: u16, domain: Seq<char>)
    ensures
        ({
            let h = initial(host, port, domain);
            &&& h.stage == Stage::Connecting
            &&& h.result.target_host == host
            &&& h.result.target_port == port
            &&& h.result.spoofed_domain == domain
            &&& h.result.steps.len() == 0
            &&& h.result.dropped_at is None
            &&& !h.result.delivered
            &&& h.result.theory_match is None
        }),
{
}

/// The test message, line by line: it claims the domain in its sender and its text, carries the
/// date, and ends with a dot on a line of its own.
pub proof fn law_message_line_by_line(domain: Seq<char>, date: Seq<char>)
    ensures
        message_text(domain, date) == "From: \"CEO\" <ceo@"@ + domain + ">\r\n"@
            + "To: victim@example.com\r\n"@
            + "Subject: [SPOOF TEST] Email Security Assessment\r\n"@ + "Date: "@ + date + "\r\n"@
            + "X-Spoof-Test: email-sec-cli/0.3.0\r\n"@ + "MIME-Version: 1.0\r\n"@
            + "Content-Type: text/plain; charset=utf-8\r\n"@ + "\r\n"@
            + "This is an automated spoof test from the email-sec CLI.\r\n"@
            + "If you received this, the domain "@ + domain
            + " may be vulnerable to spoofing.\r\n"@ + ".\r\n"@,
{
    let top = ">\r\nTo: victim@example.com\r\nSubject: [SPOOF TEST] Email Security Assessment\r\nDate: "@;
    assert(top =~= ">\r\n"@ + "To: victim@example.com\r\n"@
        + "Subject: [SPOOF TEST] Email Security Assessment\r\n"@ + "Date: "@) by {
        reveal_strlit(">\r\nTo: victim@example.com\r\nSubject: [SPOOF TEST] Email Security Assessment\r\nDate: ");
        reveal_strlit(">\r\n");
        reveal_strlit("To: victim@example.com\r\n");
        reveal_strlit("Subject: [SPOOF TEST] Email Security Assessment\r\n");
        reveal_strlit("Date: ");
    }
    let middle = "\r\nX-Spoof-Test: email-sec-cli/0.3.0\r\nMIME-Version: 1.0\r\nContent-Type: text/plain; charset=utf-8\r\n\r\nThis is an automated spoof test from the email-sec CLI.\r\nIf you received this, the domain "@;
    assert(middle =~= "\r\n"@ + "X-Spoof-Test: email-sec-cli/0.3.0\r\n"@ + "MIME-Version: 1.0\r\n"@
        + "Content-Type: text/plain; charset=utf-8\r\n"@ + "\r\n"@
        + "This is an automated spoof test from the email-sec CLI.\r\n"@
        + "If you received this, the domain "@) by {
        reveal_strlit("\r\nX-Spoof-Test: email-sec-cli/0.3.0\r\nMIME-Version: 1.0\r\nContent-Type: text/plain; charset=utf-8\r\n\r\nThis is an automated spoof test from the email-sec CLI.\r\nIf you received this, the domain ");
        reveal_strlit("\r\n");
        reveal_strlit("X-Spoof-Test: email-sec-cli/0.3.0\r\n");
        reveal_strlit("MIME-Version: 1.0\r\n");
        reveal_strlit("Content-Type: text/plain; charset=utf-8\r\n");
        reveal_strlit("This is an automated spoof test from the email-sec CLI.\r\n");
        reveal_strlit("If you received this, the domain ");
    }
    let end = " may be vulnerable to spoofing.\r\n.\r\n"@;
    assert(end =~= " may be vulnerable to spoofing.\r\n"@ + ".\r\n"@) by {
        reveal_strlit(" may be vulnerable to spoofing.\r\n.\r\n");
        reveal_strlit(" may be vulnerable to spoofing.\r\n");
        reveal_strlit(".\r\n");
    }
    assert(message_text(domain, date) =~= "From: \"CEO\" <ceo@"@ + domain + ">\r\n"@
        + "To: victim@example.com\r\n"@ + "Subject: [SPOOF TEST] Email Security Assessment\r\n"@
        + "Date: "@ + date + "\r\n"@ + "X-Spoof-Test: email-sec-cli/0.3.0\r\n"@
        + "MIME-Version: 1.0\r\n"@ + "Content-Type: text/plain; charset=utf-8\r\n"@ + "\r\n"@
        + "This is an automated spoof test from the email-sec CLI.\r\n"@
        + "If you received this, the domain "@ + domain + " may be vulnerable to spoofing.\r\n"@
        + ".\r\n"@);
}

} // verus!

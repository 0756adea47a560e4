//! The types that the modules share, and the mathematical view of each.

use vstd::prelude::*;

verus! {

broadcast use vstd::string::group_string_axioms;

// ─── Policies, risk and phases ─────────────────────────────────────

/// What an SPF record says of senders that it does not list.
#[derive(Debug, Clone, Copy, PartialEq, Eq, Structural)]
pub enum SpfQualifier {
    /// `+all`
    Pass,
    /// `?all`
    Neutral,
    /// `~all`
    SoftFail,
    /// `-all`
    Fail,
    /// The record names no `all` mechanism that says so.
    Missing,
}

impl SpfQualifier {
    /// The name shown for it.
    pub open spec fn label(self) -> Seq<char> {
        match self {
            SpfQualifier::Pass => "+all (Pass)"@,
            SpfQualifier::Neutral => "?all (Neutral)"@,
            SpfQualifier::SoftFail => "~all (SoftFail)"@,
            SpfQualifier::Fail => "-all (Fail)"@,
            SpfQualifier::Missing => "Missing"@,
        }
    }

    /// The name shown for it.
    pub fn to_string(&self) -> (r: String)
        ensures
            r@ == self.label(),
    {
        let label = match self {
            SpfQualifier::Pass => "+all (Pass)",
            SpfQualifier::Neutral => "?all (Neutral)",
            SpfQualifier::SoftFail => "~all (SoftFail)",
            SpfQualifier::Fail => "-all (Fail)",
            SpfQualifier::Missing => "Missing",
        };
        label.to_owned()
    }
}

impl DeepView for SpfQualifier {
    type V = SpfQualifier;

    open spec fn deep_view(&self) -> SpfQualifier {
        *self
    }
}

/// What a DMARC record asks of receivers for mail that fails.
#[derive(Debug, Clone, Copy, PartialEq, Eq, Structural)]
pub enum DmarcPolicy {
    /// `p=reject`
    Reject,
    /// `p=quarantine`
    Quarantine,
    /// `p=none`
    NoAction,
    /// No policy tag, or an unknown one.
    Missing,
}

impl DmarcPolicy {
    /// The name shown for it.
    pub open spec fn label(self) -> Seq<char> {
        match self {
            DmarcPolicy::Reject => "reject"@,
            DmarcPolicy::Quarantine => "quarantine"@,
            DmarcPolicy::NoAction => "none"@,
            DmarcPolicy::Missing => "Missing"@,
        }
    }

    /// The name shown for it.
    pub fn to_string(&self) -> (r: String)
        ensures
            r@ == self.label(),
    {
        let label = match self {
            DmarcPolicy::Reject => "reject",
            DmarcPolicy::Quarantine => "quarantine",
            DmarcPolicy::NoAction => "none",
            DmarcPolicy::Missing => "Missing",
        };
        label.to_owned()
    }
}

impl DeepView for DmarcPolicy {
    type V = DmarcPolicy;

    open spec fn deep_view(&self) -> DmarcPolicy {
        *self
    }
}

/// How closely the domains of DKIM or SPF must agree with the header domain.
#[derive(Debug, Clone, Copy, PartialEq, Eq, Structural)]
pub enum AlignmentMode {
    /// `s`
    Strict,
    /// `r`
    Relaxed,
    /// No alignment tag, or an unknown one.
    Unset,
}

impl AlignmentMode {
    /// The name shown for it.
    pub open spec fn label(self) -> Seq<char> {
        match self {
            AlignmentMode::Strict => "strict (s)"@,
            AlignmentMode::Relaxed => "relaxed (r)"@,
            AlignmentMode::Unset => "unset (defaults to relaxed)"@,
        }
    }

    /// The name shown for it.
    pub fn to_string(&self) -> (r: String)
        ensures
            r@ == self.label(),
    {
        let label = match self {
            AlignmentMode::Strict => "strict (s)",
            AlignmentMode::Relaxed => "relaxed (r)",
            AlignmentMode::Unset => "unset (defaults to relaxed)",
        };
        label.to_owned()
    }
}

impl DeepView for AlignmentMode {
    type V = AlignmentMode;

    open spec fn deep_view(&self) -> AlignmentMode {
        *self
    }
}

/// How exposed a domain is.
#[derive(Debug, Clone, Copy, PartialEq, Eq, Structural)]
pub enum RiskLevel {
    /// A score up to 29.
    Low,
    /// A score from 30 to 59.
    Medium,
    /// A score from 60 to 79.
    High,
    /// A score from 80 on.
    Critical,
}

impl RiskLevel {
    /// The name shown for it.
    pub open spec fn label(self) -> Seq<char> {
        match self {
            RiskLevel::Low => "LOW"@,
            RiskLevel::Medium => "MEDIUM"@,
            RiskLevel::High => "HIGH"@,
            RiskLevel::Critical => "CRITICAL"@,
        }
    }

    /// The name shown for it.
    pub fn to_string(&self) -> (r: String)
        ensures
            r@ == self.label(),
    {
        let label = match self {
            RiskLevel::Low => "LOW",
            RiskLevel::Medium => "MEDIUM",
            RiskLevel::High => "HIGH",
            RiskLevel::Critical => "CRITICAL",
        };
        label.to_owned()
    }
}

impl DeepView for RiskLevel {
    type V = RiskLevel;

    open spec fn deep_view(&self) -> RiskLevel {
        *self
    }
}

/// The phases of an SMTP transaction.
#[derive(Debug, Clone, Copy, PartialEq, Eq, Structural)]
pub enum SmtpPhase {
    /// Connecting and the server's banner.
    Connect,
    /// `EHLO`
    Ehlo,
    /// `MAIL FROM`
    MailFrom,
    /// `RCPT TO`
    RcptTo,
    /// `DATA`
    Data,
    /// The message and the dot behind it.
    Body,
    /// `QUIT`
    Quit,
    /// Everything is done.
    Complete,
}

impl SmtpPhase {
    /// The name shown for it.
    pub open spec fn label(self) -> Seq<char> {
        match self {
            SmtpPhase::Connect => "TCP_CONNECT"@,
            SmtpPhase::Ehlo => "EHLO"@,
            SmtpPhase::MailFrom => "MAIL_FROM"@,
            SmtpPhase::RcptTo => "RCPT_TO"@,
            SmtpPhase::Data => "DATA"@,
            SmtpPhase::Body => "BODY_END"@,
            SmtpPhase::Quit => "QUIT"@,
            SmtpPhase::Complete => "COMPLETE"@,
        }
    }

    /// The name shown for it.
    pub fn to_string(&self) -> (r: String)
        ensures
            r@ == self.label(),
    {
        let label = match self {
            SmtpPhase::Connect => "TCP_CONNECT",
            SmtpPhase::Ehlo => "EHLO",
            SmtpPhase::MailFrom => "MAIL_FROM",
            SmtpPhase::RcptTo => "RCPT_TO",
            SmtpPhase::Data => "DATA",
            SmtpPhase::Body => "BODY_END",
            SmtpPhase::Quit => "QUIT",
            SmtpPhase::Complete => "COMPLETE",
        };
        label.to_owned()
    }
}

impl DeepView for SmtpPhase {
    type V = SmtpPhase;

    open spec fn deep_view(&self) -> SmtpPhase {
        *self
    }
}

// ─── Records, findings and results ─────────────────────────────────

/// A parsed SPF record.
#[derive(Debug, Clone)]
pub struct SpfRecord {
    /// The record as published.
    pub raw: String,
    /// What it says of other senders.
    pub qualifier: SpfQualifier,
    /// Its terms but for the version and the `all` mechanism.
    pub mechanisms: Vec<String>,
}

/// The view of a `SpfRecord`.
pub struct SpfRecordView {
    pub raw: Seq<char>,
    pub qualifier: SpfQualifier,
    pub mechanisms: Seq<Seq<char>>,
}

impl View for SpfRecord {
    type V = SpfRecordView;

    open spec fn view(&self) -> SpfRecordView {
        SpfRecordView {
            raw: self.raw@,
            qualifier: self.qualifier,
            mechanisms: self.mechanisms.deep_view(),
        }
    }
}

impl DeepView for SpfRecord {
    type V = SpfRecordView;

    open spec fn deep_view(&self) -> SpfRecordView {
        self@
    }
}

/// A parsed DKIM key record.
#[derive(Debug, Clone)]
pub struct DkimKey {
    /// The selector it was found under.
    pub selector: String,
    /// The record as published.
    pub raw: String,
    /// `rsa` or `ed25519`.
    pub key_type: String,
    /// The base64 text of the `p` tag.
    pub public_key: String,
    /// The key size that the base64 text suggests.
    pub key_bits_approx: usize,
    /// Whether it names its version and holds a key.
    pub valid_syntax: bool,
}

/// The view of a `DkimKey`.
pub struct DkimKeyView {
    pub selector: Seq<char>,
    pub raw: Seq<char>,
    pub key_type: Seq<char>,
    pub public_key: Seq<char>,
    pub key_bits_approx: usize,
    pub valid_syntax: bool,
}

impl View for DkimKey {
    type V = DkimKeyView;

    open spec fn view(&self) -> DkimKeyView {
        DkimKeyView {
            selector: self.selector@,
            raw: self.raw@,
            key_type: self.key_type@,
            public_key: self.public_key@,
            key_bits_approx: self.key_bits_approx,
            valid_syntax: self.valid_syntax,
        }
    }
}

impl DeepView for DkimKey {
    type V = DkimKeyView;

    open spec fn deep_view(&self) -> DkimKeyView {
        self@
    }
}

/// A parsed DMARC record.
#[derive(Debug, Clone)]
pub struct DmarcRecord {
    /// The record as published.
    pub raw: String,
    /// The `p` tag.
    pub policy: DmarcPolicy,
    /// The `sp` tag.
    pub subdomain_policy: Option<DmarcPolicy>,
    /// Where aggregate reports go.
    pub rua: Option<String>,
    /// Where forensic reports go.
    pub ruf: Option<String>,
    /// The share of mail that the policy applies to.
    pub pct: u8,
    /// DKIM alignment.
    pub adkim: AlignmentMode,
    /// SPF alignment.
    pub aspf: AlignmentMode,
}

/// The view of a `DmarcRecord`.
pub struct DmarcRecordView {
    pub raw: Seq<char>,
    pub policy: DmarcPolicy,
    pub subdomain_policy: Option<DmarcPolicy>,
    pub rua: Option<Seq<char>>,
    pub ruf: Option<Seq<char>>,
    pub pct: u8,
    pub adkim: AlignmentMode,
    pub aspf: AlignmentMode,
}

impl View for DmarcRecord {
    type V = DmarcRecordView;

    open spec fn view(&self) -> DmarcRecordView {
        DmarcRecordView {
            raw: self.raw@,
            policy: self.policy,
            subdomain_policy: self.subdomain_policy,
            rua: self.rua.deep_view(),
            ruf: self.ruf.deep_view(),
            pct: self.pct,
            adkim: self.adkim,
            aspf: self.aspf,
        }
    }
}

impl DeepView for DmarcRecord {
    type V = DmarcRecordView;

    open spec fn deep_view(&self) -> DmarcRecordView {
        self@
    }
}

/// What a DNS query did.
#[derive(Debug, Clone)]
pub struct QueryMeta {
    /// The name asked for.
    pub query: String,
    /// How long it took.
    pub latency_ms: u64,
    /// The text that came back.
    pub raw_response: Option<String>,
    /// How it ended.
    pub status: String,
}

/// The view of a `QueryMeta`.
pub struct QueryMetaView {
    pub query: Seq<char>,
    pub latency_ms: u64,
    pub raw_response: Option<Seq<char>>,
    pub status: Seq<char>,
}

impl View for QueryMeta {
    type V = QueryMetaView;

    open spec fn view(&self) -> QueryMetaView {
        QueryMetaView {
            query: self.query@,
            latency_ms: self.latency_ms,
            raw_response: self.raw_response.deep_view(),
            status: self.status@,
        }
    }
}

impl DeepView for QueryMeta {
    type V = QueryMetaView;

    open spec fn deep_view(&self) -> QueryMetaView {
        self@
    }
}

/// A finding and what mends it.
#[derive(Debug, Clone)]
pub struct Remediation {
    /// How grave it is.
    pub severity: RiskLevel,
    /// What is wrong.
    pub description: String,
    /// What to publish.
    pub dns_fix: String,
    /// The fix for a BIND zone.
    pub bind_command: String,
    /// The fix for PowerShell.
    pub ps_command: String,
}

/// The view of a `Remediation`.
pub struct RemediationView {
    pub severity: RiskLevel,
    pub description: Seq<char>,
    pub dns_fix: Seq<char>,
    pub bind_command: Seq<char>,
    pub ps_command: Seq<char>,
}

impl View for Remediation {
    type V = RemediationView;

    open spec fn view(&self) -> RemediationView {
        RemediationView {
            severity: self.severity,
            description: self.description@,
            dns_fix: self.dns_fix@,
            bind_command: self.bind_command@,
            ps_command: self.ps_command@,
        }
    }
}

impl DeepView for Remediation {
    type V = RemediationView;

    open spec fn deep_view(&self) -> RemediationView {
        self@
    }
}

/// What one filter stage makes of spoofed mail.
#[derive(Debug, Clone)]
pub struct SpoofTestResult {
    /// The stage.
    pub stage: String,
    /// Its verdict.
    pub verdict: String,
    /// Why.
    pub detail: String,
}

/// The view of a `SpoofTestResult`.
pub struct SpoofTestResultView {
    pub stage: Seq<char>,
    pub verdict: Seq<char>,
    pub detail: Seq<char>,
}

impl View for SpoofTestResult {
    type V = SpoofTestResultView;

    open spec fn view(&self) -> SpoofTestResultView {
        SpoofTestResultView {
            stage: self.stage@,
            verdict: self.verdict@,
            detail: self.detail@,
        }
    }
}

impl DeepView for SpoofTestResult {
    type V = SpoofTestResultView;

    open spec fn deep_view(&self) -> SpoofTestResultView {
        self@
    }
}

/// One step of an SMTP handshake.
#[derive(Debug, Clone)]
pub struct SmtpStep {
    /// The phase it belongs to.
    pub phase: SmtpPhase,
    /// What was sent.
    pub command_sent: Option<String>,
    /// The server's code, or zero where there was none.
    pub response_code: u16,
    /// The server's answer, or what went wrong.
    pub response_text: String,
    /// Whether the handshake may go on.
    pub success: bool,
}

/// The view of a `SmtpStep`.
pub struct SmtpStepView {
    pub phase: SmtpPhase,
    pub command_sent: Option<Seq<char>>,
    pub response_code: u16,
    pub response_text: Seq<char>,
    pub success: bool,
}

impl View for SmtpStep {
    type V = SmtpStepView;

    open spec fn view(&self) -> SmtpStepView {
        SmtpStepView {
            phase: self.phase,
            command_sent: self.command_sent.deep_view(),
            response_code: self.response_code,
            response_text: self.response_text@,
            success: self.success,
        }
    }
}

impl DeepView for SmtpStep {
    type V = SmtpStepView;

    open spec fn deep_view(&self) -> SmtpStepView {
        self@
    }
}

/// The outcome of an SMTP handshake.
#[derive(Debug, Clone)]
pub struct SmtpHandshakeResult {
    /// The server's host.
    pub target_host: String,
    /// The server's port.
    pub target_port: u16,
    /// The domain that the mail claims to come from.
    pub spoofed_domain: String,
    /// What happened, in order.
    pub steps: Vec<SmtpStep>,
    /// The phase in which the server or the network gave up.
    pub dropped_at: Option<SmtpPhase>,
    /// Whether the server took the message.
    pub delivered: bool,
    /// How this compares with the prediction.
    pub theory_match: Option<String>,
}

/// The view of a `SmtpHandshakeResult`.
pub struct SmtpHandshakeResultView {
    pub target_host: Seq<char>,
    pub target_port: u16,
    pub spoofed_domain: Seq<char>,
    pub steps: Seq<SmtpStepView>,
    pub dropped_at: Option<SmtpPhase>,
    pub delivered: bool,
    pub theory_match: Option<Seq<char>>,
}

impl View for SmtpHandshakeResult {
    type V = SmtpHandshakeResultView;

    open spec fn view(&self) -> SmtpHandshakeResultView {
        SmtpHandshakeResultView {
            target_host: self.target_host@,
            target_port: self.target_port,
            spoofed_domain: self.spoofed_domain@,
            steps: self.steps.deep_view(),
            dropped_at: self.dropped_at,
            delivered: self.delivered,
            theory_match: self.theory_match.deep_view(),
        }
    }
}

impl DeepView for SmtpHandshakeResult {
    type V = SmtpHandshakeResultView;

    open spec fn deep_view(&self) -> SmtpHandshakeResultView {
        self@
    }
}

/// Everything found out about a domain.
#[derive(Debug, Clone)]
pub struct DomainPosture {
    /// The domain.
    pub domain: String,
    /// When it was assessed.
    pub timestamp: String,
    /// The SPF record as published.
    pub raw_spf: Option<String>,
    /// The DMARC record as published.
    pub raw_dmarc: Option<String>,
    /// The SPF record.
    pub spf: Option<SpfRecord>,
    /// The DMARC record.
    pub dmarc: Option<DmarcRecord>,
    /// The DKIM keys found.
    pub dkim_keys: Vec<DkimKey>,
    /// The risk score.
    pub risk_score: u8,
    /// The risk level.
    pub risk_level: RiskLevel,
    /// What to mend.
    pub remediations: Vec<Remediation>,
    /// The DNS queries made.
    pub query_log: Vec<QueryMeta>,
    /// The predicted fate of spoofed mail.
    pub spoof_results: Vec<SpoofTestResult>,
    /// The live handshake.
    pub smtp_handshake: Option<SmtpHandshakeResult>,
}

/// The view of a `DomainPosture`.
pub struct PostureView {
    pub domain: Seq<char>,
    pub timestamp: Seq<char>,
    pub raw_spf: Option<Seq<char>>,
    pub raw_dmarc: Option<Seq<char>>,
    pub spf: Option<SpfRecordView>,
    pub dmarc: Option<DmarcRecordView>,
    pub dkim_keys: Seq<DkimKeyView>,
    pub risk_score: u8,
    pub risk_level: RiskLevel,
    pub remediations: Seq<RemediationView>,
    pub query_log: Seq<QueryMetaView>,
    pub spoof_results: Seq<SpoofTestResultView>,
    pub smtp_handshake: Option<SmtpHandshakeResultView>,
}

impl View for DomainPosture {
    type V = PostureView;

    open spec fn view(&self) -> PostureView {
        PostureView {
            domain: self.domain@,
            timestamp: self.timestamp@,
            raw_spf: self.raw_spf.deep_view(),
            raw_dmarc: self.raw_dmarc.deep_view(),
            spf: self.spf.deep_view(),
            dmarc: self.dmarc.deep_view(),
            dkim_keys: self.dkim_keys.deep_view(),
            risk_score: self.risk_score,
            risk_level: self.risk_level,
            remediations: self.remediations.deep_view(),
            query_log: self.query_log.deep_view(),
            spoof_results: self.spoof_results.deep_view(),
            smtp_handshake: self.smtp_handshake.deep_view(),
        }
    }
}

impl DeepView for DomainPosture {
    type V = PostureView;

    open spec fn deep_view(&self) -> PostureView {
        self@
    }
}

// ─── Laws ──────────────────────────────────────────────────────────

/// A qualifier is shown with the sign that stands before `all`, a policy by the word that a record
/// writes for it, an alignment by its word and its letter.
pub proof fn law_labels_show_what_records_say()
    ensures
        SpfQualifier::Pass.label() == "+all (Pass)"@,
        SpfQualifier::Neutral.label() == "?all (Neutral)"@,
        SpfQualifier::SoftFail.label() == "~all (SoftFail)"@,
        SpfQualifier::Fail.label() == "-all (Fail)"@,
        SpfQualifier::Missing.label() == "Missing"@,
        DmarcPolicy::Reject.label() == "reject"@,
        DmarcPolicy::Quarantine.label() == "quarantine"@,
        DmarcPolicy::NoAction.label() == "none"@,
        DmarcPolicy::Missing.label() == "Missing"@,
        AlignmentMode::Strict.label() == "strict (s)"@,
        AlignmentMode::Relaxed.label() == "relaxed (r)"@,
        AlignmentMode::Unset.label() == "unset (defaults to relaxed)"@,
{
}

/// A level of risk is shown in capitals, and a phase by the command that it waits on.
pub proof fn law_labels_show_levels_and_phases()
    ensures
        RiskLevel::Low.label() == "LOW"@,
        RiskLevel::Medium.label() == "MEDIUM"@,
        RiskLevel::High.label() == "HIGH"@,
        RiskLevel::Critical.label() == "CRITICAL"@,
        SmtpPhase::Connect.label() == "TCP_CONNECT"@,
        SmtpPhase::Ehlo.label() == "EHLO"@,
        SmtpPhase::MailFrom.label() == "MAIL_FROM"@,
        SmtpPhase::RcptTo.label() == "RCPT_TO"@,
        SmtpPhase::Data.label() == "DATA"@,
        SmtpPhase::Body.label() == "BODY_END"@,
        SmtpPhase::Quit.label() == "QUIT"@,
        SmtpPhase::Complete.label() == "COMPLETE"@,
{
}

} // verus!

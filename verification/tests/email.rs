use email_sec::email_parser::{analyze, classify, parse_and_print_headers, prepare, HeaderKind};
use email_sec::page::{Page, Style};

fn text(page: &Page) -> String {
    page.spans.iter().map(|s| s.text.as_str()).collect()
}

fn styled(page: &Page, style: Style) -> Vec<String> {
    page.spans.iter().filter(|s| s.style == style).map(|s| s.text.clone()).collect()
}

fn headers(list: &[(&str, &str)]) -> Page {
    let owned: Vec<(String, String)> =
        list.iter().map(|(k, v)| (k.to_string(), v.to_string())).collect();
    analyze(&prepare(&owned))
}

#[test]
fn kinds_of_headers() {
    assert_eq!(classify("from"), HeaderKind::From);
    assert_eq!(classify("received"), HeaderKind::Received);
    assert_eq!(classify("dkim-signature"), HeaderKind::DkimSignature);
    assert_eq!(classify("received-spf"), HeaderKind::ReceivedSpf);
    assert_eq!(classify("authentication-results"), HeaderKind::AuthenticationResults);
    assert_eq!(classify("From"), HeaderKind::Other);
}

#[test]
fn whole_mail() {
    let mail = "Received: from a by b\r\nFrom: \"CEO\" <ceo@test.com>\r\nSubject: hi\r\nDKIM-Signature: v=1; a=rsa\r\nReceived-SPF: Pass (ok)\r\nAuthentication-Results: mx; spf=pass dkim=FAIL dmarc=none\r\n\r\nbody\r\n";
    let page = parse_and_print_headers(mail).unwrap();
    assert_eq!(
        text(&page),
        "\n── EMAIL HEADER ANALYSIS ────────────────\n  Received: from a by b\n  From: \"CEO\" <ceo@test.com>\n  DKIM-Signature: Present\n\n── RECEIVED-SPF ─────────────────────────\n  [PASS] Pass (ok)\n\n── AUTHENTICATION-RESULTS ───────────────\n  Raw: mx; spf=pass dkim=FAIL dmarc=none\n  Verdicts: SPF=PASS DKIM=FAIL DMARC=OTHER \n─────────────────────────────────────────\n\n"
    );
    assert_eq!(styled(&page, Style::GreenBold), vec!["PASS", "SPF=PASS"]);
    assert_eq!(styled(&page, Style::RedBold), vec!["DKIM=FAIL"]);
    assert_eq!(styled(&page, Style::YellowBold), vec!["DMARC=OTHER"]);
    assert_eq!(styled(&page, Style::Bold), vec!["Received:", "From:", "DKIM-Signature:"]);
}

#[test]
fn encoded_words_are_decoded() {
    let page = parse_and_print_headers("From: =?utf-8?q?J=C3=BCrgen?= <j@test.com>\n\n").unwrap();
    assert!(text(&page).contains("  From: Jürgen <j@test.com>\n"));
}

#[test]
fn broken_mail_is_complained_about() {
    let page = parse_and_print_headers(" folded first").unwrap_err();
    assert_eq!(
        text(&page),
        "Error: Failed to parse email: Header cannot start with a space; it is likely an overhanging line from a previous header\n"
    );
    assert_eq!(page.spans[0].style, Style::RedBold);
}

#[test]
fn statuses_of_received_spf() {
    let status = |value: &str| headers(&[("Received-SPF", value)]).spans[7].clone();
    assert_eq!(status("PASS x").text, "PASS");
    assert_eq!(status("softfail").text, "FAIL");
    assert_eq!(status("fail but pass").text, "PASS");
    assert_eq!(status("none").text, "NEUTRAL");
    assert_eq!(status("none").style, Style::YellowBold);
}

#[test]
fn only_first_lines_are_shown() {
    let page = headers(&[("Received", " a b \n c"), ("received-spf", "\n none \n more")]);
    let shown = text(&page);
    assert!(shown.contains("  Received: a b\n"));
    assert!(shown.contains("  [NEUTRAL] none\n"));
    let page = headers(&[("Received", "\nb")]);
    assert!(text(&page).contains("  Received: \n"));
}

#[test]
fn verdicts_of_authentication_results() {
    let verdicts = |value: &str| {
        let shown = text(&headers(&[("Authentication-Results", value)]));
        let from = shown.find("  Verdicts: ").unwrap();
        shown[from..].lines().next().unwrap().to_string()
    };
    assert_eq!(verdicts("mx"), "  Verdicts: ");
    assert_eq!(verdicts("spf=fail dkim=pass dmarc=pass"), "  Verdicts: SPF=FAIL DKIM=PASS DMARC=PASS ");
    assert_eq!(verdicts("SPF=softfail DKIM=none DMARC=FAIL"), "  Verdicts: SPF=OTHER DKIM=OTHER DMARC=FAIL ");
}

#[test]
fn other_headers_do_not_matter() {
    let a = headers(&[("From", "x"), ("Subject", "spf=pass"), ("Received-SPF", "pass"), ("X", "y")]);
    let b = headers(&[("From", "x"), ("Received-SPF", "pass")]);
    assert_eq!(text(&a), text(&b));
}

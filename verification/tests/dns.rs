use email_sec::dns::{
    collect_keys, discover_dkim, dkim_query, dkim_selectors, dmarc_query, fetch_txt_all,
    get_dmarc, get_spf, probe_selector, Lookup,
};

fn found(records: &[&[&str]]) -> Lookup {
    Lookup::Found(
        records
            .iter()
            .map(|r| r.iter().map(|c| c.as_bytes().to_vec()).collect())
            .collect(),
    )
}

#[test]
fn names_that_are_asked_for() {
    assert_eq!(dmarc_query("test.com"), "_dmarc.test.com");
    assert_eq!(dkim_query("s1", "test.com"), "s1._domainkey.test.com");
    let selectors = dkim_selectors();
    assert_eq!(selectors.len(), 15);
    for i in 0..selectors.len() {
        for j in 0..i {
            assert_ne!(selectors[i], selectors[j]);
        }
    }
    assert_eq!(selectors[0], "default");
    assert_eq!(selectors[14], "s2");
}

#[test]
fn texts_are_joined_from_chunks() {
    let lookup = found(&[&["v=spf1 ", "-all"], &[""], &[], &["x"]]);
    let (texts, meta) = fetch_txt_all("test.com", 12, lookup);
    assert_eq!(texts, vec!["v=spf1 -all".to_string(), "x".to_string()]);
    assert_eq!(meta.query, "test.com");
    assert_eq!(meta.latency_ms, 12);
    assert_eq!(meta.raw_response, Some("v=spf1 -all | x".to_string()));
    assert_eq!(meta.status, "OK");
}

#[test]
fn bytes_that_are_no_text_are_replaced() {
    let (texts, _) = fetch_txt_all("q", 0, Lookup::Found(vec![vec![vec![0x61, 0xff]]]));
    assert_eq!(texts, vec!["a\u{fffd}".to_string()]);
}

#[test]
fn errors_and_timeouts() {
    let (texts, meta) = fetch_txt_all("q", 3, Lookup::Failed("no such name".to_string()));
    assert!(texts.is_empty());
    assert_eq!(meta.status, "DNS_ERROR: no such name");
    assert_eq!(meta.raw_response, None);
    let (texts, meta) = fetch_txt_all("q", 5000, Lookup::TimedOut);
    assert!(texts.is_empty());
    assert_eq!(meta.status, "TIMEOUT");
    assert_eq!(meta.latency_ms, 5000);
}

#[test]
fn first_spf_record_is_picked() {
    let (spf, meta) = get_spf("d", 1, found(&[&["x"], &["v=spf1 a"], &["v=spf1 b"]]));
    assert_eq!(spf, Some("v=spf1 a".to_string()));
    assert_eq!(meta.status, "OK");
    let (spf, meta) = get_spf("d", 1, found(&[&[" v=spf1 a"]]));
    assert_eq!(spf, None);
    assert_eq!(meta.status, "NO_SPF_RECORD");
    assert_eq!(meta.raw_response, Some(" v=spf1 a".to_string()));
    let (spf, meta) = get_spf("d", 1, Lookup::TimedOut);
    assert_eq!(spf, None);
    assert_eq!(meta.status, "TIMEOUT");
}

#[test]
fn dmarc_record_is_picked() {
    let (dmarc, meta) = get_dmarc("d", 1, found(&[&["v=DMARC1;", " p=none"]]));
    assert_eq!(dmarc, Some("v=DMARC1; p=none".to_string()));
    assert_eq!(meta.query, "_dmarc.d");
    let (dmarc, meta) = get_dmarc("d", 1, found(&[]));
    assert_eq!(dmarc, None);
    assert_eq!(meta.status, "NO_DMARC_RECORD");
    let (_, meta) = get_dmarc("d", 1, Lookup::Failed("e".to_string()));
    assert_eq!(meta.status, "DNS_ERROR: e");
}

#[test]
fn valid_keys_are_discovered() {
    let probes = vec![
        probe_selector("s1", "d", 1, found(&[&["v=DKIM1; ", "p=abcd"]])),
        probe_selector("s2", "d", 2, found(&[&["v=DKIM1; p="]])),
        probe_selector("k1", "d", 3, Lookup::Failed("e".to_string())),
        probe_selector("k2", "d", 4, Lookup::TimedOut),
        probe_selector("mta", "d", 5, found(&[&["v=DKIM1;"], &["k=ed25519; p=ab"]])),
    ];
    let (keys, log) = collect_keys(probes);
    assert_eq!(keys.len(), 2);
    assert_eq!(keys[0].selector, "s1");
    assert_eq!(keys[0].public_key, "abcd");
    assert_eq!(keys[1].selector, "mta");
    assert_eq!(keys[1].key_type, "ed25519");
    assert_eq!(keys[1].raw, "v=DKIM1;k=ed25519; p=ab");
    assert!(keys.iter().all(|k| k.valid_syntax));
    let status: Vec<String> = log.iter().map(|m| m.status.clone()).collect();
    assert_eq!(status, vec!["OK", "OK", "DNS_ERROR: e", "TIMEOUT", "OK"]);
    assert_eq!(log[0].query, "s1._domainkey.d");
    assert_eq!(log[1].raw_response, Some("v=DKIM1; p=".to_string()));
    assert_eq!(log[3].latency_ms, 4);
}

#[test]
fn replies_go_with_selectors_in_order() {
    let replies = vec![
        Some((1, found(&[&["v=DKIM1; p=ab"]]))),
        None,
        Some((3, Lookup::TimedOut)),
        Some((4, found(&[&["v=DKIM1; p=cd"]]))),
    ];
    let (keys, log) = discover_dkim("d", replies);
    let names: Vec<String> = keys.iter().map(|k| k.selector.clone()).collect();
    assert_eq!(names, vec!["default", "selector1"]);
    let queries: Vec<String> = log.iter().map(|m| m.query.clone()).collect();
    assert_eq!(queries, vec!["default._domainkey.d", "google._domainkey.d", "selector1._domainkey.d"]);
}

use domain_suggest::domain::dns::{dns_availability, dns_query_url};
use domain_suggest::domain::rdap::{
    bootstrap_from_services, extract_tld, hardcoded_bootstrap, lookup_availability, rdap_availability,
    rdap_query_url, rdap_route, LookupReply, RdapRoute,
};
use domain_suggest::domain::whoisfreaks::{
    classify_availability, failure_availability, failure_from_body, failure_text, reported_domain,
};
use domain_suggest::domain::{Availability, DomainCheckerKind};
use domain_suggest::http::{is_success, status_text};

fn error_text(a: &Availability) -> String {
    match a {
        Availability::Error(m) => m.clone(),
        other => panic!("expected an error, got {:?}", other),
    }
}

#[test]
fn symbols_and_availability() {
    assert_eq!(Availability::Available.symbol(), "✅");
    assert_eq!(Availability::Taken.symbol(), "❌");
    assert_eq!(Availability::Pending.symbol(), "⏳");
    assert_eq!(Availability::Error("x".to_string()).symbol(), "⚠️");
    assert_eq!(Availability::Unknown.symbol(), "❓");
    assert!(Availability::Available.is_available());
    assert!(!Availability::Taken.is_available());
    assert!(!Availability::Error(String::new()).is_available());
}

#[test]
fn checker_labels_and_default() {
    assert_eq!(DomainCheckerKind::WhoisFreaks.label(), "WhoisFreaks (Free Tier)");
    assert_eq!(DomainCheckerKind::Rdap.label(), "RDAP (Direct, Free)");
    assert_eq!(DomainCheckerKind::Dns.label(), "DNS (Fast & Unlimited)");
    assert_eq!(DomainCheckerKind::default(), DomainCheckerKind::WhoisFreaks);
}

#[test]
fn dns_answers() {
    assert!(matches!(dns_availability(Some(3)), Availability::Available));
    assert!(matches!(dns_availability(Some(0)), Availability::Taken));
    assert!(matches!(dns_availability(Some(2)), Availability::Unknown));
    assert!(matches!(dns_availability(None), Availability::Unknown));
}

#[test]
fn status_texts() {
    assert_eq!(status_text(404), "404 Not Found");
    assert_eq!(status_text(500), "500 Internal Server Error");
    assert_eq!(status_text(299), "299 <unknown status code>");
    assert!(is_success(200));
    assert!(is_success(299));
    assert!(!is_success(300));
    assert!(!is_success(199));
}

#[test]
fn tld_extraction() {
    assert_eq!(extract_tld("nexora.COM"), Some("com".to_string()));
    assert_eq!(extract_tld("a.b.Io"), Some("io".to_string()));
    assert_eq!(extract_tld("localhost"), Some("localhost".to_string()));
    assert_eq!(extract_tld("trailing."), Some("".to_string()));
}

#[test]
fn fallback_servers() {
    let m = hardcoded_bootstrap();
    assert_eq!(m.get("com"), Some(&"https://rdap.verisign.com/com/v1".to_string()));
    assert_eq!(m.get("app"), Some(&"https://rdap.nic.google".to_string()));
    assert_eq!(m.get("me"), None);
    assert_eq!(m.to_entries().len(), 10);
}

#[test]
fn bootstrap_services() {
    let services = vec![
        (vec!["COM".to_string(), "net".to_string()], vec!["https://a.example/rdap//".to_string(), "https://b.example".to_string()]),
        (vec!["org".to_string()], vec![]),
        (vec!["net".to_string()], vec!["https://c.example/".to_string()]),
    ];
    let m = bootstrap_from_services(&services);
    assert_eq!(m.get("com"), Some(&"https://a.example/rdap".to_string()));
    assert_eq!(m.get("net"), Some(&"https://c.example".to_string()));
    assert_eq!(m.get("org"), None);
}

#[test]
fn query_urls() {
    let m = hardcoded_bootstrap();
    assert_eq!(
        rdap_query_url(&m, "nexora.com"),
        Some("https://rdap.verisign.com/com/v1/domain/nexora.com".to_string())
    );
    assert_eq!(
        rdap_query_url(&m, "Brindle.IO"),
        Some("https://rdap.nic.io/domain/Brindle.IO".to_string())
    );
    assert_eq!(rdap_query_url(&m, "vertiq.me"), None);
}

#[test]
fn rdap_replies() {
    assert!(matches!(rdap_availability(&Ok(404)), Availability::Available));
    assert!(matches!(rdap_availability(&Ok(200)), Availability::Taken));
    assert!(matches!(rdap_availability(&Ok(204)), Availability::Taken));
    assert_eq!(
        error_text(&rdap_availability(&Ok(429))),
        "Rate limited by RDAP server. Try again later."
    );
    assert_eq!(
        error_text(&rdap_availability(&Ok(503))),
        "RDAP returned HTTP 503 Service Unavailable"
    );
    assert_eq!(
        error_text(&rdap_availability(&Err("timed out".to_string()))),
        "RDAP request failed: timed out"
    );
}

#[test]
fn whoisfreaks_values() {
    assert!(matches!(classify_availability("available"), Availability::Available));
    assert!(matches!(classify_availability("Unavailable"), Availability::Taken));
    assert!(matches!(classify_availability("not available"), Availability::Taken));
    assert!(matches!(classify_availability("REGISTERED"), Availability::Taken));
    assert!(matches!(classify_availability("maybe"), Availability::Unknown));
    assert!(matches!(classify_availability(""), Availability::Unknown));
}

#[test]
fn whoisfreaks_domains() {
    assert_eq!(reported_domain("nexora.com", ""), "nexora.com");
    assert_eq!(reported_domain("nexora.com", "NEXORA.COM"), "NEXORA.COM");
}

#[test]
fn whoisfreaks_failures() {
    assert_eq!(failure_text(401, "{}", &Some(Some("Invalid API key".to_string()))), "Invalid API key");
    assert_eq!(failure_text(401, "{}", &Some(None)), "HTTP 401 Unauthorized");
    assert_eq!(failure_text(502, "oops", &None), "HTTP 502 Bad Gateway: oops");
    assert_eq!(error_text(&failure_availability(429, "", &None)), "HTTP 429 Too Many Requests: ");
}

#[test]
fn unlisted_tld_falls_back_to_dns() {
    let m = hardcoded_bootstrap();
    assert!(matches!(rdap_route(&m, "vertiq.me"), RdapRoute::Dns));
    match rdap_route(&m, "nexora.COM") {
        RdapRoute::Query(u) => assert_eq!(u, "https://rdap.verisign.com/com/v1/domain/nexora.COM"),
        RdapRoute::Dns => panic!("com has an RDAP server"),
    }
    assert!(matches!(lookup_availability(&LookupReply::Dns(Some(3))), Availability::Available));
    assert!(matches!(lookup_availability(&LookupReply::Dns(Some(0))), Availability::Taken));
    assert!(matches!(lookup_availability(&LookupReply::Dns(None)), Availability::Unknown));
    assert!(matches!(lookup_availability(&LookupReply::Rdap(Ok(404))), Availability::Available));
    match lookup_availability(&LookupReply::Rdap(Err("timeout".to_string()))) {
        Availability::Error(m) => assert_eq!(m, "RDAP request failed: timeout"),
        _ => panic!("expected an error"),
    }
    assert_eq!(
        dns_query_url("nexora.com"),
        "https://cloudflare-dns.com/dns-query?name=nexora.com&type=NS"
    );
}

#[test]
fn whoisfreaks_error_bodies() {
    let msg = |code: u16, body: &str| error_text(&failure_from_body(code, body));
    assert_eq!(msg(401, r#"{"message": "Invalid API key", "status": 401}"#), "Invalid API key");
    assert_eq!(msg(401, r#"{"status": 401}"#), "HTTP 401 Unauthorized");
    assert_eq!(msg(401, r#"{"message": null, "extra": [1, 2]}"#), "HTTP 401 Unauthorized");
    assert_eq!(msg(403, r#"["Forbidden", 403]"#), "Forbidden");
    assert_eq!(msg(403, r#"[]"#), "HTTP 403 Forbidden");
    assert_eq!(msg(500, r#"{"message": "x", "status": 70000}"#), "HTTP 500 Internal Server Error: {\"message\": \"x\", \"status\": 70000}");
    assert_eq!(msg(500, r#"{"message": 5}"#), "HTTP 500 Internal Server Error: {\"message\": 5}");
    assert_eq!(msg(502, "<html>down</html>"), "HTTP 502 Bad Gateway: <html>down</html>");
    assert_eq!(msg(502, r#"["a", 1, 2]"#), "HTTP 502 Bad Gateway: [\"a\", 1, 2]");
}

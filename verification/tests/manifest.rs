use openusage::manifest::{
    line_issues, link_verdict, sanitize_plugin_links, weekly_candidate, LineIssue, LineIssueKind,
    LinkVerdict, ManifestLine, PluginLink,
};

fn line(line_type: &str, label: &str, primary_order: Option<u32>, period: Option<&str>) -> ManifestLine {
    ManifestLine {
        line_type: line_type.to_string(),
        label: label.to_string(),
        scope: "overview".to_string(),
        primary_order,
        period: period.map(|p| p.to_string()),
    }
}

fn link(label: &str, url: &str) -> PluginLink {
    PluginLink { label: label.to_string(), url: url.to_string() }
}

#[test]
fn primary_candidates_sorted_by_order() {
    let lines = vec![
        line("progress", "Third", Some(3), None),
        line("progress", "First", Some(1), None),
        line("progress", "Second", Some(2), None),
        line("progress", "None", None, None),
    ];

    let mut candidates: Vec<_> = lines
        .iter()
        .filter(|l| l.line_type == "progress" && l.primary_order.is_some())
        .collect();
    candidates.sort_by_key(|l| l.primary_order.unwrap());
    let labels: Vec<_> = candidates.iter().map(|l| l.label.as_str()).collect();

    assert_eq!(labels, vec!["First", "Second", "Third"]);
}

#[test]
fn period_parsed_and_weekly_candidate_resolved() {
    let lines = vec![
        line("progress", "Session", Some(1), None),
        line("progress", "Weekly", None, Some("weekly")),
    ];

    assert!(lines[0].period.is_none());
    assert_eq!(lines[1].period.as_deref(), Some("weekly"));
    assert_eq!(weekly_candidate(&lines), Some("Weekly"));
}

#[test]
fn weekly_candidate_absent_when_no_period() {
    let lines = vec![line("progress", "Session", Some(1), None)];
    assert_eq!(weekly_candidate(&lines), None);
}

#[test]
fn weekly_candidate_first_match_wins() {
    let lines = vec![
        line("progress", "Weekly A", None, Some("weekly")),
        line("progress", "Weekly B", None, Some("weekly")),
    ];
    assert_eq!(weekly_candidate(&lines), Some("Weekly A"));
}

#[test]
fn weekly_candidate_ignores_unsupported_period() {
    let lines = vec![line("progress", "Weekly", None, Some("week"))];
    assert_eq!(weekly_candidate(&lines), None);
}

#[test]
fn weekly_candidate_skips_non_progress_and_empty() {
    let lines = vec![
        line("text", "Not progress", None, Some("weekly")),
        line("progress", "Later", None, Some("weekly")),
    ];
    assert_eq!(weekly_candidate(&lines), Some("Later"));
    assert_eq!(weekly_candidate(&[]), None);
    assert_eq!(weekly_candidate(&lines[..1]), None);
}

#[test]
fn sanitize_plugin_links_filters_invalid_entries() {
    let links = vec![
        PluginLink {
            label: " Status ".to_string(),
            url: " https://status.example.com ".to_string(),
        },
        PluginLink {
            label: " ".to_string(),
            url: "https://example.com".to_string(),
        },
        PluginLink {
            label: "Docs".to_string(),
            url: "ftp://example.com".to_string(),
        },
    ];

    let sanitized = sanitize_plugin_links("x", links);
    assert_eq!(sanitized.len(), 1);
    assert_eq!(sanitized[0].label, "Status");
    assert_eq!(sanitized[0].url, "https://status.example.com");
}

#[test]
fn sanitize_keeps_order_http_and_unicode_whitespace() {
    let links = vec![
        link("\u{3000}Billing\t", "\nhttp://example.com/billing\u{2028}"),
        link("Empty url", "   "),
        link("Status", "https://status.example.com"),
        link("Bare", "example.com"),
        link("Scheme only", " https:// "),
    ];
    let sanitized = sanitize_plugin_links("x", links);
    let got: Vec<(&str, &str)> =
        sanitized.iter().map(|l| (l.label.as_str(), l.url.as_str())).collect();
    assert_eq!(
        got,
        vec![
            ("Billing", "http://example.com/billing"),
            ("Status", "https://status.example.com"),
            ("Scheme only", "https://"),
        ]
    );
}

#[test]
fn sanitize_is_idempotent_on_example() {
    let links = vec![
        link(" Status ", " https://status.example.com "),
        link("Docs", "ftp://example.com"),
        link("Home", "http://example.com"),
    ];
    let once = sanitize_plugin_links("x", links);
    let again = sanitize_plugin_links("x", once.clone());
    assert_eq!(once.len(), again.len());
    for (a, b) in once.iter().zip(again.iter()) {
        assert_eq!(a.label, b.label);
        assert_eq!(a.url, b.url);
    }
}

#[test]
fn line_issues_reports_ignored_settings() {
    let lines = vec![
        line("progress", "Ok", Some(1), Some("weekly")),
        line("text", "Order on text", Some(2), None),
        line("badge", "Both on badge", Some(3), Some("weekly")),
        line("progress", "Typo", None, Some("week")),
    ];
    let issues = line_issues(&lines);
    assert_eq!(
        issues,
        vec![
            LineIssue { index: 1, kind: LineIssueKind::PrimaryOrderOnNonProgress },
            LineIssue { index: 2, kind: LineIssueKind::PrimaryOrderOnNonProgress },
            LineIssue { index: 2, kind: LineIssueKind::PeriodOnNonProgress },
            LineIssue { index: 3, kind: LineIssueKind::UnsupportedPeriod },
        ]
    );
    assert!(line_issues(&Vec::new()).is_empty());
}

#[test]
fn link_verdict_gives_the_reason_a_link_is_dropped() {
    assert_eq!(link_verdict(&link(" Status ", " https://status.example.com ")), LinkVerdict::Kept);
    assert_eq!(link_verdict(&link("Home", "http://example.com")), LinkVerdict::Kept);
    assert_eq!(link_verdict(&link(" ", "https://example.com")), LinkVerdict::EmptyLabelOrUrl);
    assert_eq!(link_verdict(&link("Docs", "\u{3000}")), LinkVerdict::EmptyLabelOrUrl);
    assert_eq!(link_verdict(&link("Docs", "ftp://example.com")), LinkVerdict::NotWebUrl);
    assert_eq!(link_verdict(&link("Docs", "HTTPS://example.com")), LinkVerdict::NotWebUrl);
}

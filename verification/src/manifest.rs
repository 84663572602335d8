//! The plugin manifest (`plugin.json`) and the rules applied to it once read:
//! which progress line is the weekly metric, which manifest lines carry
//! settings that will be ignored, and which links are kept.
use vstd::prelude::*;

use crate::text::{lemma_trim_idempotent, starts_with, str_eq, trim, trim_spec};

verus! {

/// One metric line that a plugin declares.
#[derive(Debug, Clone)]
pub struct ManifestLine {
    /// The `type` field of the line, such as `"progress"`.
    pub line_type: String,
    pub label: String,
    pub scope: String,
    /// Lower number = higher priority for primary metric selection.
    /// Only progress lines with primary_order are candidates.
    pub primary_order: Option<u32>,
    /// Marks this line as the provider's recurring-period metric for the
    /// menubar metric preference. Currently only "weekly" is recognized.
    pub period: Option<String>,
}

/// A link that a plugin shows beside its metrics.
#[derive(Debug, Clone)]
pub struct PluginLink {
    pub label: String,
    pub url: String,
}

/// The contents of a plugin's `plugin.json`.
#[derive(Debug, Clone)]
pub struct PluginManifest {
    pub schema_version: u32,
    pub id: String,
    pub name: String,
    pub version: String,
    pub entry: String,
    pub icon: String,
    pub brand_color: Option<String>,
    pub lines: Vec<ManifestLine>,
    pub links: Vec<PluginLink>,
}

// ---------------------------------------------------------------------------
// The weekly candidate
// ---------------------------------------------------------------------------

/// A progress line that is marked `"period": "weekly"`.
pub open spec fn is_weekly_line(line: ManifestLine) -> bool {
    &&& line.line_type@ == "progress"@
    &&& line.period matches Some(p) && p@ == "weekly"@
}

/// The label of the first weekly progress line, if there is one.
pub open spec fn weekly_label(lines: Seq<ManifestLine>) -> Option<Seq<char>>
    decreases lines.len(),
{
    if lines.len() == 0 {
        None
    } else if is_weekly_line(lines[0]) {
        Some(lines[0].label@)
    } else {
        weekly_label(lines.drop_first())
    }
}

/// The label of the progress line marked `"period": "weekly"`, if any.
/// Drives the menubar weekly-metric preference; first match wins.
pub fn weekly_candidate(lines: &[ManifestLine]) -> (r: Option<&str>)
    ensures
        weekly_label(lines@) == (match r {
            Some(l) => Some(l@),
            None => None,
        }),
{
    let n = lines.len();
    let mut i: usize = 0;
    assert(lines@.subrange(0, n as int) =~= lines@);
    while i < n
        invariant
            i <= n,
            n == lines@.len(),
            weekly_label(lines@) == weekly_label(lines@.subrange(i as int, n as int)),
        decreases n - i,
    {
        let line = &lines[i];
        let weekly = match &line.period {
            Some(p) => str_eq(line.line_type.as_str(), "progress") && str_eq(p.as_str(), "weekly"),
            None => false,
        };
        if weekly {
            return Some(line.label.as_str());
        }
        assert(lines@.subrange(i as int, n as int).drop_first() =~= lines@.subrange(i + 1, n as int));
        i = i + 1;
    }
    None
}

/// First match wins: the weekly label is that of a weekly progress line that
/// no earlier line is, and there is none exactly when no line is one.
pub proof fn lemma_weekly_first_match(lines: Seq<ManifestLine>)
    ensures
        weekly_label(lines) is None <==> forall|i: int|
            0 <= i < lines.len() ==> !is_weekly_line(#[trigger] lines[i]),
        forall|i: int|
            0 <= i < lines.len() && is_weekly_line(#[trigger] lines[i]) && (forall|j: int|
                0 <= j < i ==> !is_weekly_line(lines[j])) ==> weekly_label(lines) == Some(
                lines[i].label@,
            ),
    decreases lines.len(),
{
    if lines.len() > 0 {
        let rest = lines.drop_first();
        lemma_weekly_first_match(rest);
        assert forall|i: int| 0 < i < lines.len() implies lines[i] == rest[i - 1] by {}
        if !is_weekly_line(lines[0]) {
            assert forall|i: int|
                0 <= i < lines.len() && is_weekly_line(#[trigger] lines[i]) && (forall|j: int|
                    0 <= j < i ==> !is_weekly_line(lines[j])) implies weekly_label(lines) == Some(
                lines[i].label@,
            ) by {
                assert(i > 0);
                assert forall|j: int| 0 <= j < i - 1 implies !is_weekly_line(rest[j]) by {
                    assert(rest[j] == lines[j + 1]);
                }
            }
            if weekly_label(lines) is None {
                assert forall|i: int| 0 <= i < lines.len() implies !is_weekly_line(
                    #[trigger] lines[i],
                ) by {
                    if i > 0 {
                        assert(!is_weekly_line(rest[i - 1]));
                    }
                }
            } else {
                let i = choose|i: int| 0 <= i < rest.len() && is_weekly_line(#[trigger] rest[i]);
                assert(is_weekly_line(lines[i + 1]));
            }
        }
    }
}

/// The weekly candidate is the label of the first line whose type is
/// `"progress"` and whose period is `"weekly"`, whatever its other fields
/// (`primaryOrder`, scope, label) hold; there is none exactly when no line
/// has that type and period.
pub proof fn lemma_weekly_candidate_law(lines: Seq<ManifestLine>, i: int)
    ensures
        (0 <= i < lines.len() && lines[i].line_type@ == "progress"@ && (lines[i].period matches Some(
            p,
        ) && p@ == "weekly"@) && (forall|j: int|
            0 <= j < i ==> !(lines[j].line_type@ == "progress"@ && (lines[j].period matches Some(
                q,
            ) && q@ == "weekly"@)))) ==> weekly_label(lines) == Some(lines[i].label@),
        weekly_label(lines) is None <==> (forall|k: int|
            0 <= k < lines.len() ==> !(lines[k].line_type@ == "progress"@ && (
            #[trigger] lines[k].period matches Some(q) && q@ == "weekly"@))),
{
    lemma_weekly_first_match(lines);
    assert forall|k: int| 0 <= k < lines.len() implies (is_weekly_line(lines[k]) <==> (
    lines[k].line_type@ == "progress"@ && (lines[k].period matches Some(q) && q@ == "weekly"@)))
        by {}
}

// ---------------------------------------------------------------------------
// Lines whose settings are ignored
// ---------------------------------------------------------------------------

/// Why a manifest line's setting is ignored.
#[derive(Debug, Clone, Copy, PartialEq, Eq, Structural)]
pub enum LineIssueKind {
    /// `primaryOrder` on a line that is not a progress line.
    PrimaryOrderOnNonProgress,
    /// `period` on a line that is not a progress line.
    PeriodOnNonProgress,
    /// `period` on a progress line with a value other than `"weekly"`.
    UnsupportedPeriod,
}

/// A setting of the line at `index` that will be ignored.
#[derive(Debug, Clone, Copy, PartialEq, Eq, Structural)]
pub struct LineIssue {
    pub index: usize,
    pub kind: LineIssueKind,
}

/// The issues of one line, in the order in which they are reported.
pub open spec fn issues_of_line(line: ManifestLine, index: int) -> Seq<LineIssue> {
    let progress = line.line_type@ == "progress"@;
    let order_issue = if line.primary_order is Some && !progress {
        seq![LineIssue { index: index as usize, kind: LineIssueKind::PrimaryOrderOnNonProgress }]
    } else {
        Seq::empty()
    };
    let period_issue = match line.period {
        Some(p) => if !progress {
            seq![LineIssue { index: index as usize, kind: LineIssueKind::PeriodOnNonProgress }]
        } else if p@ != "weekly"@ {
            seq![LineIssue { index: index as usize, kind: LineIssueKind::UnsupportedPeriod }]
        } else {
            Seq::empty()
        },
        None => Seq::empty(),
    };
    order_issue + period_issue
}

/// The issues of all lines, line by line.
pub open spec fn issues_of_lines(lines: Seq<ManifestLine>) -> Seq<LineIssue>
    decreases lines.len(),
{
    if lines.len() == 0 {
        Seq::empty()
    } else {
        issues_of_lines(lines.drop_last()) + issues_of_line(lines.last(), lines.len() - 1)
    }
}

/// The settings of the manifest's lines that will be ignored: `primaryOrder`
/// or `period` on a line that is not a progress line, and a `period` other
/// than `"weekly"`.
pub fn line_issues(lines: &Vec<ManifestLine>) -> (r: Vec<LineIssue>)
    ensures
        r@ == issues_of_lines(lines@),
{
    let mut out: Vec<LineIssue> = Vec::new();
    let n = lines.len();
    let mut i: usize = 0;
    while i < n
        invariant
            i <= n,
            n == lines@.len(),
            out@ == issues_of_lines(lines@.subrange(0, i as int)),
        decreases n - i,
    {
        let line = &lines[i];
        let progress = str_eq(line.line_type.as_str(), "progress");
        let ghost before = out@;
        if line.primary_order.is_some() && !progress {
            out.push(LineIssue { index: i, kind: LineIssueKind::PrimaryOrderOnNonProgress });
        }
        match &line.period {
            Some(p) => {
                if !progress {
                    out.push(LineIssue { index: i, kind: LineIssueKind::PeriodOnNonProgress });
                } else if !str_eq(p.as_str(), "weekly") {
                    out.push(LineIssue { index: i, kind: LineIssueKind::UnsupportedPeriod });
                }
            },
            None => {},
        }
        assert(out@ =~= before + issues_of_line(lines@[i as int], i as int));
        assert(lines@.subrange(0, i + 1).drop_last() =~= lines@.subrange(0, i as int));
        i = i + 1;
    }
    assert(lines@.subrange(0, n as int) =~= lines@);
    out
}

// ---------------------------------------------------------------------------
// Links
// ---------------------------------------------------------------------------

/// A link's label and url as character sequences.
pub open spec fn link_view(link: PluginLink) -> (Seq<char>, Seq<char>) {
    (link.label@, link.url@)
}

/// Whether a url, once trimmed, is an http or https url.
pub open spec fn is_web_url(url: Seq<char>) -> bool {
    "https://"@.is_prefix_of(url) || "http://"@.is_prefix_of(url)
}

/// A link is kept when its trimmed label and url are not empty and the
/// trimmed url is an http(s) url.
pub open spec fn link_is_kept(link: PluginLink) -> bool {
    let label = trim_spec(link.label@);
    let url = trim_spec(link.url@);
    label.len() > 0 && url.len() > 0 && is_web_url(url)
}

/// What sanitizing does with one link.
#[derive(Debug, Clone, Copy, PartialEq, Eq, Structural)]
pub enum LinkVerdict {
    /// The link is kept, trimmed.
    Kept,
    /// The trimmed label or the trimmed url is empty; the link is dropped.
    EmptyLabelOrUrl,
    /// The trimmed url is not an http(s) url; the link is dropped.
    NotWebUrl,
}

/// The verdict on one link, with the reason when it is dropped.
pub open spec fn link_verdict_spec(link: PluginLink) -> LinkVerdict {
    let label = trim_spec(link.label@);
    let url = trim_spec(link.url@);
    if label.len() == 0 || url.len() == 0 {
        LinkVerdict::EmptyLabelOrUrl
    } else if !is_web_url(url) {
        LinkVerdict::NotWebUrl
    } else {
        LinkVerdict::Kept
    }
}

/// Whether sanitizing keeps `link`, and if not, why it is dropped.
pub fn link_verdict(link: &PluginLink) -> (r: LinkVerdict)
    ensures
        r == link_verdict_spec(*link),
        r == LinkVerdict::Kept <==> link_is_kept(*link),
{
    let label = trim(link.label.as_str());
    let url = trim(link.url.as_str());
    if label.as_str().unicode_len() == 0 || url.as_str().unicode_len() == 0 {
        LinkVerdict::EmptyLabelOrUrl
    } else if !(starts_with(url.as_str(), "https://") || starts_with(url.as_str(), "http://")) {
        LinkVerdict::NotWebUrl
    } else {
        LinkVerdict::Kept
    }
}

/// The kept links, trimmed, in their original order.
pub open spec fn sanitized_links(links: Seq<PluginLink>) -> Seq<(Seq<char>, Seq<char>)>
    decreases links.len(),
{
    if links.len() == 0 {
        Seq::empty()
    } else {
        let rest = sanitized_links(links.drop_last());
        let last = links.last();
        if link_is_kept(last) {
            rest.push((trim_spec(last.label@), trim_spec(last.url@)))
        } else {
            rest
        }
    }
}

/// Trims each link's label and url and drops the links whose label or url
/// is then empty, or whose url is not an http(s) url. `plugin_id` names the
/// plugin in diagnostics.
pub fn sanitize_plugin_links(plugin_id: &str, links: Vec<PluginLink>) -> (r: Vec<PluginLink>)
    ensures
        r@.map_values(|l: PluginLink| link_view(l)) == sanitized_links(links@),
{
    let _ = plugin_id;
    let mut out: Vec<PluginLink> = Vec::new();
    let n = links.len();
    let mut i: usize = 0;
    while i < n
        invariant
            i <= n,
            n == links@.len(),
            out@.map_values(|l: PluginLink| link_view(l)) == sanitized_links(
                links@.subrange(0, i as int),
            ),
        decreases n - i,
    {
        let link = &links[i];
        let label = trim(link.label.as_str());
        let url = trim(link.url.as_str());
        assert(links@.subrange(0, i + 1).drop_last() =~= links@.subrange(0, i as int));
        assert(links@.subrange(0, i + 1).last() == links@[i as int]);
        let ghost before = out@;
        if label.as_str().unicode_len() > 0 && url.as_str().unicode_len() > 0 && (starts_with(
            url.as_str(),
            "https://",
        ) || starts_with(url.as_str(), "http://")) {
            out.push(PluginLink { label, url });
            assert(out@.map_values(|l: PluginLink| link_view(l)) =~= before.map_values(
                |l: PluginLink| link_view(l),
            ).push(link_view(out@.last())));
        }
        i = i + 1;
    }
    assert(links@.subrange(0, n as int) =~= links@);
    out
}

/// A sanitized link: its label and url are trimmed and not empty, and the
/// url is an http(s) url.
pub open spec fn is_clean_link(view: (Seq<char>, Seq<char>)) -> bool {
    &&& view.0.len() > 0
    &&& view.1.len() > 0
    &&& trim_spec(view.0) == view.0
    &&& trim_spec(view.1) == view.1
    &&& is_web_url(view.1)
}

/// Every link that sanitizing keeps is clean, and comes from one of the
/// given links.
pub proof fn lemma_sanitized_links_are_clean(links: Seq<PluginLink>)
    ensures
        sanitized_links(links).len() <= links.len(),
        forall|i: int|
            0 <= i < sanitized_links(links).len() ==> is_clean_link(
                #[trigger] sanitized_links(links)[i],
            ),
    decreases links.len(),
{
    if links.len() > 0 {
        lemma_sanitized_links_are_clean(links.drop_last());
        let last = links.last();
        lemma_trim_idempotent(last.label@);
        lemma_trim_idempotent(last.url@);
    }
}

/// Sanitizing is idempotent: sanitizing links that are already sanitized
/// keeps all of them as they are.
pub proof fn lemma_sanitize_idempotent(links: Seq<PluginLink>, out: Seq<PluginLink>)
    requires
        out.map_values(|l: PluginLink| link_view(l)) == sanitized_links(links),
    ensures
        sanitized_links(out) == out.map_values(|l: PluginLink| link_view(l)),
{
    lemma_sanitized_links_are_clean(links);
    assert forall|i: int| 0 <= i < out.len() implies is_clean_link(#[trigger] link_view(out[i])) by {
        assert(out.map_values(|l: PluginLink| link_view(l))[i] == link_view(out[i]));
    }
    lemma_clean_links_are_kept(out);
}

/// Links that are all clean come out of sanitizing unchanged.
proof fn lemma_clean_links_are_kept(out: Seq<PluginLink>)
    requires
        forall|i: int| 0 <= i < out.len() ==> is_clean_link(#[trigger] link_view(out[i])),
    ensures
        sanitized_links(out) == out.map_values(|l: PluginLink| link_view(l)),
    decreases out.len(),
{
    if out.len() > 0 {
        let rest = out.drop_last();
        assert forall|i: int| 0 <= i < rest.len() implies is_clean_link(
            #[trigger] link_view(rest[i]),
        ) by {
            assert(rest[i] == out[i]);
        }
        lemma_clean_links_are_kept(rest);
        assert(is_clean_link(link_view(out[out.len() - 1])));
        assert(out.map_values(|l: PluginLink| link_view(l)) =~= rest.map_values(
            |l: PluginLink| link_view(l),
        ).push(link_view(out.last())));
    } else {
        assert(out.map_values(|l: PluginLink| link_view(l)) =~= Seq::<(Seq<char>, Seq<char>)>::empty());
    }
}

/// Sanitizing one link keeps it, trimmed, exactly when its trimmed label and
/// trimmed url are not empty and the trimmed url starts with `https://` or
/// `http://`; any other url (`mailto:`, `ftp:`, no scheme) drops it. The
/// verdict names the same cases.
pub proof fn lemma_single_link_law(link: PluginLink)
    ensures
        sanitized_links(seq![link]) == (if trim_spec(link.label@).len() > 0 && trim_spec(
            link.url@,
        ).len() > 0 && ("https://"@.is_prefix_of(trim_spec(link.url@)) || "http://"@.is_prefix_of(
            trim_spec(link.url@),
        )) {
            seq![(trim_spec(link.label@), trim_spec(link.url@))]
        } else {
            Seq::empty()
        }),
        link_verdict_spec(link) == LinkVerdict::Kept <==> (trim_spec(link.label@).len() > 0
            && trim_spec(link.url@).len() > 0 && ("https://"@.is_prefix_of(trim_spec(link.url@))
            || "http://"@.is_prefix_of(trim_spec(link.url@)))),
        link_verdict_spec(link) == LinkVerdict::EmptyLabelOrUrl <==> (trim_spec(link.label@).len()
            == 0 || trim_spec(link.url@).len() == 0),
        link_verdict_spec(link) == LinkVerdict::NotWebUrl <==> (trim_spec(link.label@).len() > 0
            && trim_spec(link.url@).len() > 0 && !"https://"@.is_prefix_of(trim_spec(link.url@))
            && !"http://"@.is_prefix_of(trim_spec(link.url@))),
{
    let s = seq![link];
    assert(s.drop_last() =~= Seq::<PluginLink>::empty());
    assert(sanitized_links(s.drop_last()) =~= Seq::<(Seq<char>, Seq<char>)>::empty());
    assert(s.last() == link);
    assert(Seq::<(Seq<char>, Seq<char>)>::empty().push(
        (trim_spec(link.label@), trim_spec(link.url@)),
    ) =~= seq![(trim_spec(link.label@), trim_spec(link.url@))]);
}

/// Every link that sanitizing keeps has a non-empty label and a url that
/// starts with `https://` or `http://`, both trimmed; and there are no more
/// of them than there were links.
pub proof fn lemma_kept_links_are_http(links: Seq<PluginLink>)
    ensures
        sanitized_links(links).len() <= links.len(),
        forall|i: int|
            0 <= i < sanitized_links(links).len() ==> {
                let kept = #[trigger] sanitized_links(links)[i];
                &&& kept.0.len() > 0
                &&& trim_spec(kept.0) == kept.0
                &&& trim_spec(kept.1) == kept.1
                &&& ("https://"@.is_prefix_of(kept.1) || "http://"@.is_prefix_of(kept.1))
            },
{
    lemma_sanitized_links_are_clean(links);
}

} // verus!

use deadlinks::cache::{is_web_url, normalize_url, starts_with, ExternalCache};
use deadlinks::check::{settle_probe, BrokenReason, Check, DocFile, DocTree, Verdict};
use deadlinks::classify::{blank, classify, find_char, starts_with_scheme, ReferenceKind};
use deadlinks::extract::{anchor_set, extract_references, Attribute, Element, Reference};
use deadlinks::layout::{default_doc_dir, is_html_file};
use deadlinks::path::{join, resolve, split, walk_segments};
use deadlinks::report::{diagnostics, exit_status, run_passed};

fn strings(v: &[&str]) -> Vec<String> {
    v.iter().map(|s| s.to_string()).collect()
}

fn html(path: &str, anchors: &[&str]) -> DocFile {
    DocFile { path: path.to_string(), anchors: Some(strings(anchors)) }
}

fn other_file(path: &str) -> DocFile {
    DocFile { path: path.to_string(), anchors: None }
}

fn reference(source: &str, raw: &str) -> Reference {
    Reference { raw_target: raw.to_string(), source_document: source.to_string() }
}

fn element(tag: &str, attrs: &[(&str, &str)]) -> Element {
    Element {
        tag: tag.to_string(),
        attributes: attrs
            .iter()
            .map(|(n, v)| Attribute { name: n.to_string(), value: v.to_string() })
            .collect(),
    }
}

fn verdict(c: &Check) -> Verdict {
    match c {
        Check::Done(v) => *v,
        other => panic!("expected a verdict, got {:?}", other),
    }
}

/// Runs every reference to the end: probes answered by `reachable`.
fn run(
    tree: &DocTree,
    cache: &mut ExternalCache,
    refs: &Vec<Reference>,
    reachable: &dyn Fn(&str) -> bool,
    probes: &mut Vec<String>,
) -> Vec<Verdict> {
    let mut out = Vec::new();
    for r in refs {
        match tree.check_reference(cache, r) {
            Check::Skip => {}
            Check::Done(v) => out.push(v),
            Check::Probe { key } => {
                probes.push(key.clone());
                out.push(settle_probe(cache, &key, reachable(&key)));
            }
        }
    }
    out
}

#[test]
fn classify_blank_targets_are_skipped() {
    assert!(classify("").is_none());
    assert!(classify("  \t\n").is_none());
    assert!(blank(" "));
    assert!(!blank(" a "));
}

#[test]
fn classify_fragment_only() {
    match classify("#section-1") {
        Some(ReferenceKind::FragmentOnly { fragment }) => assert_eq!(fragment, "section-1"),
        other => panic!("{:?}", other),
    }
}

#[test]
fn classify_absolute_urls() {
    assert!(matches!(classify("https://example.com/x"), Some(ReferenceKind::AbsoluteExternal)));
    assert!(matches!(classify("mailto:someone@example.com"), Some(ReferenceKind::AbsoluteExternal)));
    assert!(matches!(classify("git+ssh://host/repo#frag"), Some(ReferenceKind::AbsoluteExternal)));
    assert!(starts_with_scheme("http:"));
    assert!(!starts_with_scheme(":x"));
    assert!(!starts_with_scheme("1http://x"));
    assert!(!starts_with_scheme("dir/a:b"));
}

#[test]
fn classify_local_targets() {
    match classify("other.html#intro") {
        Some(ReferenceKind::LocalFileWithFragment { path, fragment }) => {
            assert_eq!(path, "other.html");
            assert_eq!(fragment, "intro");
        }
        other => panic!("{:?}", other),
    }
    match classify("a/b.html#x#y") {
        Some(ReferenceKind::LocalFileWithFragment { path, fragment }) => {
            assert_eq!(path, "a/b.html");
            assert_eq!(fragment, "x#y");
        }
        other => panic!("{:?}", other),
    }
    match classify("../sibling.html") {
        Some(ReferenceKind::LocalFile { path }) => assert_eq!(path, "../sibling.html"),
        other => panic!("{:?}", other),
    }
    assert_eq!(find_char("ab#c", '#'), Some(2));
    assert_eq!(find_char("abc", '#'), None);
}

#[test]
fn split_and_join_paths() {
    assert_eq!(split("a/b/doc.html"), strings(&["a", "b", "doc.html"]));
    assert_eq!(split(""), strings(&[""]));
    assert_eq!(split("/x/"), strings(&["", "x", ""]));
    assert_eq!(join(&strings(&["a", "sibling.html"])), "a/sibling.html");
    assert_eq!(join(&strings(&[])), "");
    assert_eq!(walk_segments(&strings(&["a", ".", "", "b", ".."])), Some(strings(&["a"])));
    assert_eq!(walk_segments(&strings(&["a", "..", ".."])), None);
}

#[test]
fn resolve_parent_reference() {
    assert_eq!(resolve("a/b/doc.html", "../sibling.html"), Some("a/sibling.html".to_string()));
}

#[test]
fn resolve_collapses_dots_and_refuses_escape() {
    assert_eq!(resolve("a/b/doc.html", "./c/./d.html"), Some("a/b/c/d.html".to_string()));
    assert_eq!(resolve("index.html", "x//y.html"), Some("x/y.html".to_string()));
    assert_eq!(resolve("index.html", "../outside.html"), None);
    assert_eq!(resolve("a/doc.html", "../../outside.html"), None);
    assert_eq!(resolve("a/doc.html", "../b/../c.html"), Some("c.html".to_string()));
}

#[test]
fn extract_hrefs_of_anchor_elements_only() {
    let els = vec![
        element("a", &[("href", "x.html"), ("id", "one")]),
        element("link", &[("href", "style.css")]),
        element("div", &[("id", "two"), ("name", "three"), ("class", "c")]),
        element("a", &[("name", "four")]),
        element("a", &[("href", " #frag ")]),
    ];
    let refs = extract_references(&els, "dir/page.html");
    assert_eq!(refs.len(), 2);
    assert_eq!(refs[0].raw_target, "x.html");
    assert_eq!(refs[1].raw_target, " #frag ");
    assert!(refs.iter().all(|r| r.source_document == "dir/page.html"));
    assert_eq!(anchor_set(&els), strings(&["one", "two", "three", "four"]));
}

#[test]
fn normalize_url_drops_fragment_and_trailing_slash() {
    assert_eq!(normalize_url("https://example.com/a/#top"), "https://example.com/a");
    assert_eq!(normalize_url("https://example.com/a/"), "https://example.com/a");
    assert_eq!(normalize_url("https://example.com/a?q=1#x"), "https://example.com/a?q=1");
    assert_eq!(normalize_url("https://example.com/a"), "https://example.com/a");
}

#[test]
fn cache_keeps_first_result() {
    let mut cache = ExternalCache::new();
    assert_eq!(cache.lookup("k"), None);
    assert!(!cache.record("k", false));
    assert!(!cache.record("k", true));
    assert!(cache.record("j", true));
    assert_eq!(cache.lookup("k"), Some(false));
    assert_eq!(cache.lookup("j"), Some(true));
    assert_eq!(cache.len(), 2);
}

#[test]
fn local_reference_to_existing_file_is_valid() {
    let tree = DocTree { files: vec![html("a/b/doc.html", &[]), other_file("a/sibling.html")] };
    let cache = ExternalCache::new();
    let c = tree.check_reference(&cache, &reference("a/b/doc.html", "../sibling.html"));
    assert_eq!(verdict(&c), Verdict::Valid);
}

#[test]
fn local_reference_to_missing_file_is_broken_path() {
    let tree = DocTree { files: vec![html("index.html", &[])] };
    let cache = ExternalCache::new();
    let c = tree.check_reference(&cache, &reference("index.html", "missing.html"));
    assert_eq!(verdict(&c), Verdict::Broken(BrokenReason::BrokenPath));
    let c = tree.check_reference(&cache, &reference("index.html", "../index.html"));
    assert_eq!(verdict(&c), Verdict::Broken(BrokenReason::BrokenPath));
}

#[test]
fn anchor_checks() {
    let tree = DocTree {
        files: vec![
            html("page.html", &["section-1"]),
            html("other.html", &["top"]),
            other_file("data.bin"),
        ],
    };
    let cache = ExternalCache::new();
    let check = |raw: &str| verdict(&tree.check_reference(&cache, &reference("page.html", raw)));
    assert_eq!(check("#section-1"), Verdict::Valid);
    assert_eq!(check("#Section-1"), Verdict::Broken(BrokenReason::BrokenAnchor));
    assert_eq!(check("#missing"), Verdict::Broken(BrokenReason::BrokenAnchor));
    assert_eq!(check("other.html#top"), Verdict::Valid);
    assert_eq!(check("other.html#intro"), Verdict::Broken(BrokenReason::BrokenAnchor));
    assert_eq!(check("data.bin"), Verdict::Valid);
    assert_eq!(check("data.bin#x"), Verdict::Broken(BrokenReason::BrokenPath));
    assert_eq!(check("gone.html#top"), Verdict::Broken(BrokenReason::BrokenPath));
}

#[test]
fn checking_twice_gives_the_same_verdicts() {
    let tree = DocTree { files: vec![html("index.html", &["a"]), html("x/y.html", &[])] };
    let refs = vec![
        reference("index.html", "x/y.html"),
        reference("index.html", "#b"),
        reference("x/y.html", "../index.html#a"),
        reference("x/y.html", "http://example.com/"),
    ];
    let mut cache = ExternalCache::new();
    let mut probes = Vec::new();
    let first = run(&tree, &mut cache, &refs, &|_| true, &mut probes);
    let second = run(&tree, &mut cache, &refs, &|_| false, &mut probes);
    assert_eq!(first, second);
    assert_eq!(probes.len(), 1);
}

#[test]
fn scenario_missing_file() {
    let tree = DocTree { files: vec![html("index.html", &[])] };
    let els = vec![element("a", &[("href", "missing.html")])];
    let refs = extract_references(&els, "index.html");
    let mut cache = ExternalCache::new();
    let mut probes = Vec::new();
    let verdicts = run(&tree, &mut cache, &refs, &|_| true, &mut probes);
    let diags = diagnostics(&refs, &verdicts);
    assert_eq!(diags.len(), 1);
    assert_eq!(diags[0].raw_target, "missing.html");
    assert_eq!(diags[0].source_document, "index.html");
    assert_eq!(diags[0].reason, BrokenReason::BrokenPath);
    assert!(!run_passed(&verdicts));
    assert_eq!(exit_status(run_passed(&verdicts)), 1);
}

#[test]
fn scenario_missing_anchor() {
    let tree = DocTree { files: vec![html("page.html", &[]), html("other.html", &["outro"])] };
    let refs = vec![reference("page.html", "other.html#intro")];
    let mut cache = ExternalCache::new();
    let mut probes = Vec::new();
    let verdicts = run(&tree, &mut cache, &refs, &|_| true, &mut probes);
    let diags = diagnostics(&refs, &verdicts);
    assert_eq!(diags.len(), 1);
    assert_eq!(diags[0].reason, BrokenReason::BrokenAnchor);
    assert!(!run_passed(&verdicts));
}

#[test]
fn scenario_unreachable_external_is_cached() {
    let tree = DocTree { files: vec![html("page.html", &[]), html("sub/more.html", &[])] };
    let refs = vec![
        reference("page.html", "https://dead.example.com/doc"),
        reference("sub/more.html", "https://dead.example.com/doc/#part"),
    ];
    let mut cache = ExternalCache::new();
    let first = tree.check_reference(&cache, &refs[0]);
    let key = match first {
        Check::Probe { key } => key,
        other => panic!("{:?}", other),
    };
    assert_eq!(key, "https://dead.example.com/doc");
    let v = settle_probe(&mut cache, &key, false);
    assert_eq!(v, Verdict::Broken(BrokenReason::BrokenExternal));
    let second = tree.check_reference(&cache, &refs[1]);
    assert_eq!(verdict(&second), Verdict::Broken(BrokenReason::BrokenExternal));
    let verdicts = vec![v, verdict(&second)];
    let diags = diagnostics(&refs, &verdicts);
    assert_eq!(diags.len(), 2);
    assert!(diags.iter().all(|d| d.reason == BrokenReason::BrokenExternal));
    assert_eq!(cache.len(), 1);
}

#[test]
fn later_probe_result_does_not_replace_recorded_one() {
    let mut cache = ExternalCache::new();
    assert_eq!(settle_probe(&mut cache, "http://x", true), Verdict::Valid);
    assert_eq!(settle_probe(&mut cache, "http://x", false), Verdict::Valid);
}

#[test]
fn scenario_all_valid() {
    let tree = DocTree {
        files: vec![html("index.html", &["top"]), html("a/b.html", &["s"]), other_file("a/img.png")],
    };
    let refs = vec![
        reference("index.html", "a/b.html#s"),
        reference("index.html", "#top"),
        reference("a/b.html", "img.png"),
        reference("a/b.html", "../index.html"),
        reference("a/b.html", ""),
        reference("a/b.html", "https://ok.example.com"),
    ];
    let mut cache = ExternalCache::new();
    let mut probes = Vec::new();
    let verdicts = run(&tree, &mut cache, &refs, &|_| true, &mut probes);
    assert_eq!(verdicts.len(), 5);
    assert!(run_passed(&verdicts));
    assert!(diagnostics(&refs, &verdicts).is_empty());
    assert_eq!(exit_status(run_passed(&verdicts)), 0);
}

#[test]
fn check_all_keeps_order_and_skips_blank() {
    let tree = DocTree { files: vec![html("index.html", &[])] };
    let refs = vec![
        reference("index.html", "gone.html"),
        reference("index.html", " "),
        reference("index.html", "index.html"),
    ];
    let cache = ExternalCache::new();
    let checks = tree.check_all(&cache, &refs);
    assert_eq!(checks.len(), 3);
    assert_eq!(verdict(&checks[0]), Verdict::Broken(BrokenReason::BrokenPath));
    assert!(matches!(checks[1], Check::Skip));
    assert_eq!(verdict(&checks[2]), Verdict::Valid);
}

#[test]
fn html_file_names() {
    assert!(is_html_file("index.html"));
    assert!(is_html_file("a.b.html"));
    assert!(!is_html_file(".html"));
    assert!(!is_html_file("index.htm"));
    assert!(!is_html_file("index.HTML"));
    assert!(!is_html_file("html"));
}

#[test]
fn default_directory_from_package_name() {
    assert_eq!(default_doc_dir("cargo-deadlinks"), "target/doc/cargo_deadlinks");
    assert_eq!(default_doc_dir("plain"), "target/doc/plain");
}

#[test]
fn web_urls_are_probed() {
    assert!(is_web_url("http://example.com"));
    assert!(is_web_url("https://example.com/a"));
    assert!(!is_web_url("mailto:a@b.c"));
    assert!(!is_web_url("http:/x"));
    assert!(!is_web_url("ftp://x"));
    assert!(starts_with("abc", ""));
    assert!(!starts_with("ab", "abc"));
}

#[test]
fn url_parser_decides_padded_absolute_urls() {
    assert!(!starts_with_scheme(" https://example.com/x"));
    assert!(matches!(classify(" https://example.com/x"), Some(ReferenceKind::AbsoluteExternal)));
    assert!(matches!(classify("./a:b"), Some(ReferenceKind::LocalFile { .. })));
    let tree = DocTree { files: vec![html("page.html", &[])] };
    let cache = ExternalCache::new();
    let c = tree.check_reference(&cache, &reference("page.html", " https://example.com/x/ "));
    assert!(matches!(c, Check::Probe { .. }));
}

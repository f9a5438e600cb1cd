use yar::datetime::{parse_timestamp, ts_to_display, ts_to_iso, Timestamp};
use yar::entry::{classify, is_special_page, plan_entries, BuildStatus};
use yar::fingerprint::fingerprint;
use yar::index::{merge_index, PageMeta};
use yar::json::{json_str_array, json_string};
use yar::asset::Asset;
use yar::paths::{out_path, permalink};
use yar::summary::get_summary;

#[test]
fn test_fingerprint_stable_and_hex() {
    let a = fingerprint(b"Post 1");
    let b = fingerprint(b"Post 1");
    assert_eq!(a, b);
    assert_eq!(a.len(), 16);
    assert_eq!(a, format!("{:016x}", seahash::hash(b"Post 1")));
    assert_ne!(fingerprint(b"Post 1"), fingerprint(b"Post 2"));
}

#[test]
fn test_classification_rules() {
    let current = "aaaa".to_string();
    let stored_same = "aaaa".to_string();
    let stored_other = "bbbb".to_string();
    assert_eq!(classify(None, &current, false), BuildStatus::New);
    assert_eq!(classify(None, &current, true), BuildStatus::New);
    assert_eq!(classify(Some(&stored_other), &current, false), BuildStatus::Changed);
    assert_eq!(classify(Some(&stored_same), &current, true), BuildStatus::Special);
    assert_eq!(classify(Some(&stored_same), &current, false), BuildStatus::Excluded);
}

#[test]
fn test_special_page_suffixes() {
    let specials = vec!["index.md".to_string(), "search.md".to_string()];
    assert!(is_special_page("blog/content/index.md", &specials));
    assert!(is_special_page("index.md", &specials));
    assert!(!is_special_page("blog/content/post.md", &specials));
    assert!(!is_special_page("blog/content/reindex.md", &specials));
}

#[test]
fn test_plan_includes_only_new_changed_special() {
    let specials = vec!["index.md".to_string()];
    let files = vec![
        ("a.md".to_string(), b"one".to_vec()),
        ("b.md".to_string(), b"two".to_vec()),
        ("index.md".to_string(), b"idx".to_vec()),
        ("c.md".to_string(), b"three".to_vec()),
    ];
    let stored = vec![
        None,
        Some(fingerprint(b"two")),
        Some(fingerprint(b"idx")),
        Some(fingerprint(b"old")),
    ];
    let plan = plan_entries(files, stored, &specials);
    let names: Vec<&str> = plan.iter().map(|e| e.path.as_str()).collect();
    assert_eq!(names, vec!["a.md", "index.md", "c.md"]);
    assert!(plan[0].fresh);
    assert!(!plan[1].fresh);
    assert!(!plan[2].fresh);
}

#[test]
fn test_out_path_and_permalink() {
    let op = out_path("blog/content/a.md", "public", "Hello World", None);
    assert_eq!(op, "public/Hello-World/index.html");

    let slug = "hello".to_string();
    let op2 = out_path("blog/content/a.md", "public", "Hello World", Some(&slug));
    assert_eq!(op2, "public/hello/index.html");

    let op3 = out_path("blog/content/posts/index.md", "public", "Whatever", None);
    assert_eq!(op3, "public/posts/index.html");

    let link = permalink("public/hello/index.html", "public", "http://example.com/");
    assert_eq!(link, "http://example.com/hello/");

    let root = permalink("public/index.html", "public", "http://example.com/");
    assert_eq!(root, "http://example.com/");
}

#[test]
fn test_timestamps() {
    let t = parse_timestamp("2024-07-17T6:00:00").unwrap();
    assert_eq!(t, Timestamp { year: 2024, month: 7, day: 17, hour: 6, minute: 0, second: 0 });
    assert_eq!(ts_to_iso(&t), "2024-07-17 06:00:00");
    assert_eq!(parse_timestamp(&ts_to_iso(&t)), Some(t));
    assert_eq!(ts_to_display(&t), "Jul 17, 2024");
    let d = parse_timestamp("2024-07-07 06:00:00").unwrap();
    assert_eq!(ts_to_display(&d), "Jul  7, 2024");
    assert!(parse_timestamp("2023-02-29T00:00:00").is_none());
    assert!(parse_timestamp("2024-02-29T00:00:00").is_some());
    assert!(parse_timestamp("2024-13-01T00:00:00").is_none());
    assert!(parse_timestamp("nonsense").is_none());
}

#[test]
fn test_json_encoding() {
    assert_eq!(json_string("plain"), "\"plain\"");
    assert_eq!(json_string("a\"b\\c"), "\"a\\\"b\\\\c\"");
    assert_eq!(json_string("line\nbreak\ttab"), "\"line\\nbreak\\ttab\"");
    let tags = vec!["a".to_string(), "b\"x".to_string()];
    assert_eq!(json_str_array(&tags), "[\"a\",\"b\\\"x\"]");
    let empty: Vec<String> = Vec::new();
    assert_eq!(json_str_array(&empty), "[]");
    let round: Vec<String> = serde_json::from_str(&json_str_array(&tags)).unwrap();
    assert_eq!(round, tags);
}

#[test]
fn test_summary_truncation() {
    let short = "<p>short text</p>\n";
    assert_eq!(get_summary(short), short);

    let long_text = "x".repeat(200);
    let html = format!("<p>{long_text}</p>\n<p>dropped</p>\n");
    assert_eq!(get_summary(&html), format!("<p>{long_text}</p>\n"));
}

fn meta(path: &str, title: &str) -> PageMeta {
    PageMeta {
        path: path.to_string(),
        permalink: format!("http://example.com/{path}/"),
        title: title.to_string(),
        tags_json: "[]".to_string(),
        date: Timestamp { year: 2024, month: 1, day: 1, hour: 0, minute: 0, second: 0 },
        updated: Timestamp { year: 2024, month: 1, day: 1, hour: 0, minute: 0, second: 0 },
        summary: String::new(),
        hash: "0".repeat(16),
        fresh: false,
    }
}

#[test]
fn test_index_merge_keyed_by_path() {
    let existing = vec![meta("a.md", "Old A"), meta("b.md", "Old B")];
    let new = vec![meta("b.md", "New B"), meta("c.md", "New C")];
    let merged = merge_index(existing, new);

    let title_of = |p: &str| -> String {
        merged
            .iter()
            .find(|m| m.path == p)
            .map(|m| m.title.clone())
            .unwrap()
    };
    assert_eq!(merged.len(), 3);
    assert_eq!(title_of("a.md"), "Old A");
    assert_eq!(title_of("b.md"), "New B");
    assert_eq!(title_of("c.md"), "New C");
}

#[test]
fn test_artifact_contexts() {
    let pages = "[{\"path\":\"a.md\"}]".to_string();
    let atom = yar::site::atom_context_json("http://example.com/", "2024-01-01 00:00:00", &pages);
    assert_eq!(
        atom,
        "{\"feed_url\":\"http://example.com/atom.xml\",\"base_url\":\"http://example.com/\",\
         \"last_updated\":\"2024-01-01 00:00:00\",\"pages\":[{\"path\":\"a.md\"}]}"
    );
    let sitemap = yar::site::sitemap_context_json(&pages);
    assert_eq!(sitemap, "{\"pages\":[{\"path\":\"a.md\"}]}");
}

#[test]
fn test_asset_out_paths() {
    let a = Asset::new(
        "site/assets/styles/main.scss".to_string(),
        b"body { p { color: red; } }".to_vec(),
        "0".repeat(16),
        true,
        "public",
    )
    .unwrap();
    assert_eq!(a.out_path, "public/assets/styles/main.css");
    assert_eq!(a.content, b"body p{color:red}\n".to_vec());

    let passthrough = Asset::new(
        "site/assets/img/logo.png".to_string(),
        vec![1, 2, 3],
        "0".repeat(16),
        true,
        "public",
    )
    .unwrap();
    assert_eq!(passthrough.out_path, "public/assets/img/logo.png");
    assert_eq!(passthrough.content, vec![1, 2, 3]);

    let s = yar::static_file::StaticFile::new(
        "site/static/fonts/f.woff".to_string(),
        "0".repeat(16),
        false,
        "public",
    );
    assert_eq!(s.out_path, "public/static/fonts/f.woff");

    assert!(Asset::new(
        "site/assets/bad.scss".to_string(),
        b"this is not scss {".to_vec(),
        "0".repeat(16),
        true,
        "public",
    )
    .is_err());
}

fn post_at(path: &str) -> yar::postindex::PostInIndex {
    yar::postindex::PostInIndex {
        path: path.to_string(),
        permalink: format!("http://example.com/{path}/"),
        title: path.to_string(),
        tags_json: "[]".to_string(),
        date: Timestamp { year: 2024, month: 1, day: 1, hour: 0, minute: 0, second: 0 },
        updated: Timestamp { year: 2024, month: 1, day: 1, hour: 0, minute: 0, second: 0 },
        summary: String::new(),
    }
}

#[test]
fn test_posts_in_series() {
    let posts = vec![
        post_at("blog/content/series/rust/part1.md"),
        post_at("blog/content/posts/a.md"),
        post_at("blog/content/series/go/part1.md"),
        post_at("blog/content/series/rust/part2.md"),
    ];
    let selected = yar::postindex::posts_in_series(&posts, "rust");
    let names: Vec<&str> = selected.iter().map(|p| p.path.as_str()).collect();
    assert_eq!(
        names,
        vec!["blog/content/series/rust/part1.md", "blog/content/series/rust/part2.md"]
    );
}

#[test]
fn test_series_indexes() {
    let pages = vec![
        post_at("blog/content/series/rust/index.md"),
        post_at("blog/content/series/index.md"),
        post_at("blog/content/index.md"),
        post_at("blog/content/series/go/index.md"),
    ];
    let selected = yar::postindex::series_indexes(&pages);
    let names: Vec<&str> = selected.iter().map(|p| p.path.as_str()).collect();
    assert_eq!(
        names,
        vec!["blog/content/series/rust/index.md", "blog/content/series/go/index.md"]
    );
}

#[test]
fn test_merge_index_order() {
    let merged = merge_index(Vec::new(), vec![meta("x.md", "X"), meta("y.md", "Y")]);
    let names: Vec<&str> = merged.iter().map(|m| m.path.as_str()).collect();
    assert_eq!(names, vec!["x.md", "y.md"]);

    let merged = merge_index(
        vec![meta("a.md", "Old A"), meta("b.md", "Old B")],
        vec![meta("b.md", "New B"), meta("c.md", "New C")],
    );
    let names: Vec<&str> = merged.iter().map(|m| m.path.as_str()).collect();
    assert_eq!(names, vec!["a.md", "b.md", "c.md"]);
}

use yar::datetime::Timestamp;
use yar::markdown::render_markdown;

#[test]
fn test_parse_markdown() {
    let content = r#"---
title = "Test"
tags = ["a", "b", "c"]
---

Hello World
"#;
    let document = render_markdown(content, "Solarized (light)").unwrap();

    assert_eq!(document.frontmatter.title, "Test".to_string());
    assert_eq!(
        document.frontmatter.tags,
        vec!["a".to_string(), "b".to_string(), "c".to_string()]
    );
    assert_eq!(document.content, "<p>Hello World</p>\n".to_string());
}

#[test]
fn test_parse_template() {
    let content = r#"---
title = "Test"
tags = ["a", "b", "c"]
template = "index.html.tera"
---

Hello World
"#;
    let document = render_markdown(content, "Solarized (light)").unwrap();

    assert_eq!(
        document.frontmatter.template,
        Some("index.html.tera".to_string())
    );
}

#[test]
fn test_parse_date() {
    let content = r#"---
title = "Test"
tags = ["a", "b", "c"]
date = "2024-07-17T6:00:00"
---

Hello World
"#;
    let document = render_markdown(content, "Solarized (light)").unwrap();

    assert_eq!(
        document.date,
        Timestamp { year: 2024, month: 7, day: 17, hour: 6, minute: 0, second: 0 }
    );
}

#[test]
fn test_parse_updated() {
    let content = r#"---
title = "Test"
tags = ["a", "b", "c"]
date = "2024-07-12T6:00:00"
updated = "2024-07-17T6:00:00"
---

Hello World
"#;
    let document = render_markdown(content, "Solarized (light)").unwrap();

    assert_eq!(
        document.updated,
        Timestamp { year: 2024, month: 7, day: 17, hour: 6, minute: 0, second: 0 }
    );
}

#[test]
fn test_parse_updated_default() {
    let content = r#"---
title = "Test"
tags = ["a", "b", "c"]
date = "2024-07-12T6:00:00"
---

Hello World
"#;
    let document = render_markdown(content, "Solarized (light)").unwrap();

    assert_eq!(
        document.updated,
        Timestamp { year: 2024, month: 7, day: 12, hour: 6, minute: 0, second: 0 }
    );
}

#[test]
fn test_parse_slug() {
    let content = r#"---
title = "Test"
tags = ["a", "b", "c"]
slug = "test"
---

Hello World
"#;
    let document = render_markdown(content, "Solarized (light)").unwrap();

    assert_eq!(document.frontmatter.slug, Some("test".to_string()));
}

#[test]
fn test_parse_draft() {
    let content = r#"---
title = "Test"
tags = ["a", "b", "c"]
---

Hello World
"#;
    let document = render_markdown(content, "Solarized (light)").unwrap();

    assert!(!document.frontmatter.draft);

    let content = r#"---
title = "Test"
tags = ["a", "b", "c"]
draft = true
---

Hello World
"#;
    let document = render_markdown(content, "Solarized (light)").unwrap();
    assert!(document.frontmatter.draft);
}

#[test]
fn test_parse_series() {
    let content = r#"---
title = "Test"
tags = ["a", "b", "c"]

[series]
part = 1
---

Hello World
"#;
    let document = render_markdown(content, "Solarized (light)").unwrap();

    assert_eq!(document.frontmatter.series.unwrap().part, Some(1));
}

#[test]
fn test_parse_toc() {
    let content = r#"---
title = "Test"
tags = ["a", "b", "c"]
---

## First
hi

## Second
hi

## Third
hi
"#;
    let document = render_markdown(content, "Solarized (light)").unwrap();

    assert_eq!(document.toc, vec!["First", "Second", "Third"]);
}

#[test]
fn test_frontmatter_missing_title() {
    let content = "---\ntags = []\n---\n\nbody\n";
    assert!(render_markdown(content, "Solarized (light)").is_err());
}

#[test]
fn test_bad_date_is_error() {
    let content = "---\ntitle = \"T\"\ntags = []\ndate = \"not a date\"\n---\n\nbody\n";
    assert!(render_markdown(content, "Solarized (light)").is_err());
}

#[test]
fn test_frontmatter_wrong_types_are_errors() {
    let bad_template = "---\ntitle = \"T\"\ntags = []\ntemplate = 3\n---\n\nbody\n";
    assert!(render_markdown(bad_template, "Solarized (light)").is_err());
    let bad_draft = "---\ntitle = \"T\"\ntags = []\ndraft = \"x\"\n---\n\nbody\n";
    assert!(render_markdown(bad_draft, "Solarized (light)").is_err());
    let bad_series = "---\ntitle = \"T\"\ntags = []\nseries = 5\n---\n\nbody\n";
    assert!(render_markdown(bad_series, "Solarized (light)").is_err());
    let bad_tag = "---\ntitle = \"T\"\ntags = [1]\n---\n\nbody\n";
    assert!(render_markdown(bad_tag, "Solarized (light)").is_err());
}

#[test]
fn test_heading_anchors() {
    let content = "---\ntitle = \"T\"\ntags = []\n---\n\n## Section\n";
    let document = render_markdown(content, "Solarized (light)").unwrap();
    assert!(document.content.contains("id=\"section\""));
}

#[test]
fn test_code_fence_highlighting_depends_on_theme() {
    let content = "---\ntitle = \"T\"\ntags = []\n---\n\n```rust\nlet x = 1;\n```\n";
    let themed = render_markdown(content, "Solarized (light)").unwrap();
    let plain = render_markdown(content, "NoSuchTheme").unwrap();
    assert!(themed.content.contains("<pre"));
    assert_ne!(themed.content, plain.content);
}

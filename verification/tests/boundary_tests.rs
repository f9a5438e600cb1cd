use yar::asset::Stylesheet;
use yar::config::Config;
use yar::datetime::Timestamp;
use yar::fonts::{find_font_url, font_face_for, FontCache};
use yar::page::{render_page, Page};
use yar::postindex::PostInIndex;
use yar::sql::PostRow;
use yar::static_file::StaticAsset;

#[test]
fn test_find_font_url_extracts_match() {
    let style = "@font-face { src: url(https://example.com/Virgil.woff2); }";
    assert_eq!(
        find_font_url(style),
        Some("https://example.com/Virgil.woff2".to_string())
    );
    assert_eq!(find_font_url("no url here"), None);
}

#[test]
fn test_font_face_for_inlines_encoding() {
    assert_eq!(
        font_face_for(b"abc"),
        "@font-face{font-family:\"Virgil\";src:url(data:font/font;base64,YWJj);}"
    );
}

#[test]
fn test_font_cache_replaces_and_misses() {
    let mut cache = FontCache::new();
    let url = "https://example.com/Virgil.woff2".to_string();
    assert_eq!(cache.get(&url), None);
    cache.insert(url.clone(), "first".to_string());
    assert_eq!(cache.get(&url), Some("first".to_string()));
    cache.insert(url.clone(), "second".to_string());
    assert_eq!(cache.get(&url), Some("second".to_string()));
    assert_eq!(cache.get(&"https://example.com/other.woff2".to_string()), None);
}

#[test]
fn test_post_row_round_trip() {
    let row = PostRow {
        path: "a.md".to_string(),
        permalink: "http://example.com/a/".to_string(),
        title: "A".to_string(),
        tags_json: "[\"x\"]".to_string(),
        date: "2024-07-17 06:00:00".to_string(),
        updated: "2024-07-18 06:00:00".to_string(),
        summary: "s".to_string(),
    };
    let post = PostInIndex::from_row(row).unwrap();
    assert_eq!(post.date, Timestamp { year: 2024, month: 7, day: 17, hour: 6, minute: 0, second: 0 });
    let back = post.to_row();
    assert_eq!(back.date, "2024-07-17 06:00:00");
    assert_eq!(back.updated, "2024-07-18 06:00:00");

    let bad_tags = PostRow { tags_json: "not json".to_string(), ..row_fixture() };
    assert!(PostInIndex::from_row(bad_tags).is_err());
    let bad_date = PostRow { date: "yesterday".to_string(), ..row_fixture() };
    assert!(PostInIndex::from_row(bad_date).is_err());
}

fn row_fixture() -> PostRow {
    PostRow {
        path: "a.md".to_string(),
        permalink: "p".to_string(),
        title: "t".to_string(),
        tags_json: "[]".to_string(),
        date: "2024-01-01 00:00:00".to_string(),
        updated: "2024-01-01 00:00:00".to_string(),
        summary: String::new(),
    }
}

#[test]
fn test_render_page_minifies() {
    let mut tera = tera::Tera::new();
    tera.add_raw_template("post.html.tera", "<html>  <body>\n{{ markup }}   </body>\n</html>")
        .unwrap();
    let config = Config::default();
    let page = Page::new(
        &tera,
        &config,
        "posts/a.md".to_string(),
        "---\ntitle = \"Hello\"\ntags = []\ndate = \"2024-07-17T06:00:00\"\n---\n\nBody text.\n"
            .to_string(),
        "0".repeat(16),
        true,
    )
    .unwrap();
    let null_json = "null".to_string();
    let bytes = render_page(&page, &tera, &null_json, &null_json).unwrap();
    let html = String::from_utf8(bytes).unwrap();
    assert!(!html.contains("<html>  <body>"));
    assert!(html.contains("Body text."));
}

#[test]
fn test_stylesheet_out_path() {
    let sheet = Stylesheet::new("sass/site.scss".to_string(), "body {}".to_string());
    assert_eq!(sheet.css_out_path("public"), "public/styles/site.css");
}

#[test]
fn test_static_asset_directory() {
    assert_eq!(StaticAsset::new("static/fonts/f.woff".to_string()).directory(), "fonts");
    assert_eq!(StaticAsset::new("static/f.woff".to_string()).directory(), ".");
}

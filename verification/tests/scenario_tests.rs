use yar::config::Config;
use yar::entry::plan_entries;
use yar::page::Page;
use yar::sql::Db;

const POST_A: &str = "---\ntitle = \"Hello\"\ntags = []\ndate = \"2024-07-17T06:00:00\"\n---\n\nFirst post.\n";
const POST_A_EDITED: &str = "---\ntitle = \"Hello\"\ntags = []\ndate = \"2024-07-17T06:00:00\"\n---\n\nFirst post, edited.\n";

fn stored_hashes(db: &Db, paths: &[&str]) -> Vec<Option<String>> {
    paths.iter().map(|p| db.get_hash(p).unwrap()).collect()
}

#[test]
fn test_first_build_inserts_then_unchanged_is_noop() {
    let db = Db::open_in_memory().unwrap();
    let config = Config::default();
    let tera = tera::Tera::new();
    let specials = config.special_pages.clone();

    // First build: the file is new, so one fingerprint row and one post
    // index row appear, and the page maps to its slugged output path.
    let files = vec![("posts/a.md".to_string(), POST_A.as_bytes().to_vec())];
    let stored = stored_hashes(&db, &["posts/a.md"]);
    assert_eq!(stored, vec![None]);
    let plan = plan_entries(files, stored, &specials);
    assert_eq!(plan.len(), 1);
    assert!(plan[0].fresh);

    let entry = &plan[0];
    db.record_entry(&entry.path, &entry.hash, entry.fresh).unwrap();
    let page = Page::new(
        &tera,
        &config,
        entry.path.clone(),
        String::from_utf8(entry.raw_content.clone()).unwrap(),
        entry.hash.clone(),
        entry.fresh,
    )
    .unwrap();
    assert_eq!(page.out_path, "public/Hello/index.html");

    let post = yar::site::post_of(&page);
    db.record_post(&post.to_row(), page.fresh).unwrap();
    assert_eq!(db.get_post_rows().unwrap().len(), 1);

    // Second build with the file unchanged: nothing is classified for
    // work, so there are no fingerprint writes and no post index writes.
    let files = vec![("posts/a.md".to_string(), POST_A.as_bytes().to_vec())];
    let stored = stored_hashes(&db, &["posts/a.md"]);
    assert!(stored[0].is_some());
    let plan = plan_entries(files, stored, &specials);
    assert!(plan.is_empty());
    assert_eq!(db.get_post_rows().unwrap().len(), 1);
}

#[test]
fn test_edited_body_updates_in_place() {
    let db = Db::open_in_memory().unwrap();
    let config = Config::default();
    let tera = tera::Tera::new();
    let specials = config.special_pages.clone();

    let files = vec![("posts/a.md".to_string(), POST_A.as_bytes().to_vec())];
    let stored = stored_hashes(&db, &["posts/a.md"]);
    let plan = plan_entries(files, stored, &specials);
    let first_hash = plan[0].hash.clone();
    db.record_entry(&plan[0].path, &plan[0].hash, plan[0].fresh).unwrap();
    let page = Page::new(
        &tera,
        &config,
        plan[0].path.clone(),
        String::from_utf8(plan[0].raw_content.clone()).unwrap(),
        plan[0].hash.clone(),
        plan[0].fresh,
    )
    .unwrap();
    db.record_post(&yar::site::post_of(&page).to_row(), page.fresh).unwrap();

    // Editing the body changes the fingerprint: the file classifies as
    // changed (not fresh), the store row is updated rather than
    // inserted, and the post index still holds exactly one row.
    let files = vec![("posts/a.md".to_string(), POST_A_EDITED.as_bytes().to_vec())];
    let stored = stored_hashes(&db, &["posts/a.md"]);
    let plan = plan_entries(files, stored, &specials);
    assert_eq!(plan.len(), 1);
    assert!(!plan[0].fresh);
    assert_ne!(plan[0].hash, first_hash);

    db.record_entry(&plan[0].path, &plan[0].hash, plan[0].fresh).unwrap();
    assert_eq!(db.get_hash("posts/a.md").unwrap(), Some(plan[0].hash.clone()));

    let page = Page::new(
        &tera,
        &config,
        plan[0].path.clone(),
        String::from_utf8(plan[0].raw_content.clone()).unwrap(),
        plan[0].hash.clone(),
        plan[0].fresh,
    )
    .unwrap();
    db.record_post(&yar::site::post_of(&page).to_row(), page.fresh).unwrap();
    let rows = db.get_post_rows().unwrap();
    assert_eq!(rows.len(), 1);
}

#[test]
fn test_insert_twice_fails() {
    let db = Db::open_in_memory().unwrap();
    db.insert_entry("p.md", "h1").unwrap();
    assert!(db.insert_entry("p.md", "h2").is_err());
}

#[test]
fn test_update_without_row_fails() {
    let db = Db::open_in_memory().unwrap();
    assert!(db.update_entry_hash("absent.md", "h").is_err());
    db.insert_entry("present.md", "h1").unwrap();
    db.update_entry_hash("present.md", "h2").unwrap();
    assert_eq!(db.get_hash("present.md").unwrap(), Some("h2".to_string()));
}

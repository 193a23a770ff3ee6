use post_repo::codec::{decode, encode};
use post_repo::error::RepoError;
use post_repo::post::{from_document, load_post, UtcTime};
use post_repo::repo::{
    finish_create, finish_update, load_entry, new_post_path, plan_update, scan, to_slug,
    ScanEntry,
};
use post_repo::text::{full_path, relative_to};

const ROOT: &str = "/site";

fn entry(rel: &str, text: Option<&str>) -> ScanEntry {
    ScanEntry { path: full_path(ROOT, rel), text: text.map(String::from) }
}

#[test]
fn decode_splits_front_matter_and_body() {
    let raw = "+++\ntitle = \"T\"\n+++\nhello\nworld\n";
    let doc = decode(raw).unwrap();
    assert_eq!(doc.front_matter, "title = \"T\"");
    assert_eq!(doc.body, "hello\nworld\n");
}

#[test]
fn decode_then_encode_gives_back_the_text() {
    let raws = [
        "+++\ntitle = \"T\"\ntags = [\"a\", \"b\"]\n+++\nbody\n",
        "+++\n\n+++\n",
        "+++\ntitle = \"x\"\n+++\n\n\n  indented body\n+++\nmore",
    ];
    for raw in raws {
        let doc = decode(raw).unwrap();
        assert_eq!(encode(&doc.front_matter, &doc.body), raw);
    }
}

#[test]
fn encode_writes_the_toml_markers() {
    assert_eq!(encode("title = \"T\"", "old"), "+++\ntitle = \"T\"\n+++\nold");
}

#[test]
fn decode_rejects_missing_markers() {
    assert_eq!(decode("title = \"T\"\nbody").unwrap_err(), RepoError::MalformedDocument);
    assert_eq!(decode("").unwrap_err(), RepoError::MalformedDocument);
    assert_eq!(decode("---\ntitle: T\n---\nbody").unwrap_err(), RepoError::MalformedDocument);
}

#[test]
fn decode_rejects_unterminated_front_matter() {
    assert_eq!(decode("+++\ntitle = \"T\"\nbody").unwrap_err(), RepoError::MalformedDocument);
}

#[test]
fn decode_rejects_invalid_toml() {
    assert_eq!(decode("+++\ntitle = = T\n+++\nbody").unwrap_err(), RepoError::MalformedDocument);
}

#[test]
fn mapper_reads_every_field() {
    let fm = "title = \"T\"\ndescription = \"D\"\ntags = [\"b\", \"a\"]\ndraft = true\ndate = \"2020-01-02T03:04:05Z\"";
    let p = from_document(String::from("content/posts/x.md"), fm, String::from("body")).unwrap();
    assert_eq!(p.relative_path, "content/posts/x.md");
    assert_eq!(p.title, "T");
    assert_eq!(p.description, Some(String::from("D")));
    assert_eq!(p.tags, Some(vec![String::from("b"), String::from("a")]));
    assert_eq!(p.draft, Some(true));
    assert_eq!(p.content, "body");
    assert_eq!(p.date, Some(UtcTime { seconds: 1577934245, nanos: 0 }));
}

#[test]
fn mapper_converts_offsets_to_utc() {
    let fm = "title = \"T\"\ndate = \"2020-01-02T05:04:05.5+02:00\"";
    let p = from_document(String::from("p.md"), fm, String::new()).unwrap();
    assert_eq!(p.date, Some(UtcTime { seconds: 1577934245, nanos: 500_000_000 }));
}

#[test]
fn mapper_leaves_optional_fields_empty() {
    let p = from_document(String::from("p.md"), "title = \"Only\"", String::from("b")).unwrap();
    assert_eq!(p.title, "Only");
    assert_eq!(p.description, None);
    assert_eq!(p.tags, None);
    assert_eq!(p.draft, None);
    assert_eq!(p.date, None);
}

#[test]
fn mapper_requires_title() {
    let r = from_document(String::from("p.md"), "description = \"D\"", String::new());
    assert_eq!(r.unwrap_err(), RepoError::SchemaMismatch);
}

#[test]
fn mapper_rejects_mistyped_fields() {
    let cases = [
        "title = 3",
        "title = \"T\"\ndate = \"yesterday\"",
        "title = \"T\"\ntags = [\"a\", 2]",
        "title = \"T\"\ntags = \"a\"",
        "title = \"T\"\ndraft = \"yes\"",
        "title = \"T\"\ndescription = false",
    ];
    for fm in cases {
        let r = from_document(String::from("p.md"), fm, String::new());
        assert_eq!(r.unwrap_err(), RepoError::SchemaMismatch, "{}", fm);
    }
}

#[test]
fn mapper_rejects_text_that_is_not_toml() {
    let r = from_document(String::from("p.md"), "title = ", String::new());
    assert_eq!(r.unwrap_err(), RepoError::MalformedDocument);
}

#[test]
fn scan_keeps_valid_posts_and_skips_broken_ones() {
    let entries = vec![
        entry("content/posts/a.md", Some("+++\ntitle = \"A\"\n+++\na")),
        entry("content/posts/bad.md", Some("+++\ntitle = \n+++\nx")),
        entry("content/posts/b.md", Some("+++\ntitle = \"B\"\n+++\nb")),
        entry("content/posts/plain.md", Some("no front matter")),
        entry("content/posts/untitled.md", Some("+++\ndraft = true\n+++\n")),
        entry("content/posts/unreadable.md", None),
        ScanEntry { path: String::from("/elsewhere/c.md"), text: Some(String::from("+++\ntitle = \"C\"\n+++\n")) },
    ];
    let posts = scan(ROOT, &entries);
    assert_eq!(posts.len(), 2);
    assert_eq!(posts[0].title, "A");
    assert_eq!(posts[0].relative_path, "content/posts/a.md");
    assert_eq!(posts[1].title, "B");
    assert_eq!(posts[1].content, "b");
}

#[test]
fn scan_of_empty_directory_is_empty() {
    let posts = scan(ROOT, &Vec::new());
    assert!(posts.is_empty());
}

#[test]
fn load_entry_reports_absence() {
    assert!(load_entry(ROOT, &entry("content/posts/x.md", None)).is_none());
    let p = load_entry(ROOT, &entry("content/posts/x.md", Some("+++\ntitle = \"X\"\n+++\n"))).unwrap();
    assert_eq!(p.relative_path, "content/posts/x.md");
}

#[test]
fn relative_path_is_found_under_the_root() {
    assert_eq!(relative_to("/site", "/site/content/posts/a.md"), Some(String::from("content/posts/a.md")));
    assert_eq!(relative_to("/site", "/sites/a.md"), None);
    assert_eq!(relative_to("/site", "/site"), None);
    assert_eq!(full_path("/site", "content/posts/a.md"), "/site/content/posts/a.md");
}

#[test]
fn update_replaces_body_and_keeps_front_matter() {
    let rel = "content/posts/test.md";
    let fm = "title = \"T\"\ntags = [\"a\",\"b\"]";
    let before = encode(fm, "old");
    let text = plan_update(Some(before.clone()), "new").unwrap();
    assert_eq!(decode(&text).unwrap().front_matter, fm);
    assert_eq!(text, "+++\ntitle = \"T\"\ntags = [\"a\",\"b\"]\n+++\nnew");
    let post = finish_update(rel, true, Some(text)).unwrap();
    assert_eq!(post.title, "T");
    assert_eq!(post.tags, Some(vec![String::from("a"), String::from("b")]));
    assert_eq!(post.content, "new");
    assert_eq!(post.relative_path, rel);
}

#[test]
fn update_keeps_every_field_and_unknown_keys() {
    let rel = "content/posts/full.md";
    let fm = "title = \"T\"\ndescription = \"D\"\ntags = [\"x\"]\ndraft = false\ndate = \"2021-05-06T07:08:09Z\"\nweight = 3";
    let before = encode(fm, "old body");
    let old = load_post(rel, &before).unwrap();
    let text = plan_update(Some(before), "fresh").unwrap();
    assert!(text.contains("weight = 3"));
    let new = finish_update(rel, true, Some(text)).unwrap();
    assert_eq!(new.title, old.title);
    assert_eq!(new.description, old.description);
    assert_eq!(new.tags, old.tags);
    assert_eq!(new.draft, old.draft);
    assert_eq!(new.date, old.date);
    assert_eq!(new.content, "fresh");
}

#[test]
fn update_twice_is_update_once() {
    let rel = "content/posts/i.md";
    let before = String::from("+++\ntitle = \"I\"\n+++\nfirst");
    let once = plan_update(Some(before), "again").unwrap();
    let twice = plan_update(Some(once.clone()), "again").unwrap();
    assert_eq!(once, twice);
    let a = finish_update(rel, true, Some(once)).unwrap();
    let b = finish_update(rel, true, Some(twice)).unwrap();
    assert_eq!(a.content, b.content);
    assert_eq!(a.title, b.title);
}

#[test]
fn update_errors() {
    assert_eq!(plan_update(None, "x").unwrap_err(), RepoError::SourceUnreadable);
    assert_eq!(plan_update(Some(String::from("no markers")), "x").unwrap_err(), RepoError::MalformedDocument);
    let ok = String::from("+++\ntitle = \"T\"\n+++\nx");
    assert_eq!(finish_update("p.md", false, Some(ok.clone())).unwrap_err(), RepoError::WriteFailure);
    assert_eq!(finish_update("p.md", true, None).unwrap_err(), RepoError::PostVanishedAfterWrite);
    assert_eq!(finish_update("p.md", true, Some(String::from("broken"))).unwrap_err(), RepoError::PostVanishedAfterWrite);
}

#[test]
fn slug_of_title() {
    assert_eq!(to_slug(String::from("My Test String!!!1!1")), "my-test-string-1-1");
    assert_eq!(to_slug(String::from("  --test_-_cool")), "test-cool");
    assert_eq!(to_slug(String::from("This is a brave new world!!")), "this-is-a-brave-new-world");
}

#[test]
fn create_path_from_title() {
    assert_eq!(new_post_path("Hello, World!").unwrap(), "content/posts/hello-world.md");
    assert_eq!(new_post_path("Hello, World!").unwrap(), new_post_path("Hello, World!").unwrap());
}

#[test]
fn create_with_empty_title_is_refused() {
    assert_eq!(new_post_path("").unwrap_err(), RepoError::EmptySlug);
    assert_eq!(new_post_path("!!!").unwrap_err(), RepoError::EmptySlug);
}

#[test]
fn create_results() {
    let rel = "content/posts/hello-world.md";
    let text = Some(String::from("+++\ntitle = \"Hello, World!\"\ndraft = true\n+++\n"));
    let p = finish_create(rel, true, text.clone()).unwrap();
    assert_eq!(p.title, "Hello, World!");
    assert_eq!(p.draft, Some(true));
    assert_eq!(p.relative_path, rel);
    assert_eq!(finish_create(rel, false, text).unwrap_err(), RepoError::GeneratorUnavailable);
    assert_eq!(finish_create(rel, true, None).unwrap_err(), RepoError::CreatedFileUnreadable);
    assert_eq!(finish_create(rel, true, Some(String::from("x"))).unwrap_err(), RepoError::CreatedFileUnreadable);
}

use toot_thread::assemble::assemble;
use toot_thread::convert::{convert, fix_mention_spacing, render_fragment};
use toot_thread::fetch::media_to_fetch;
use toot_thread::filename::{filename_for, filename_from_segment};
use toot_thread::post::{Attachment, ConvertError, ConvertedFragment, Date, MediaRef, PostRecord};
use toot_thread::select::{continues, select_thread};
use toot_thread::thread::{build_document, front_matter_for, post_id_of};

const ROOT_URL: &str = "https://social.example/@alice/1001";

fn day() -> Date {
    Date::new(2023, 4, 5).unwrap()
}

fn post(id: &str, author: &str, html: &str, reply_to: Option<&str>, media: &[(&str, Option<&str>)]) -> PostRecord {
    PostRecord {
        id: id.to_string(),
        author_id: author.to_string(),
        created_at: day(),
        html_content: html.to_string(),
        in_reply_to_author_id: reply_to.map(|s| s.to_string()),
        attachments: media
            .iter()
            .map(|(u, a)| Attachment { source_url: u.to_string(), alt_text: a.map(|s| s.to_string()) })
            .collect(),
    }
}

fn fragment(md: &str) -> ConvertedFragment {
    ConvertedFragment { markdown: md.to_string(), media_refs: vec![] }
}

fn front(url: &str) -> String {
    format!("---\ntitle: \ntags: \nthumbnail: \npublished: 2023-04-05\ntoot: {}\n---\n\n", url)
}

fn manifest_pairs(v: &[MediaRef]) -> Vec<(String, String)> {
    v.iter().map(|m| (m.source_url.clone(), m.local_filename.clone())).collect()
}

#[test]
fn root_only_document() {
    let root = post("1001", "alice", "<p>Hello world</p>", None, &[]);
    let doc = build_document(&root, vec![], ROOT_URL).unwrap();
    let body = mdka::html_to_markdown("<p>Hello world</p>");
    assert!(body.contains("Hello world"));
    let expected = format!("{}{}\n", front(ROOT_URL), body.trim_end());
    assert_eq!(doc.markdown, expected);
    assert!(doc.markdown.ends_with("world\n"));
    assert!(doc.media_manifest.is_empty());
}

#[test]
fn thread_keeps_only_self_replies() {
    let root = post("1", "alice", "<p>first</p>", None, &[("https://m.example/a/root.png", None)]);
    let r1 = post("2", "alice", "<p>second</p>", Some("alice"), &[("https://m.example/a/two.jpeg", None)]);
    let other = post("3", "bob", "<p>intruder</p>", Some("alice"), &[("https://m.example/a/bob.png", None)]);
    let r2 = post("4", "alice", "<p>third</p>", None, &[("https://m.example/a/three.gif", Some("x"))]);
    let doc = build_document(&root, vec![r1, other, r2], ROOT_URL).unwrap();
    assert_eq!(
        manifest_pairs(&doc.media_manifest),
        vec![
            ("https://m.example/a/root.png".to_string(), "root.png".to_string()),
            ("https://m.example/a/two.jpeg".to_string(), "two.jpg".to_string()),
            ("https://m.example/a/three.gif".to_string(), "three.gif".to_string()),
        ]
    );
    let first = doc.markdown.find("first").unwrap();
    let second = doc.markdown.find("second").unwrap();
    let third = doc.markdown.find("third").unwrap();
    assert!(first < second && second < third);
    assert!(!doc.markdown.contains("intruder"));
}

#[test]
fn selection_drops_other_authors_and_branches() {
    let root = post("1", "alice", "", None, &[]);
    let first_kept = post("2", "alice", "", None, &[]);
    let branch = post("3", "alice", "", Some("carol"), &[]);
    let other = post("4", "bob", "", Some("alice"), &[]);
    let second_kept = post("5", "alice", "", Some("alice"), &[]);
    assert!(continues(&root, &first_kept));
    assert!(!continues(&root, &branch));
    assert!(!continues(&root, &other));
    let ids: Vec<String> = select_thread(&root, vec![first_kept, branch, other, second_kept]).into_iter().map(|p| p.id).collect();
    assert_eq!(ids, vec!["2".to_string(), "5".to_string()]);
}

#[test]
fn selection_of_nothing_is_empty() {
    let root = post("1", "alice", "", None, &[]);
    let other = post("4", "bob", "", None, &[]);
    assert!(select_thread(&root, vec![]).is_empty());
    assert!(select_thread(&root, vec![other]).is_empty());
}

#[test]
fn jpeg_attachment_with_alt_text() {
    assert_eq!(filename_for("https://example.com/media/abc123.jpeg").unwrap(), "abc123.jpg");
    let atts = vec![Attachment {
        source_url: "https://example.com/media/abc123.jpeg".to_string(),
        alt_text: Some("A cat".to_string()),
    }];
    let f = render_fragment("", &atts).unwrap();
    assert_eq!(f.markdown, "\n\n![A cat](abc123.jpg \"A cat\")");
    assert_eq!(manifest_pairs(&f.media_refs), vec![("https://example.com/media/abc123.jpeg".to_string(), "abc123.jpg".to_string())]);
}

#[test]
fn attachment_without_alt_text_has_no_title() {
    let atts = vec![Attachment { source_url: "https://example.com/m/dog.png".to_string(), alt_text: None }];
    let f = render_fragment("Body", &atts).unwrap();
    assert_eq!(f.markdown, "Body\n\n![](dog.png)");
}

#[test]
fn fragment_without_attachments_is_the_body() {
    let f = render_fragment("Just text", &vec![]).unwrap();
    assert_eq!(f.markdown, "Just text");
    assert!(f.media_refs.is_empty());
}

#[test]
fn mention_space_removed() {
    assert_eq!(fix_mention_spacing("[@ handle](https://x.example/@handle)"), "[@handle](https://x.example/@handle)");
    assert_eq!(fix_mention_spacing("hi [@ a](u) and [@ b](v) [@x]"), "hi [@a](u) and [@b](v) [@x]");
    assert_eq!(fix_mention_spacing("@ plain [ @ no"), "@ plain [ @ no");
    let f = render_fragment("see [@ bob](https://b.example)", &vec![]).unwrap();
    assert_eq!(f.markdown, "see [@bob](https://b.example)");
}

#[test]
fn all_present_fetches_nothing() {
    let manifest = vec![
        MediaRef { source_url: "https://m.example/a.png".to_string(), local_filename: "a.png".to_string() },
        MediaRef { source_url: "https://m.example/b.jpg".to_string(), local_filename: "b.jpg".to_string() },
    ];
    assert!(media_to_fetch(&manifest, &vec![true, true]).is_empty());
    assert_eq!(media_to_fetch(&manifest, &vec![false, true]), vec![0]);
    assert_eq!(media_to_fetch(&manifest, &vec![false, false]), vec![0, 1]);
}

#[test]
fn filename_extensions() {
    assert_eq!(filename_from_segment("photo.png").unwrap(), "photo.png");
    assert_eq!(filename_from_segment("photo.JPEG").unwrap(), "photo.JPEG");
    assert_eq!(filename_from_segment("a.b.jpeg").unwrap(), "a.b.jpg");
    assert_eq!(filename_from_segment("x.jpg").unwrap(), "x.jpg");
    assert_eq!(filename_from_segment("archive.tar.gz").unwrap(), "archive.tar.gz");
    assert!(filename_from_segment("noext").is_none());
    assert!(filename_from_segment(".jpeg").is_none());
    assert!(filename_from_segment("..").is_none());
    assert!(filename_from_segment("").is_none());
}

#[test]
fn filename_derivation_is_idempotent() {
    for seg in ["abc.jpeg", "abc.png", "q.r.jpeg", "z.jpg"] {
        let once = filename_from_segment(seg).unwrap();
        let twice = filename_from_segment(&once).unwrap();
        assert_eq!(once, twice);
    }
}

#[test]
fn malformed_urls_rejected() {
    assert_eq!(filename_for("https://example.com/media/noext"), Err(ConvertError::MalformedUrl));
    assert_eq!(filename_for("https://example.com/"), Err(ConvertError::MalformedUrl));
    assert_eq!(filename_for("not a url"), Err(ConvertError::MalformedUrl));
    assert_eq!(filename_for("mailto:someone@example.com"), Err(ConvertError::MalformedUrl));
    let root = post("1", "alice", "<p>x</p>", None, &[("https://example.com/media/noext", None)]);
    assert_eq!(build_document(&root, vec![], ROOT_URL).err(), Some(ConvertError::MalformedUrl));
    let bad_reply = post("2", "alice", "<p>y</p>", None, &[("::", None)]);
    let ok_root = post("1", "alice", "<p>x</p>", None, &[]);
    assert_eq!(build_document(&ok_root, vec![bad_reply], ROOT_URL).err(), Some(ConvertError::MalformedUrl));
}

#[test]
fn assembled_newlines_collapsed_and_trimmed() {
    let root = fragment("a\n\n\n\nb\n\n\n");
    let replies = vec![fragment("\n\nc  \n"), fragment("d \t\n\n\n")];
    let fm = vec![("k".to_string(), "v".to_string())];
    let doc = assemble(&root, &replies, &fm);
    assert_eq!(doc.markdown, "---\nk: v\n---\n\na\n\nb\n\nc  \n\nd\n");
    assert!(!doc.markdown.contains("\n\n\n"));
    assert!(doc.markdown.ends_with('\n') && !doc.markdown.ends_with("\n\n"));
}

#[test]
fn normalization_matches_regex_collapse() {
    let root = fragment("x\n\n\n\n\ny\n\n\nz\n");
    let replies = vec![fragment("\n\n\nw\n\n\n\n"), fragment("v   ")];
    let fm: Vec<(String, String)> = vec![];
    let doc = assemble(&root, &replies, &fm);
    let raw = "---\n---\n\nx\n\n\n\n\ny\n\n\nz\n\n\n\n\n\nw\n\n\n\n\n\nv   ";
    let re = regex::Regex::new(r"\n\n\n+").unwrap();
    let expected = re.replace_all(raw, "\n\n").trim_end().to_string() + "\n";
    assert_eq!(doc.markdown, expected);
}

#[test]
fn empty_document_is_a_single_newline_after_front_matter() {
    let doc = assemble(&fragment(""), &vec![], &vec![]);
    assert_eq!(doc.markdown, "---\n---\n");
}

#[test]
fn n_fragments_give_n_minus_one_breaks() {
    let root = fragment("one");
    let replies = vec![fragment("two"), fragment("three"), fragment("four")];
    let doc = assemble(&root, &replies, &vec![("t".to_string(), "".to_string())]);
    let body = doc.markdown.strip_prefix("---\nt: \n---\n\n").unwrap();
    assert_eq!(body, "one\n\ntwo\n\nthree\n\nfour\n");
    assert_eq!(body.matches("\n\n").count(), 3);
}

#[test]
fn manifest_concatenated_in_order() {
    let mk = |u: &str, f: &str| MediaRef { source_url: u.to_string(), local_filename: f.to_string() };
    let root = ConvertedFragment { markdown: "r".to_string(), media_refs: vec![mk("u1", "f1"), mk("u2", "f2")] };
    let replies = vec![
        ConvertedFragment { markdown: "a".to_string(), media_refs: vec![mk("u3", "f1")] },
        ConvertedFragment { markdown: "b".to_string(), media_refs: vec![] },
        ConvertedFragment { markdown: "c".to_string(), media_refs: vec![mk("u4", "f4")] },
    ];
    let doc = assemble(&root, &replies, &vec![]);
    assert_eq!(
        manifest_pairs(&doc.media_manifest),
        vec![
            ("u1".to_string(), "f1".to_string()),
            ("u2".to_string(), "f2".to_string()),
            ("u3".to_string(), "f1".to_string()),
            ("u4".to_string(), "f4".to_string()),
        ]
    );
}

#[test]
fn conversion_is_deterministic() {
    let p = post("9", "alice", "<p>Some <b>bold</b> [@ x]</p>", None, &[("https://e.example/p/q.jpeg", Some("alt"))]);
    let a = convert(&p).unwrap();
    let b = convert(&p).unwrap();
    assert_eq!(a.markdown, b.markdown);
    assert_eq!(manifest_pairs(&a.media_refs), manifest_pairs(&b.media_refs));
    assert!(!a.markdown.contains("<b>"));
    assert!(a.markdown.ends_with("\n\n![alt](q.jpg \"alt\")"));
}

#[test]
fn front_matter_entries() {
    let fm = front_matter_for(&Date::new(987, 1, 9).unwrap(), "https://s.example/@a/5");
    let pairs: Vec<(String, String)> = fm;
    assert_eq!(
        pairs,
        vec![
            ("title".to_string(), "".to_string()),
            ("tags".to_string(), "".to_string()),
            ("thumbnail".to_string(), "".to_string()),
            ("published".to_string(), "0987-01-09".to_string()),
            ("toot".to_string(), "https://s.example/@a/5".to_string()),
        ]
    );
}

#[test]
fn dates_checked_and_formatted() {
    assert!(Date::new(2023, 13, 1).is_none());
    assert!(Date::new(2023, 0, 1).is_none());
    assert!(Date::new(2023, 1, 0).is_none());
    assert!(Date::new(2023, 1, 32).is_none());
    assert!(Date::new(10000, 1, 1).is_none());
    let d = Date::new(2024, 12, 31).unwrap();
    assert_eq!(d.format(), "2024-12-31");
}

#[test]
fn post_id_is_last_segment() {
    assert_eq!(post_id_of("https://mastodon.social/@user/109876").unwrap(), "109876");
    assert_eq!(post_id_of("https://mastodon.social/@user/109876?x=1").unwrap(), "109876");
    assert!(post_id_of("no url").is_none());
}

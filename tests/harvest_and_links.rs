use guild_archive::harvest::{attachment_resource, attachment_resources, extension, link_resource, ResourceNames};
use guild_archive::links::{
    accepts_content_type, classify_response, is_document_subtype, link_candidates, links_to_probe, plan_link,
    plan_parsed_link, LinkTarget, LinkVerdict, UrlParts,
};
use guild_archive::model::{HarvestedResource, Message, PlatformAttachment, ResourceOrigin};
use guild_archive::text::{decimal_text, first_word_of, same_text};

fn attachment(id: u64, filename: &str) -> PlatformAttachment {
    PlatformAttachment { id, filename: filename.to_string(), source_url: format!("https://cdn.example/{}", id) }
}

fn target(url: &str, segment: &str, domain: &str) -> LinkTarget {
    LinkTarget { url: url.to_string(), segment: segment.to_string(), domain: domain.to_string() }
}

#[test]
fn decimal_text_writes_numbers() {
    assert_eq!(decimal_text(0), "0");
    assert_eq!(decimal_text(7), "7");
    assert_eq!(decimal_text(1034510586840621136), "1034510586840621136");
    assert_eq!(decimal_text(u64::MAX), u64::MAX.to_string());
}

#[test]
fn first_word_skips_ascii_whitespace() {
    assert_eq!(first_word_of("  application/pdf  x"), Some("application/pdf".to_string()));
    assert_eq!(first_word_of("\t\r\n"), None);
    assert_eq!(first_word_of(""), None);
    assert_eq!(first_word_of("one"), Some("one".to_string()));
    assert!(same_text("abc", "abc"));
    assert!(!same_text("abc", "abd"));
    assert!(!same_text("ab", "abc"));
}

#[test]
fn candidates_are_found_in_order() {
    let found = link_candidates("see https://example.com/docs/a.pdf, then (www.test.org/x) ok");
    assert_eq!(found, vec!["https://example.com/docs/a.pdf".to_string(), "www.test.org/x".to_string()]);
    assert!(link_candidates("no links here").is_empty());
}

#[test]
fn links_to_probe_parse_and_filter() {
    let ignored = vec!["twitter.com".to_string()];
    let body = "a https://example.com/docs/a.pdf b https://twitter.com/x/status/1 c www.test.org/x";
    let targets = links_to_probe(body, &ignored);
    assert_eq!(targets, vec![target("https://example.com/docs/a.pdf", "a.pdf", "example.com")]);
}

#[test]
fn ignored_domain_is_rejected_without_probe() {
    let ignored = vec!["twitter.com".to_string()];
    assert_eq!(plan_link("https://twitter.com/someone/status/5", &ignored), None);
    assert_eq!(
        plan_link("https://example.org/files/report.pdf", &ignored),
        Some(target("https://example.org/files/report.pdf", "report.pdf", "example.org"))
    );
}

#[test]
fn links_without_domain_or_unparsable_are_not_probed() {
    let ignored = vec![];
    assert_eq!(plan_link("http://127.0.0.1/file.pdf", &ignored), None);
    assert_eq!(plan_link("not a url", &ignored), None);
    assert_eq!(plan_link("www.test.org/x", &ignored), None);
    let parts = UrlParts { href: "https://a.b/".to_string(), domain: Some("a.b".to_string()), last_segment: None };
    assert_eq!(plan_parsed_link(Some(parts), &ignored), None);
    assert_eq!(plan_parsed_link(None, &ignored), None);
}

#[test]
fn pdf_is_accepted_and_html_rejected() {
    let url = "https://example.com/a.pdf".to_string();
    assert_eq!(
        classify_response(url.clone(), Some("application/pdf".to_string())),
        LinkVerdict::Accepted(url.clone())
    );
    assert_eq!(classify_response(url.clone(), Some("text/html".to_string())), LinkVerdict::Rejected);
    assert_eq!(classify_response(url.clone(), Some("text/html; charset=utf-8".to_string())), LinkVerdict::Rejected);
    assert_eq!(classify_response(url, None), LinkVerdict::Rejected);
}

#[test]
fn content_type_parsing_edges() {
    assert!(accepts_content_type("  application/pdf"));
    assert!(accepts_content_type("APPLICATION/PDF"));
    assert!(!accepts_content_type(""));
    assert!(!accepts_content_type("pdf"));
    assert!(!accepts_content_type("application/octet-stream"));
    assert!(is_document_subtype(&Some("pdf".to_string())));
    assert!(!is_document_subtype(&Some("html".to_string())));
    assert!(!is_document_subtype(&None));
}

#[test]
fn extension_follows_first_dot() {
    assert_eq!(extension("photo.png"), Some("png".to_string()));
    assert_eq!(extension("archive.tar.gz"), Some("tar.gz".to_string()));
    assert_eq!(extension("README"), None);
    assert_eq!(extension("trailing."), None);
}

#[test]
fn attachment_files_are_named_by_id() {
    let mut names = ResourceNames::new();
    let r = attachment_resource(&attachment(42, "image.png"), true, &mut names);
    assert_eq!(r.filename, "42 - image.png");
    assert_eq!(r.source_url, "https://cdn.example/42");
    assert_eq!(r.origin, ResourceOrigin::Attachment);
    assert_eq!(r.stored_as, Some("42.png".to_string()));
    let r = attachment_resource(&attachment(43, "notes"), true, &mut names);
    assert_eq!(r.stored_as, Some("notes".to_string()));
    let r = attachment_resource(&attachment(44, "notes"), true, &mut names);
    assert_eq!(r.stored_as, Some("44".to_string()));
    assert_eq!(names.used, vec!["42.png".to_string(), "notes".to_string(), "44".to_string()]);
}

#[test]
fn attachments_are_recorded_without_download() {
    let mut names = ResourceNames::new();
    let r = attachment_resource(&attachment(42, "image.png"), false, &mut names);
    assert_eq!(r.filename, "42 - image.png");
    assert_eq!(r.stored_as, None);
    assert!(names.used.is_empty());
}

#[test]
fn message_attachments_claim_names_in_turn() {
    let message = Message {
        id: 1,
        author_id: 2,
        author_name: "x".to_string(),
        body_text: String::new(),
        created_at: 0,
        attachments: vec![attachment(5, "a.txt"), attachment(6, "b"), attachment(7, "b")],
    };
    let mut names = ResourceNames::new();
    let r = attachment_resources(&message, true, &mut names);
    let stored: Vec<Option<String>> = r.iter().map(|h| h.stored_as.clone()).collect();
    assert_eq!(stored, vec![Some("5.txt".to_string()), Some("b".to_string()), Some("7".to_string())]);
    let mut names = ResourceNames::new();
    let r = attachment_resources(&message, false, &mut names);
    assert_eq!(r.len(), 3);
    assert!(r.iter().all(|h| h.stored_as.is_none()));
}

#[test]
fn link_files_fall_back_to_domain_on_collision() {
    let mut names = ResourceNames::new();
    let a = link_resource(&target("https://one.example/doc.pdf", "doc.pdf", "one.example"), "https://one.example/doc.pdf".to_string(), &mut names);
    assert_eq!(a.stored_as, Some("doc.pdf".to_string()));
    assert_eq!(a.filename, "doc.pdf");
    assert_eq!(a.origin, ResourceOrigin::Link);
    let b = link_resource(&target("https://two.example/doc.pdf", "doc.pdf", "two.example"), "https://two.example/doc.pdf".to_string(), &mut names);
    assert_eq!(b.stored_as, Some("two.example".to_string()));
    let c = link_resource(&target("https://two.example/x/doc.pdf", "doc.pdf", "two.example"), "https://two.example/x/doc.pdf".to_string(), &mut names);
    assert_eq!(c.stored_as, None);
    let d = link_resource(&target("https://three.example/", "", "three.example"), "https://three.example/".to_string(), &mut names);
    assert_eq!(d.stored_as, Some("three.example".to_string()));
}

#[test]
fn stored_names_are_sanitized() {
    let mut names = ResourceNames::new();
    let a = link_resource(&target("https://x.example/a:b.pdf", "a:b.pdf", "x.example"), "https://y.example/a.pdf".to_string(), &mut names);
    assert_eq!(a.stored_as, Some("a_b.pdf".to_string()));
    assert_eq!(a.source_url, "https://y.example/a.pdf");
    let r = attachment_resource(&attachment(8, "x.t*t"), true, &mut names);
    assert_eq!(r.stored_as, Some("8.t_t".to_string()));
}

#[test]
fn failed_write_drops_the_stored_name() {
    let mut r = HarvestedResource {
        filename: "f".to_string(),
        source_url: "u".to_string(),
        origin: ResourceOrigin::Link,
        stored_as: Some("f".to_string()),
    };
    r.mark_not_stored();
    assert_eq!(r.stored_as, None);
    assert_eq!(r.filename, "f");
}

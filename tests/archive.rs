use dmslite::archive::{
    archive_file_name, archive_target, file_extension, is_archive_identifier, is_intake_document,
    is_page_image, page_image_name,
};

#[test]
fn archiving_keeps_the_extension() {
    assert_eq!(archive_file_name("report.pdf", "abc123"), "abc123.pdf");
    assert_eq!(archive_file_name("scan.2024.PDF", "ff00"), "ff00.PDF");
    assert_eq!(archive_file_name("noext", "ff00"), "ff00");
    assert_eq!(archive_file_name(".profile", "ff00"), "ff00");
    assert_eq!(archive_file_name("dot.", "ff00"), "ff00");
}

#[test]
fn archive_target_joins_directory_id_and_extension() {
    let id = "0123456789abcdef".repeat(4);
    assert_eq!(archive_target("/srv/storage/", "report.pdf", &id), format!("/srv/storage/{}.pdf", id));
    assert_eq!(archive_target("/srv/storage/", "README", &id), format!("/srv/storage/{}", id));
}

#[test]
fn archive_identifiers_are_64_lowercase_hex_digits() {
    let id = "0123456789abcdef".repeat(4);
    assert!(is_archive_identifier(&id));
    assert!(!is_archive_identifier(&id[1..]));
    assert!(!is_archive_identifier(&id.to_uppercase()));
    assert!(!is_archive_identifier(&format!("{}g", &id[1..])));
    assert!(!is_archive_identifier(""));
}

#[test]
fn extensions_follow_the_last_dot() {
    assert_eq!(file_extension("a.b.c"), Some("c".to_string()));
    assert_eq!(file_extension("report.pdf"), Some("pdf".to_string()));
    assert_eq!(file_extension("x."), Some(String::new()));
    assert_eq!(file_extension(".profile"), None);
    assert_eq!(file_extension("plain"), None);
    assert_eq!(file_extension(""), None);
}

#[test]
fn intake_entries_are_classified() {
    assert!(is_intake_document("report.pdf"));
    assert!(is_intake_document(".pdf"));
    assert!(!is_intake_document("report.PDF"));
    assert!(!is_intake_document("output.txt"));
    assert!(!is_intake_document("pdf"));
    assert!(is_page_image("report.pdf-1.jpg"));
    assert!(!is_page_image("report.jpeg"));
    assert!(!is_page_image(".jpg"));
    assert!(!is_page_image("report.pdf"));
}

#[test]
fn page_image_is_named_after_the_file() {
    assert_eq!(page_image_name("report.pdf"), "report.pdf-1.jpg");
    assert_eq!(page_image_name("a.b.pdf"), "a.b.pdf-1.jpg");
    assert_eq!(page_image_name("nodot"), "nodot-1.jpg");
}

use neatify::classify::{builtin_category, category_for, classify, custom_lookup, dest_rel};
use neatify::paths::{extension_of, is_reserved, journal_file_name, parent_of, path_ok};

fn no_custom() -> Vec<(String, Vec<String>)> {
    Vec::new()
}

#[test]
fn builtin_documents_and_media() {
    let c = builtin_category("pdf");
    assert_eq!(c.main_folder, "Documents");
    assert_eq!(c.sub_folder, "PDF");
    let c = builtin_category("jpg");
    assert_eq!(c.main_folder, "Media");
    assert_eq!(c.sub_folder, "Images");
    let c = builtin_category("rs");
    assert_eq!(c.main_folder, "Code");
    assert_eq!(c.sub_folder, "Rust");
}

#[test]
fn builtin_flat_categories_have_no_subfolder() {
    let c = builtin_category("zip");
    assert_eq!(c.main_folder, "Archives");
    assert_eq!(c.sub_folder, "");
    let c = builtin_category("exe");
    assert_eq!(c.main_folder, "Applications");
    assert_eq!(c.sub_folder, "");
}

#[test]
fn builtin_lookup_lowercases_first() {
    let c = builtin_category("PDF");
    assert_eq!(c.main_folder, "Documents");
    assert_eq!(c.sub_folder, "PDF");
    let c = builtin_category("JpEg");
    assert_eq!(c.main_folder, "Media");
    assert_eq!(c.sub_folder, "Images");
}

#[test]
fn unmatched_extension_falls_back_to_others() {
    let c = builtin_category("unknownext");
    assert_eq!(c.main_folder, "Others");
    assert_eq!(c.sub_folder, "");
}

#[test]
fn no_extension_goes_straight_to_others() {
    let c = category_for("README", &no_custom());
    assert_eq!(c.main_folder, "Others");
    assert_eq!(c.sub_folder, "");
    let c = category_for(".bashrc", &no_custom());
    assert_eq!(c.main_folder, "Others");
    assert_eq!(c.sub_folder, "");
}

#[test]
fn custom_category_wins_over_builtin() {
    let custom = vec![
        ("Reports".to_string(), vec!["pdf".to_string(), "docx".to_string()]),
        ("Pictures".to_string(), vec!["pdf".to_string()]),
    ];
    let c = category_for("q.pdf", &custom);
    assert_eq!(c.main_folder, "Reports");
    assert_eq!(c.sub_folder, "");
    let c = category_for("q.docx", &custom);
    assert_eq!(c.main_folder, "Reports");
    let c = category_for("q.jpg", &custom);
    assert_eq!(c.main_folder, "Media");
    assert_eq!(c.sub_folder, "Images");
}

#[test]
fn custom_lookup_first_match_wins() {
    let custom = vec![
        ("A".to_string(), vec!["xyz".to_string()]),
        ("B".to_string(), vec!["xyz".to_string()]),
    ];
    assert_eq!(custom_lookup(&custom, "xyz"), Some("A".to_string()));
    assert_eq!(custom_lookup(&custom, "XYZ"), Some("A".to_string()));
    assert_eq!(custom_lookup(&custom, "none"), None);
}

#[test]
fn classify_handles_missing_extension() {
    let c = classify(&None, &no_custom());
    assert_eq!(c.main_folder, "Others");
    let c = classify(&Some("mp3".to_string()), &no_custom());
    assert_eq!(c.main_folder, "Media");
    assert_eq!(c.sub_folder, "Audio");
}

#[test]
fn dest_rel_joins_only_when_subfolder_exists() {
    let c = builtin_category("pdf");
    assert_eq!(dest_rel(&c), "Documents/PDF");
    let c = builtin_category("zip");
    assert_eq!(dest_rel(&c), "Archives");
}

#[test]
fn extension_extraction() {
    assert_eq!(extension_of("a.pdf"), Some("pdf".to_string()));
    assert_eq!(extension_of("a.PDF"), Some("PDF".to_string()));
    assert_eq!(extension_of("archive.tar.gz"), Some("gz".to_string()));
    assert_eq!(extension_of("noext"), None);
    assert_eq!(extension_of(".bashrc"), None);
    assert_eq!(extension_of("trailing."), Some("".to_string()));
}

#[test]
fn parent_extraction() {
    assert_eq!(parent_of("root/a.pdf"), "root");
    assert_eq!(parent_of("root/Documents/PDF/a.pdf"), "root/Documents/PDF");
    assert_eq!(parent_of("bare"), "");
}

#[test]
fn reserved_artifacts_are_recognized() {
    assert_eq!(journal_file_name(), ".neatify_log");
    assert!(is_reserved(".neatify_log"));
    assert!(is_reserved(".organizer_backup"));
    assert!(!is_reserved("a.pdf"));
    assert!(!is_reserved(".bashrc"));
}

#[test]
fn path_cleanliness() {
    assert!(path_ok("root/a.pdf"));
    assert!(!path_ok("bad|name"));
    assert!(!path_ok("bad\nname"));
}

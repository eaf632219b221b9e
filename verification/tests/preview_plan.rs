use neatify::organize::OrganizeError;
use neatify::preview::{get_organization_plan, PreviewData};
use neatify::progress::progress_value;

fn no_custom() -> Vec<(String, Vec<String>)> {
    Vec::new()
}

fn plan_of(p: PreviewData) -> Vec<(String, Vec<String>)> {
    p.plan
}

#[test]
fn plan_groups_by_destination_folder() {
    let entries = vec![
        "a.pdf".to_string(),
        "b.jpg".to_string(),
        "c.pdf".to_string(),
        "d.unknownext".to_string(),
    ];
    let p = get_organization_plan(true, &entries, &no_custom()).unwrap();
    let plan = plan_of(p);
    assert_eq!(
        plan,
        vec![
            ("Documents/PDF".to_string(), vec!["a.pdf".to_string(), "c.pdf".to_string()]),
            ("Media/Images".to_string(), vec!["b.jpg".to_string()]),
            ("Others".to_string(), vec!["d.unknownext".to_string()]),
        ]
    );
}

#[test]
fn plan_uses_custom_categories_first() {
    let custom = vec![("Homework".to_string(), vec!["pdf".to_string()])];
    let entries = vec!["a.pdf".to_string(), "b.jpg".to_string()];
    let p = get_organization_plan(true, &entries, &custom).unwrap();
    let plan = plan_of(p);
    assert_eq!(
        plan,
        vec![
            ("Homework".to_string(), vec!["a.pdf".to_string()]),
            ("Media/Images".to_string(), vec!["b.jpg".to_string()]),
        ]
    );
}

#[test]
fn plan_of_missing_directory_fails() {
    match get_organization_plan(false, &vec!["a.pdf".to_string()], &no_custom()) {
        Err(OrganizeError::NotFound) => {}
        _ => panic!("expected NotFound"),
    }
}

#[test]
fn plan_of_empty_directory_is_empty() {
    let p = get_organization_plan(true, &Vec::new(), &no_custom()).unwrap();
    assert!(plan_of(p).is_empty());
}

#[test]
fn plan_skips_reserved_artifacts() {
    let entries = vec![".neatify_log".to_string(), "a.pdf".to_string()];
    let p = get_organization_plan(true, &entries, &no_custom()).unwrap();
    let plan = plan_of(p);
    assert_eq!(plan, vec![("Documents/PDF".to_string(), vec!["a.pdf".to_string()])]);
}

#[test]
fn progress_formula_rounds_down() {
    assert_eq!(progress_value(0, 5), 0);
    assert_eq!(progress_value(1, 3), 33);
    assert_eq!(progress_value(2, 3), 66);
    assert_eq!(progress_value(3, 3), 100);
    assert_eq!(progress_value(1, 1), 100);
    assert_eq!(progress_value(1, 7), 14);
}

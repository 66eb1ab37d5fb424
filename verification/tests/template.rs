use system_world::output_template::has_indexable_template;

#[test]
fn detects_page_number_placeholders() {
    assert!(has_indexable_template("page-{p}.png"));
    assert!(has_indexable_template("page-{0p}.png"));
    assert!(has_indexable_template("page-{n}.png"));
    assert!(!has_indexable_template("page-{t}.png"));
    assert!(!has_indexable_template("page.png"));
    assert!(!has_indexable_template(""));
}

#[test]
fn plain_page_number() {
    assert_eq!(system_world::output_template::format("page-{p}.png", 3, 12), "page-3.png");
}

#[test]
fn padded_page_number_uses_width_of_page_count() {
    assert_eq!(system_world::output_template::format("page-{0p}.png", 3, 120), "page-003.png");
    assert_eq!(system_world::output_template::format("page-{n}.png", 41, 120), "page-041.png");
    assert_eq!(system_world::output_template::format("page-{0p}.png", 3, 9), "page-3.png");
}

#[test]
fn total_page_count() {
    assert_eq!(system_world::output_template::format("{p}-of-{t}.png", 7, 12), "7-of-12.png");
}

#[test]
fn every_occurrence_is_replaced() {
    assert_eq!(system_world::output_template::format("{p}/{p}", 5, 5), "5/5");
}

#[test]
fn text_without_placeholders_is_unchanged() {
    assert_eq!(system_world::output_template::format("page.png", 3, 12), "page.png");
}

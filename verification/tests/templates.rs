use blogr_themes::templates::ThemeTemplates;

#[test]
fn base_template_is_first() {
    let templates = ThemeTemplates::new("base.html", "BASE")
        .with_template("index.html", "INDEX")
        .with_template("post.html", "POST");
    let all = templates.into_vec();
    assert_eq!(all[0], ("base.html", "BASE"));
}

#[test]
fn templates_keep_registration_order() {
    let templates = ThemeTemplates::new("base.html", "BASE")
        .with_template("index.html", "INDEX")
        .with_template("post.html", "POST")
        .with_template("archive.html", "ARCHIVE");
    assert_eq!(
        templates.into_vec(),
        vec![
            ("base.html", "BASE"),
            ("index.html", "INDEX"),
            ("post.html", "POST"),
            ("archive.html", "ARCHIVE")
        ]
    );
}

#[test]
fn new_bundle_holds_only_the_base() {
    let all = ThemeTemplates::new("base.html", "BASE").into_vec();
    assert_eq!(all, vec![("base.html", "BASE")]);
}

#[test]
fn a_template_named_like_the_base_goes_behind_it() {
    let all = ThemeTemplates::new("base.html", "BASE")
        .with_template("base.html", "OTHER")
        .into_vec();
    assert_eq!(all, vec![("base.html", "BASE"), ("base.html", "OTHER")]);
}

#[test]
fn get_reads_by_position() {
    let templates = ThemeTemplates::new("base.html", "BASE").with_template("index.html", "INDEX");
    assert_eq!(templates.base_entry(), ("base.html", "BASE"));
    assert_eq!(templates.get(0), Some(("base.html", "BASE")));
    assert_eq!(templates.get(1), Some(("index.html", "INDEX")));
    assert_eq!(templates.get(2), None);
    assert_eq!(templates.get(usize::MAX), None);
}

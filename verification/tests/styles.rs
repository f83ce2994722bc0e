use gnvim::tooltip::attribute_filter;

#[test]
fn keeps_allowed_styles() {
    assert_eq!(
        attribute_filter("span", "style", "color:#0Aff00;font-weight:bold;font-style:italic"),
        Some("color:#0aff00;font-weight:bold;font-style:italic;".to_string())
    );
    assert_eq!(
        attribute_filter("span", "style", "background-color:#123456;text-decorator:underline;"),
        Some("background-color:#123456;text-decorator:underline;".to_string())
    );
}

#[test]
fn drops_other_styles() {
    assert_eq!(
        attribute_filter("span", "style", "font-weight:lighter;position:fixed;color:red;a:b:c"),
        Some("".to_string())
    );
    assert_eq!(attribute_filter("span", "style", ""), Some("".to_string()));
}

#[test]
fn drops_other_attributes() {
    assert_eq!(attribute_filter("span", "class", "x"), None);
    assert_eq!(attribute_filter("div", "style", "color:#000000"), None);
}

use gnvim::font::{Font, FontUnit, DEFAULT_HEIGHT};

#[test]
fn test_as_wild_css() {
    let font = Font { name: "foo".to_string(), height: 10 };

    assert_eq!(
        font.as_wild_css(FontUnit::Point),
        "* { \
         font-family: \"foo\"; \
         font-size: 10pt; \
         }"
    );

    assert_eq!(
        font.as_wild_css(FontUnit::Pixel),
        "* { \
         font-family: \"foo\"; \
         font-size: 10px; \
         }"
    );
}

#[test]
fn test_from_guifont() {
    // Font with proper height.
    let f = Font::from_guifont("monospace:h11").unwrap();
    assert_eq!(f.name, "monospace");
    assert_eq!(f.height, 11);

    // Font with invalid height.
    let f = Font::from_guifont("font:h");
    assert_eq!(f.is_err(), true);
    let f = Font::from_guifont("font:hn");
    assert_eq!(f.is_err(), true);
    let f = Font::from_guifont("font:h-1");
    assert_eq!(f.is_err(), true);

    // Font with height zero.
    let f = Font::from_guifont("foo:h0").unwrap();
    assert_eq!(f.name, "foo");
    assert_eq!(f.height, DEFAULT_HEIGHT);

    // Font with no hegith.
    let f = Font::from_guifont("bar").unwrap();
    assert_eq!(f.name, "bar");
    assert_eq!(f.height, DEFAULT_HEIGHT);
}

#[test]
fn guifont_options() {
    // Other options are skipped; the last height wins; a plus sign is fine.
    let f = Font::from_guifont("Fira Code:b:h9:h+13").unwrap();
    assert_eq!(f.name, "Fira Code");
    assert_eq!(f.height, 13);
    // Empty options are skipped.
    let f = Font::from_guifont("x::h7").unwrap();
    assert_eq!(f.height, 7);
    // Too big for a usize.
    assert!(Font::from_guifont("x:h99999999999999999999999").is_err());
    // Empty name.
    let f = Font::from_guifont("").unwrap();
    assert_eq!(f.name, "");
    assert_eq!(f.height, DEFAULT_HEIGHT);
}

#[test]
fn default_font() {
    let f = Font::default();
    assert_eq!(f.name, "Monospace");
    assert_eq!(f.height, 14);
    assert_eq!(f.as_wild_css(FontUnit::Pixel), "* { font-family: \"Monospace\"; font-size: 14px; }");
}

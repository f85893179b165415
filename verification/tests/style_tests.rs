use xlsxlite::style::FontStyle;
use xlsxlite::style::Style;
use xlsxlite::style::UnderLine;

#[test]
fn identical_font_attributes_share_a_style_id() {
    let mut style = Style::new();
    let id1 = style.add_cell_xf(Some(&FontStyle::new().bold(true)));
    let id2 = style.add_cell_xf(Some(&FontStyle::new().bold(true)));
    assert_eq!(id1, id2);
}

#[test]
fn a_differing_attribute_yields_a_distinct_id() {
    let mut style = Style::new();
    let bold = style.add_cell_xf(Some(&FontStyle::new().bold(true)));
    let plain_but_struck = style.add_cell_xf(Some(&FontStyle::new().strike(true)));
    let italic = style.add_cell_xf(Some(&FontStyle::new().italic(true)));
    assert_ne!(bold, plain_but_struck);
    assert_ne!(bold, italic);
    assert_ne!(plain_but_struck, italic);
}

#[test]
fn styled_cells_never_resolve_to_the_default_id() {
    let mut style = Style::new();
    let bold = style.add_cell_xf(Some(&FontStyle::new().bold(true)));
    let underlined = style.add_cell_xf(Some(&FontStyle::new().underline(Some(
        UnderLine::Double,
    ))));
    assert_ne!(bold, 0);
    assert_ne!(underlined, 0);
}

#[test]
fn any_single_differing_attribute_yields_a_distinct_id() {
    let mut style = Style::new();
    let base = style.add_cell_xf(Some(&FontStyle::new().bold(true)));
    let other_size = style.add_cell_xf(Some(&FontStyle::new().bold(true).size(12)));
    let other_name = style.add_cell_xf(Some(&FontStyle::new().bold(true).name("Mono")));
    let other_underline = style.add_cell_xf(Some(
        &FontStyle::new().bold(true).underline(Some(UnderLine::Single)),
    ));
    assert_ne!(base, other_size);
    assert_ne!(base, other_name);
    assert_ne!(base, other_underline);
    assert_ne!(other_size, other_name);
    assert_ne!(other_size, other_underline);
    assert_ne!(other_name, other_underline);
}

#[test]
fn missing_font_resolves_to_the_default_id() {
    let mut style = Style::new();
    assert_eq!(style.add_cell_xf(None), 0);
}

#[test]
fn font_canonical_key_follows_the_fixed_field_order() {
    let font = FontStyle::new();
    assert_eq!(font.unique_id(), "10-Arial-false-false-false-u_none");
    let fancy = FontStyle::new()
        .size(12)
        .name("Mono")
        .bold(true)
        .strike(true)
        .underline(Some(UnderLine::SingleAcccounting));
    assert_eq!(fancy.unique_id(), "12-Mono-true-false-true-u_single_acc");
}

#[test]
fn style_part_counts_match_the_tables() {
    let mut style = Style::new();
    style.add_cell_xf(Some(&FontStyle::new().bold(true)));
    style.add_cell_xf(Some(&FontStyle::new().italic(true)));
    let xml = style.to_xml();
    assert!(xml.contains("<fonts count=\"3\""));
    assert!(xml.contains("<cellXfs count=\"3\""));
    assert!(xml.contains("<numFmts count=\"1\""));
    assert!(xml.contains("formatCode=\"General\""));
}

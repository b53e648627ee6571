use museum::panel::tombstone;
use museum::scene::ColorRgb;

#[test]
fn tombstone_panel_has_four_styled_sections() {
    let sections = tombstone(
        "Names",
        "1988",
        "Unknown stitchers",
        "A quilt of names.",
        "Archive records",
    );
    assert_eq!(sections.len(), 4);
    assert_eq!(sections[0].text, "Names, 1988\n\n");
    assert_eq!(sections[1].text, "Unknown stitchers\n\n");
    assert_eq!(sections[2].text, "A quilt of names.\n");
    assert_eq!(sections[3].text, "Archive records");
    let sizes: Vec<u32> = sections.iter().map(|s| s.font_size).collect();
    assert_eq!(sizes, vec![48, 32, 24, 16]);
    for s in &sections {
        assert_eq!(s.color, ColorRgb { r: 200, g: 200, b: 200 });
    }
}

#[test]
fn tombstone_panel_keeps_empty_fields_empty() {
    let sections = tombstone("", "", "", "", "");
    assert_eq!(sections[0].text, ", \n\n");
    assert_eq!(sections[1].text, "\n\n");
    assert_eq!(sections[2].text, "\n");
    assert_eq!(sections[3].text, "");
}

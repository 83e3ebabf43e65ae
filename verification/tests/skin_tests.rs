use voxelruler::skin_history::{SkinEntry, SkinHistory};

fn make_entry(url: &str, name: &str) -> SkinEntry {
    SkinEntry {
        cape_id: String::new(),
        model: "classic".into(),
        name: name.into(),
        url: url.into(),
    }
}

#[test]
fn test_add_skin_deduplicates_by_url() {
    let mut h = SkinHistory::default();
    h.add_skin(make_entry("https://example.com/a.png", "Skin A"));
    h.add_skin(make_entry("https://example.com/a.png", "Skin A duplicate"));
    h.add_skin(make_entry("https://example.com/b.png", "Skin B"));
    assert_eq!(h.skins.len(), 2);
    assert_eq!(h.skins[0].name, "Skin A");
    assert_eq!(h.skins[1].name, "Skin B");
}

#[test]
fn test_add_skin_different_urls_are_kept() {
    let mut h = SkinHistory::default();
    for i in 0..5 {
        h.add_skin(make_entry(
            &format!("https://example.com/{}.png", i),
            &format!("Skin {}", i),
        ));
    }
    assert_eq!(h.skins.len(), 5);
}

#[test]
fn add_skin_keeps_urls_unique() {
    let mut h = SkinHistory::default();
    for i in 0..6 {
        h.add_skin(make_entry(&format!("https://example.com/{}.png", i % 3), "x"));
    }
    assert_eq!(h.skins.len(), 3);
    assert_eq!(h.skins[2].url, "https://example.com/2.png");
}

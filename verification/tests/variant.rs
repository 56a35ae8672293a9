use fontworld::variant::{FontStretch, FontStyle, FontVariant, FontWeight};

#[test]
fn test_font_weight_distance() {
    let d = |a, b| FontWeight(a).distance(FontWeight(b));
    assert_eq!(d(500, 200), 300);
    assert_eq!(d(500, 500), 0);
    assert_eq!(d(500, 900), 400);
    assert_eq!(d(10, 100), 90);
}

#[test]
fn weight_clamping() {
    assert_eq!(FontWeight::from_number(0), FontWeight::from_number(100));
    assert_eq!(FontWeight::from_number(5000), FontWeight::from_number(900));
    assert_eq!(FontWeight::from_number(0), FontWeight(100));
    assert_eq!(FontWeight::from_number(5000), FontWeight(900));
    assert_eq!(FontWeight::from_number(451), FontWeight(451));
}

#[test]
fn weight_names_round_trip() {
    let names = [
        ("thin", 100),
        ("extralight", 200),
        ("light", 300),
        ("regular", 400),
        ("medium", 500),
        ("semibold", 600),
        ("bold", 700),
        ("extrabold", 800),
        ("black", 900),
    ];
    for (name, number) in names {
        let w = FontWeight::from_str(name).unwrap();
        assert_eq!(w.to_number(), number);
        assert_eq!(w.to_str(), Some(name));
    }
    assert_eq!(FontWeight::from_str("chunky"), None);
    assert_eq!(FontWeight(450).to_str(), None);
}

#[test]
fn weight_thicken_saturates() {
    assert_eq!(FontWeight(400).thicken(300), FontWeight(700));
    assert_eq!(FontWeight(400).thicken(-300), FontWeight(100));
    assert_eq!(FontWeight(400).thicken(900), FontWeight(900));
    assert_eq!(FontWeight(400).thicken(-900), FontWeight(100));
    assert_eq!(FontWeight(400).thicken(0), FontWeight(400));
}

#[test]
fn style_codec() {
    assert_eq!(FontStyle::from_str("normal"), Some(FontStyle::Normal));
    assert_eq!(FontStyle::from_str("italic"), Some(FontStyle::Italic));
    assert_eq!(FontStyle::from_str("oblique"), Some(FontStyle::Oblique));
    assert_eq!(FontStyle::from_str("upright"), None);
    assert_eq!(FontStyle::Normal.to_str(), "normal");
    assert_eq!(FontStyle::Italic.to_str(), "italic");
    assert_eq!(FontStyle::Oblique.to_str(), "oblique");
    assert_eq!(FontStyle::default(), FontStyle::Normal);
}

#[test]
fn stretch_from_width_class() {
    assert_eq!(FontStretch::from_number(0), FontStretch(500));
    assert_eq!(FontStretch::from_number(1), FontStretch(500));
    assert_eq!(FontStretch::from_number(2), FontStretch(625));
    assert_eq!(FontStretch::from_number(3), FontStretch(750));
    assert_eq!(FontStretch::from_number(4), FontStretch(875));
    assert_eq!(FontStretch::from_number(5), FontStretch(1000));
    assert_eq!(FontStretch::from_number(6), FontStretch(1125));
    assert_eq!(FontStretch::from_number(7), FontStretch(1250));
    assert_eq!(FontStretch::from_number(8), FontStretch(1500));
    assert_eq!(FontStretch::from_number(9), FontStretch(2000));
    assert_eq!(FontStretch::from_number(200), FontStretch(2000));
}

#[test]
fn stretch_names_round_trip() {
    let names = [
        ("ultra-condensed", 500),
        ("extra-condensed", 625),
        ("condensed", 750),
        ("semi-condensed", 875),
        ("normal", 1000),
        ("semi-expanded", 1125),
        ("expanded", 1250),
        ("extra-expanded", 1500),
        ("ultra-expanded", 2000),
    ];
    for (name, permille) in names {
        let s = FontStretch::from_str(name).unwrap();
        assert_eq!(s.to_permille(), permille);
        assert_eq!(s.to_str(), Some(name));
    }
    assert_eq!(FontStretch::from_str("wide"), None);
    assert_eq!(FontStretch(999).to_str(), None);
    assert_eq!(FontStretch::default(), FontStretch(1000));
}

#[test]
fn stretch_distance_permille() {
    assert_eq!(FontStretch(500).distance(FontStretch(2000)), 1500);
    assert_eq!(FontStretch(1000).distance(FontStretch(1000)), 0);
    assert_eq!(FontStretch(1250).distance(FontStretch(1000)), 250);
}

#[test]
fn variant_construction() {
    let v = FontVariant::new(FontStyle::Italic, FontWeight(700), FontStretch(1250));
    assert_eq!(v.style, FontStyle::Italic);
    assert_eq!(v.weight, FontWeight(700));
    assert_eq!(v.stretch, FontStretch(1250));
    let d = FontVariant::default();
    assert_eq!(d, FontVariant::new(FontStyle::Normal, FontWeight(400), FontStretch(1000)));
}

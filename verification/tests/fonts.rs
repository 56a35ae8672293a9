use fontworld::em::Em;
use fontworld::face::{Face, FaceInfo, FontFamily, VerticalFontMetric};
use fontworld::variant::{FontStretch, FontStyle, FontWeight};
use std::rc::Rc;

fn head_table(upem: u16) -> Vec<u8> {
    let mut t = Vec::new();
    t.extend_from_slice(&0x00010000u32.to_be_bytes()); // version
    t.extend_from_slice(&0u32.to_be_bytes()); // font revision
    t.extend_from_slice(&0u32.to_be_bytes()); // checksum adjustment
    t.extend_from_slice(&0x5F0F3CF5u32.to_be_bytes()); // magic number
    t.extend_from_slice(&0u16.to_be_bytes()); // flags
    t.extend_from_slice(&upem.to_be_bytes());
    t.extend_from_slice(&[0u8; 16]); // created + modified
    t.extend_from_slice(&0i16.to_be_bytes()); // x min
    t.extend_from_slice(&0i16.to_be_bytes()); // y min
    t.extend_from_slice(&0i16.to_be_bytes()); // x max
    t.extend_from_slice(&0i16.to_be_bytes()); // y max
    t.extend_from_slice(&0u16.to_be_bytes()); // mac style
    t.extend_from_slice(&0u16.to_be_bytes()); // lowest rec ppem
    t.extend_from_slice(&0i16.to_be_bytes()); // font direction hint
    t.extend_from_slice(&0u16.to_be_bytes()); // index to location format
    t.extend_from_slice(&0u16.to_be_bytes()); // glyph data format
    assert_eq!(t.len(), 54);
    t
}

fn hhea_table(ascender: i16, descender: i16, metrics: u16) -> Vec<u8> {
    let mut t = Vec::new();
    t.extend_from_slice(&0x00010000u32.to_be_bytes()); // version
    t.extend_from_slice(&ascender.to_be_bytes());
    t.extend_from_slice(&descender.to_be_bytes());
    t.extend_from_slice(&0i16.to_be_bytes()); // line gap
    t.extend_from_slice(&[0u8; 24]);
    t.extend_from_slice(&metrics.to_be_bytes()); // number of h-metrics
    assert_eq!(t.len(), 36);
    t
}

fn hmtx_table(advance: u16) -> Vec<u8> {
    let mut t = Vec::new();
    t.extend_from_slice(&advance.to_be_bytes());
    t.extend_from_slice(&0i16.to_be_bytes()); // left side bearing
    t
}

fn maxp_table() -> Vec<u8> {
    let mut t = Vec::new();
    t.extend_from_slice(&0x00010000u32.to_be_bytes()); // version
    t.extend_from_slice(&1u16.to_be_bytes()); // number of glyphs
    t.extend_from_slice(&[0u8; 26]);
    t
}

fn name_table(family: &str) -> Vec<u8> {
    let utf16: Vec<u8> = family.encode_utf16().flat_map(|u| u.to_be_bytes()).collect();
    let mut t = Vec::new();
    t.extend_from_slice(&0u16.to_be_bytes()); // format 0
    t.extend_from_slice(&1u16.to_be_bytes()); // one record
    t.extend_from_slice(&18u16.to_be_bytes()); // storage offset
    t.extend_from_slice(&3u16.to_be_bytes()); // platform: windows
    t.extend_from_slice(&1u16.to_be_bytes()); // encoding: unicode bmp
    t.extend_from_slice(&0x0409u16.to_be_bytes()); // language
    t.extend_from_slice(&1u16.to_be_bytes()); // name id: family
    t.extend_from_slice(&(utf16.len() as u16).to_be_bytes());
    t.extend_from_slice(&0u16.to_be_bytes()); // offset into storage
    t.extend_from_slice(&utf16);
    t
}

/// One sfnt table directory plus its tables; record offsets are absolute
/// in the final file, so `base` is where this directory will start.
fn assemble(base: u32, tables: &[([u8; 4], Vec<u8>)]) -> Vec<u8> {
    let mut out = Vec::new();
    out.extend_from_slice(&0x00010000u32.to_be_bytes()); // sfnt version
    out.extend_from_slice(&(tables.len() as u16).to_be_bytes());
    out.extend_from_slice(&[0u8; 6]); // search range etc.
    let mut offset = base + 12 + 16 * tables.len() as u32;
    for (tag, data) in tables {
        out.extend_from_slice(tag);
        out.extend_from_slice(&0u32.to_be_bytes()); // checksum
        out.extend_from_slice(&offset.to_be_bytes());
        out.extend_from_slice(&(data.len() as u32).to_be_bytes());
        offset += data.len() as u32;
    }
    for (_, data) in tables {
        out.extend_from_slice(data);
    }
    out
}

fn base_tables(upem: u16, ascender: i16, descender: i16) -> Vec<([u8; 4], Vec<u8>)> {
    vec![
        (*b"head", head_table(upem)),
        (*b"hhea", hhea_table(ascender, descender, 0)),
        (*b"maxp", maxp_table()),
    ]
}

/// A minimal font whose single glyph reports a horizontal advance.
fn metric_font(upem: u16, advance: u16) -> Vec<u8> {
    let tables = vec![
        (*b"head", head_table(upem)),
        (*b"hhea", hhea_table(800, -200, 1)),
        (*b"hmtx", hmtx_table(advance)),
        (*b"maxp", maxp_table()),
    ];
    assemble(0, &tables)
}

/// A minimal single-face font without `OS/2` and `post` tables.
fn simple_font(upem: u16, ascender: i16, descender: i16) -> Vec<u8> {
    assemble(0, &base_tables(upem, ascender, descender))
}

/// A minimal font that also carries a legacy family name.
fn named_font(upem: u16, ascender: i16, descender: i16, family: &str) -> Vec<u8> {
    let mut tables = base_tables(upem, ascender, descender);
    tables.push((*b"name", name_table(family)));
    assemble(0, &tables)
}

/// A collection whose two face entries share one table directory.
fn collection_of_two(upem: u16, ascender: i16, descender: i16, family: &str) -> Vec<u8> {
    let mut tables = base_tables(upem, ascender, descender);
    tables.push((*b"name", name_table(family)));
    let base: u32 = 12 + 2 * 4;
    let mut out = Vec::new();
    out.extend_from_slice(b"ttcf");
    out.extend_from_slice(&0x00010000u32.to_be_bytes());
    out.extend_from_slice(&2u32.to_be_bytes());
    out.extend_from_slice(&base.to_be_bytes());
    out.extend_from_slice(&base.to_be_bytes());
    out.extend_from_slice(&assemble(base, &tables));
    out
}

#[test]
fn face_parses_and_reports_units_per_em() {
    let data = simple_font(1000, 800, -200);
    let face = Face::new(Rc::new(data), 0).unwrap();
    assert_eq!(face.units_per_em(), 1000);
    assert_eq!(face.index(), 0);
}

#[test]
fn face_rejects_garbage() {
    assert!(Face::new(Rc::new(vec![1, 2, 3, 4]), 0).is_none());
    let data = simple_font(1000, 800, -200);
    assert!(Face::new(Rc::new(data), 7).is_none());
}

#[test]
fn cap_height_falls_back_to_ascender() {
    // No `OS/2` table, so no capital-height entry: the cap height (and the
    // x-height) must equal the ascender.
    let data = simple_font(1000, 800, -200);
    let face = Face::new(Rc::new(data), 0).unwrap();
    assert_eq!(face.ascender, Em { numer: 800, denom: 1000 });
    assert_eq!(face.cap_height, face.ascender);
    assert_eq!(face.x_height, face.ascender);
    assert_eq!(face.descender, Em { numer: -200, denom: 1000 });
}

#[test]
fn line_metrics_use_fixed_defaults() {
    // No `OS/2` and no `post` table: strikethrough and underline fall back
    // to the fixed defaults, and the overline sits 0.1 em over the cap
    // height.
    let data = simple_font(2048, 1638, -410);
    let face = Face::new(Rc::new(data), 0).unwrap();
    assert_eq!(face.strikethrough.strength, Em { numer: 60, denom: 1000 });
    assert_eq!(face.strikethrough.position, Em { numer: 250, denom: 1000 });
    assert_eq!(face.underline.strength, Em { numer: 60, denom: 1000 });
    assert_eq!(face.underline.position, Em { numer: -200, denom: 1000 });
    assert_eq!(face.overline.strength, face.underline.strength);
    // cap height is 1638/2048; adding 100/1000 gives this exact rational.
    assert_eq!(
        face.overline.position,
        Em { numer: 1638 * 1000 + 100 * 2048, denom: 2048 * 1000 },
    );
}

#[test]
fn vertical_metric_dispatch() {
    let data = simple_font(1000, 800, -200);
    let face = Face::new(Rc::new(data), 0).unwrap();
    assert_eq!(face.vertical_metric(VerticalFontMetric::Ascender), face.ascender);
    assert_eq!(face.vertical_metric(VerticalFontMetric::CapHeight), face.cap_height);
    assert_eq!(face.vertical_metric(VerticalFontMetric::XHeight), face.x_height);
    assert_eq!(face.vertical_metric(VerticalFontMetric::Baseline), Em { numer: 0, denom: 1 });
    assert_eq!(face.vertical_metric(VerticalFontMetric::Descender), face.descender);
}

#[test]
fn advance_without_metrics_is_none() {
    let data = simple_font(1000, 800, -200);
    let face = Face::new(Rc::new(data), 0).unwrap();
    assert_eq!(face.advance(0), None);
}

#[test]
fn advance_reads_horizontal_metrics() {
    let data = metric_font(1000, 550);
    let face = Face::new(Rc::new(data), 0).unwrap();
    assert_eq!(face.advance(0), Some(Em { numer: 550, denom: 1000 }));
    assert_eq!(face.advance(7), None);
}

#[test]
fn to_em_divides_by_units_per_em() {
    let data = simple_font(1000, 800, -200);
    let face = Face::new(Rc::new(data), 0).unwrap();
    assert_eq!(face.to_em(500), Em { numer: 500, denom: 1000 });
    assert_eq!(Em::zero(), Em { numer: 0, denom: 1 });
    assert_eq!(Em::from_permille(60), Em { numer: 60, denom: 1000 });
    assert_eq!(
        Em::from_units(3, 4).plus(Em::from_units(1, 2)),
        Em { numer: 3 * 2 + 1 * 4, denom: 8 },
    );
}

#[test]
fn em_value_equality_crosses_denominators() {
    // `==` compares representations; `same` compares the denoted values.
    let data = simple_font(1000, 800, -200);
    let face = Face::new(Rc::new(data), 0).unwrap();
    assert!(face.to_em(0).same(Em::zero()));
    assert_ne!(face.to_em(0), Em::zero());
    assert!(Em { numer: 1, denom: 2 }.same(Em { numer: 2, denom: 4 }));
    assert!(!Em { numer: 1, denom: 2 }.same(Em { numer: 2, denom: 3 }));
    // Conversion is linear at the value level.
    let sum = face.to_em(300).plus(face.to_em(200));
    assert!(sum.same(face.to_em(500)));
}

#[test]
fn collection_count_is_read_from_the_header() {
    let data = collection_of_two(1000, 800, -200, "Duo");
    assert_eq!(fontworld::raw::fonts_in_collection(&data), Some(2));
    let plain = simple_font(1000, 800, -200);
    assert_eq!(fontworld::raw::fonts_in_collection(&plain), None);
    assert_eq!(fontworld::raw::fonts_in_collection(b"ttc"), None);
}

#[test]
fn parse_reads_family_from_name_table() {
    let data = named_font(1000, 800, -200, "Test Family");
    let infos = FaceInfo::parse("fonts/test.ttf", &data);
    assert_eq!(infos.len(), 1);
    assert_eq!(infos[0].path, "fonts/test.ttf");
    assert_eq!(infos[0].index, 0);
    assert_eq!(infos[0].family, "Test Family");
    assert_eq!(infos[0].variant.style, FontStyle::Normal);
    assert_eq!(infos[0].variant.weight, FontWeight(400));
    assert_eq!(infos[0].variant.stretch, FontStretch(1000));
}

#[test]
fn parse_skips_faces_without_a_family() {
    let data = simple_font(1000, 800, -200);
    let infos = FaceInfo::parse("fonts/anon.ttf", &data);
    assert_eq!(infos.len(), 0);
}

#[test]
fn parse_enumerates_collection_members() {
    let data = collection_of_two(1000, 800, -200, "Duo");
    let infos = FaceInfo::parse("fonts/duo.ttc", &data);
    assert_eq!(infos.len(), 2);
    assert_eq!(infos[0].index, 0);
    assert_eq!(infos[1].index, 1);
    assert_eq!(infos[0].family, "Duo");
    assert_eq!(infos[1].family, "Duo");
}

#[test]
fn family_names() {
    assert_eq!(FontFamily::Serif.name(), "serif");
    assert_eq!(FontFamily::SansSerif.name(), "sans-serif");
    assert_eq!(FontFamily::Monospace.name(), "monospace");
    assert_eq!(FontFamily::Named("Libertinus".to_string()).name(), "Libertinus");
    assert_eq!(VerticalFontMetric::CapHeight.name(), "cap-height");
}

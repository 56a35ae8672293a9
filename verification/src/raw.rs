//! The seam to the font-parsing crates.
//!
//! Everything a face contributes to the library's logic is read out of the
//! font bytes here, as plain values: raw metric table entries, name-table
//! records, and style flags. Parsing is deterministic, so each extraction
//! is described by an uninterpreted function of the bytes and the
//! collection index.

use vstd::prelude::*;

verus! {

/// A decorative line's raw geometry, in font units.
#[derive(Debug, Copy, Clone, PartialEq, Eq)]
pub struct RawLine {
    /// The line's vertical position.
    pub position: i16,
    /// The line's thickness.
    pub thickness: i16,
}

/// The raw metric entries of one parsed face, in font units. A `None`
/// records that the corresponding table entry is absent.
#[derive(Debug, Copy, Clone, PartialEq, Eq)]
pub struct RawMetrics {
    /// Units per em; the parser guarantees 16 to 16384.
    pub units_per_em: u16,
    /// The legacy horizontal ascender.
    pub ascender: i16,
    /// The typographic ascender, when the `OS/2` table has one.
    pub typographic_ascender: Option<i16>,
    /// The capital height, when the `OS/2` table has one.
    pub capital_height: Option<i16>,
    /// The x-height, when the `OS/2` table has one.
    pub x_height: Option<i16>,
    /// The legacy horizontal descender.
    pub descender: i16,
    /// The typographic descender, when the `OS/2` table has one.
    pub typographic_descender: Option<i16>,
    /// The strikeout line, when the `OS/2` table has one.
    pub strikeout: Option<RawLine>,
    /// The underline, when the `post` table has one.
    pub underline: Option<RawLine>,
}

/// One record of a face's name table: its name id and its text, when the
/// record's encoding could be decoded.
#[derive(Debug, Clone)]
pub struct NameRec {
    /// The record's name id.
    pub id: u16,
    /// The record's text, for Unicode encodings.
    pub text: Option<String>,
}

/// What probing one face of a font file yields: its name records and the
/// style, weight and width class flags of its `OS/2` table.
#[derive(Debug, Clone)]
pub struct FaceProbe {
    /// The face's name records, in table order.
    pub names: Vec<NameRec>,
    /// Whether the face is marked italic.
    pub italic: bool,
    /// Whether the face is marked oblique.
    pub oblique: bool,
    /// The face's weight number.
    pub weight: u16,
    /// The face's OpenType width class.
    pub width: u16,
}

/// The raw metrics that parsing a font file at a collection index yields,
/// or `None` when the bytes are not a valid face at that index. Parsing is
/// a deterministic function of the bytes and the index.
pub uninterp spec fn face_metrics_of(data: Seq<u8>, index: u32) -> Option<RawMetrics>;

/// Relies on `rustybuzz::Face::from_slice` (which is
/// `ttf_parser::Face::parse` plus shaping set-up) and on the `ttf_parser`
/// metric accessors `units_per_em`, `ascender`, `typographic_ascender`,
/// `capital_height`, `x_height`, `descender`, `typographic_descender`,
/// `strikeout_metrics` and `underline_metrics`: all deterministic reads of
/// the parsed tables. `units_per_em` is documented to lie in 16..=16384.
#[verifier::external_body]
pub fn parse_metrics(data: &[u8], index: u32) -> (r: Option<RawMetrics>)
    ensures
        r == face_metrics_of(data@, index),
        match r {
            Some(m) => 16 <= m.units_per_em <= 16384,
            None => true,
        },
{
    let f = rustybuzz::Face::from_slice(data, index)?;
    let t: &ttf_parser::Face = f.as_ref();
    let line = |l: ttf_parser::LineMetrics| RawLine { position: l.position, thickness: l.thickness };
    Some(RawMetrics {
        units_per_em: t.units_per_em(),
        ascender: t.ascender(),
        typographic_ascender: t.typographic_ascender(),
        capital_height: t.capital_height(),
        x_height: t.x_height(),
        descender: t.descender(),
        typographic_descender: t.typographic_descender(),
        strikeout: t.strikeout_metrics().map(line),
        underline: t.underline_metrics().map(line),
    })
}

/// The big-endian 32-bit number starting at position `i`.
pub open spec fn be_u32_at(data: Seq<u8>, i: int) -> u32 {
    (data[i] * 0x100_0000 + data[i + 1] * 0x1_0000 + data[i + 2] * 0x100 + data[i + 3]) as u32
}

/// The number of fonts a collection header announces: `Some` exactly when
/// the bytes open with the `ttcf` tag and are long enough to hold the
/// count, which sits at offset 8.
pub open spec fn spec_collection_count(data: Seq<u8>) -> Option<u32> {
    if data.len() >= 12 && data[0] == 0x74 && data[1] == 0x74 && data[2] == 0x63 && data[3]
        == 0x66 {
        Some(be_u32_at(data, 8))
    } else {
        None
    }
}

/// Relies on `ttf_parser::fonts_in_collection`: reads the collection
/// header exactly as `spec_collection_count` states it.
#[verifier::external_body]
pub fn fonts_in_collection(data: &[u8]) -> (r: Option<u32>)
    ensures
        r == spec_collection_count(data@),
{
    ttf_parser::fonts_in_collection(data)
}

/// What probing one face of a font file yields, or `None` when the bytes
/// are not a valid face at that index; a deterministic function of the
/// bytes and the index.
pub uninterp spec fn face_probe_of(data: Seq<u8>, index: u32) -> Option<FaceProbe>;

/// Relies on `ttf_parser::Face::parse` and its accessors `names` (with
/// `Name::to_string`, which decodes Unicode-encoded records), `is_italic`,
/// `is_oblique`, `weight` and `width`: all deterministic reads of the
/// parsed tables.
#[verifier::external_body]
pub fn probe_face(data: &[u8], index: u32) -> (r: Option<FaceProbe>)
    ensures
        r == face_probe_of(data@, index),
{
    let f = ttf_parser::Face::parse(data, index).ok()?;
    let mut names = Vec::new();
    for n in f.names() {
        names.push(NameRec { id: n.name_id, text: n.to_string() });
    }
    Some(FaceProbe {
        names,
        italic: f.is_italic(),
        oblique: f.is_oblique(),
        weight: f.weight().to_number(),
        width: f.width().to_number(),
    })
}

/// The horizontal advance that the font reports for a glyph, in font
/// units, or `None` when the face does not parse or reports no advance; a
/// deterministic function of the bytes, the index and the glyph id.
pub uninterp spec fn advance_units_of(data: Seq<u8>, index: u32, glyph: u16) -> Option<u16>;

/// Relies on `rustybuzz::Face::from_slice` and
/// `ttf_parser::Face::glyph_hor_advance`: a deterministic read of the
/// `hmtx` table.
#[verifier::external_body]
pub fn glyph_advance(data: &[u8], index: u32, glyph: u16) -> (r: Option<u16>)
    ensures
        r == advance_units_of(data@, index, glyph),
{
    let f = rustybuzz::Face::from_slice(data, index)?;
    f.as_ref().glyph_hor_advance(ttf_parser::GlyphId(glyph))
}

} // verus!

use printpdf::geometry::{num_to_int, Num, Point};
use printpdf::indices::{FontIndex, PdfContentIndex, SvgIndex};
use printpdf::metadata::{text_string, to_pdf_time_stamp_metadata, to_pdf_xmp_date, DateTime, DocumentInfo, XmpMetadata};
use printpdf::utils::{
    calculate_points_for_circle, calculate_points_for_rect, decimal_digits, text_bytes_for_glyphs, IdGenerator,
};

fn p(x: i64, y: i64) -> Point {
    Point::new(Num(x), Num(y))
}

#[test]
fn generated_ids_are_32_letters() {
    let mut g = IdGenerator::new();
    let a = g.random_character_string_32();
    let b = g.random_character_string_32();
    assert_eq!(a.len(), 32);
    assert!(a.chars().all(|c| ('A'..='J').contains(&c)));
    assert_ne!(a, b);
}

#[test]
fn draws_follow_the_xorshift_step() {
    let mut g = IdGenerator::new();
    let mut x: u64 = 2100;
    x ^= x << 21;
    x ^= x >> 35;
    x ^= x << 4;
    assert_eq!(g.rand(), x);
    assert_eq!(g.seed, 2121);
}

#[test]
fn digits_are_most_significant_first() {
    assert_eq!(decimal_digits(0), vec![0]);
    assert_eq!(decimal_digits(9051), vec![9, 0, 5, 1]);
}

#[test]
fn dates_are_zero_padded() {
    let d = DateTime::new(7, 1, 2, 3, 4, 5).unwrap();
    assert_eq!(to_pdf_time_stamp_metadata(d), "D:00070102030405+00'00'");
    assert_eq!(to_pdf_xmp_date(d), "D:0007-01-02T03:04:05+00'00'");
}

#[test]
fn out_of_range_dates_are_refused() {
    assert!(DateTime::new(2020, 13, 1, 0, 0, 0).is_none());
    assert!(DateTime::new(2020, 1, 0, 0, 0, 0).is_none());
    assert!(DateTime::new(10000, 1, 1, 0, 0, 0).is_none());
    assert!(DateTime::new(2020, 12, 31, 23, 59, 59).is_some());
}

#[test]
fn xmp_metadata_starts_without_instance_id() {
    let mut g = IdGenerator::new();
    let x = XmpMetadata::new(Some("default".to_string()), 3, &mut g);
    assert_eq!(x.document_id.len(), 32);
    assert!(x.instance_id.is_none());
    assert_eq!(x.rendition_class.as_deref(), Some("default"));
    assert_eq!(x.document_version, 3);
    let _ = DocumentInfo::new();
}

#[test]
fn glyph_ids_become_big_endian_pairs() {
    assert_eq!(text_bytes_for_glyphs(&vec![0x0102, 0x00FF, 0xABCD]), vec![1, 2, 0, 255, 0xAB, 0xCD]);
    assert!(text_bytes_for_glyphs(&Vec::new()).is_empty());
}

#[test]
fn rectangle_corners_around_centre() {
    let pts = calculate_points_for_rect(Num(10), Num(5), Num(100), Num(200));
    assert_eq!(
        pts,
        vec![(p(95, 202), false), (p(105, 202), false), (p(105, 198), false), (p(95, 198), false)]
    );
}

#[test]
fn circle_has_four_curves() {
    let pts = calculate_points_for_circle(Num(1_000_000), Num(0), Num(0));
    assert_eq!(pts.len(), 16);
    assert_eq!(pts[0], (p(0, 1_000_000), true));
    assert_eq!(pts[1], (p(551_915, 1_000_000), true));
    assert_eq!(pts[3], (p(1_000_000, 0), false));
    assert_eq!(pts[5], (p(1_000_000, -551_915), true));
    assert_eq!(pts[15], (p(0, 1_000_000), false));
    let moved = calculate_points_for_circle(Num(-2), Num(10), Num(20));
    assert_eq!(moved[0], (p(10, 18), true));
    assert_eq!(moved[1], (p(9, 18), true));
}

#[test]
fn whole_part_rounds_toward_zero() {
    assert_eq!(num_to_int(Num(2_500_000)), 2);
    assert_eq!(num_to_int(Num(-2_500_000)), -2);
    assert_eq!(num_to_int(Num(i64::MIN)), -9_223_372_036_854);
    assert_eq!(Num(i64::MIN).neg(), Num(i64::MAX));
    assert_eq!(Num(5).neg(), Num(-5));
}

#[test]
fn indices_convert_to_content_index() {
    assert_eq!(PdfContentIndex::from(FontIndex(PdfContentIndex(4))), PdfContentIndex(4));
    let c: PdfContentIndex = SvgIndex(PdfContentIndex(7)).into();
    assert_eq!(c, PdfContentIndex(7));
}

fn reference_id(seed: u64) -> (String, u64) {
    let mut s = seed;
    let mut out = String::new();
    while out.len() < 32 {
        let mut x = s;
        s = s.wrapping_add(21);
        x ^= x << 21;
        x ^= x >> 35;
        x ^= x << 4;
        for ch in format!("{}", x).chars() {
            if out.len() < 32 {
                out.push((b'A' + ch.to_digit(10).unwrap() as u8) as char);
            }
        }
    }
    (out, s)
}

#[test]
fn identifier_is_the_letters_of_successive_draws() {
    for seed in [0u64, 2100, 987_654_321, u64::MAX - 5] {
        let mut g = IdGenerator::with_seed(seed);
        let id = g.random_character_string_32();
        let (expected, next) = reference_id(seed);
        assert_eq!(id, expected);
        assert_eq!(g.seed, next);
    }
}

#[test]
fn decimal_digits_of_large_numbers() {
    assert_eq!(decimal_digits(u64::MAX), "18446744073709551615".bytes().map(|b| b - b'0').collect::<Vec<u8>>());
    assert_eq!(decimal_digits(10), vec![1, 0]);
}

#[test]
fn text_strings_are_utf16_big_endian_with_a_mark() {
    assert_eq!(text_string(&"Ab".to_string()), vec![0xFE, 0xFF, 0x00, 0x41, 0x00, 0x62]);
    assert_eq!(text_string(&"\u{e9}".to_string()), vec![0xFE, 0xFF, 0x00, 0xE9]);
    assert_eq!(text_string(&"\u{1F600}".to_string()), vec![0xFE, 0xFF, 0xD8, 0x3D, 0xDE, 0x00]);
    assert_eq!(text_string(&String::new()), vec![0xFE, 0xFF]);
}

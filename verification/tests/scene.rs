use remarkable::crdt::CrdtId;
use remarkable::document::Page;
use remarkable::reader::Reader;
use remarkable::render::{
    is_eraser, median_width, pen_color_rgba8, sort_widths, RenderOptions, DEFAULT_HEIGHT,
    DEFAULT_WIDTH,
};
use remarkable::scene::line::{read_line, Pen, PenColor, PointData};

fn line_bytes(with_move_id: bool, points_bytes: &[u8]) -> Vec<u8> {
    let mut bytes = Vec::new();
    bytes.extend_from_slice(&[0x14]);
    bytes.extend_from_slice(&4u32.to_le_bytes());
    bytes.extend_from_slice(&[0x24]);
    bytes.extend_from_slice(&0u32.to_le_bytes());
    bytes.extend_from_slice(&[0x38]);
    bytes.extend_from_slice(&2.0_f64.to_le_bytes());
    bytes.extend_from_slice(&[0x44]);
    bytes.extend_from_slice(&0.0_f32.to_le_bytes());
    bytes.extend_from_slice(&[0x5C]);
    let len = u32::try_from(points_bytes.len()).unwrap();
    bytes.extend_from_slice(&len.to_le_bytes());
    bytes.extend_from_slice(points_bytes);
    bytes.extend_from_slice(&[0x6F, 0x01, 0x01]);
    if with_move_id {
        bytes.extend_from_slice(&[0x7F, 0x01, 0x02]);
    }
    bytes
}

#[test]
fn parses_v2_line_two_points() {
    let mut points = Vec::new();
    for &(x, y, speed, width, direction, pressure) in &[
        (10.0_f32, 20.0_f32, 100u16, 4u16, 128u8, 200u8),
        (15.0_f32, 25.0_f32, 110u16, 5u16, 130u8, 210u8),
    ] {
        points.extend_from_slice(&x.to_le_bytes());
        points.extend_from_slice(&y.to_le_bytes());
        points.extend_from_slice(&speed.to_le_bytes());
        points.extend_from_slice(&width.to_le_bytes());
        points.push(direction);
        points.push(pressure);
    }
    let bytes = line_bytes(false, &points);
    let mut r = Reader::new(&bytes);
    let line = read_line(&mut r, 2).unwrap();
    assert_eq!(line.tool, Pen::FinelinerV1);
    assert_eq!(line.color, PenColor::Black);
    assert!((f64::from_bits(line.thickness_scale_bits) - 2.0).abs() < f64::EPSILON);
    assert_eq!(line.points.len(), 2);
    assert!((f32::from_bits(line.points[0].x_bits) - 10.0).abs() < f32::EPSILON);
    match (line.points[0].data, line.points[1].data) {
        (PointData::V2 { speed, .. }, PointData::V2 { pressure, .. }) => {
            assert_eq!(speed, 100);
            assert_eq!(pressure, 210);
        }
        other => panic!("expected v2 points, got {other:?}"),
    }
    assert!(line.move_id.is_none());
}

#[test]
fn parses_line_with_move_id() {
    let mut points = Vec::new();
    points.extend_from_slice(&0.0_f32.to_le_bytes());
    points.extend_from_slice(&0.0_f32.to_le_bytes());
    points.extend_from_slice(&[0u8; 6]);
    let bytes = line_bytes(true, &points);
    let mut r = Reader::new(&bytes);
    let line = read_line(&mut r, 2).unwrap();
    assert_eq!(line.move_id, Some(CrdtId { author: 1, seq: 2 }));
}

#[test]
fn v1_points_keep_raw_singles() {
    let mut points = Vec::new();
    for v in [1.0_f32, 2.0, 25.0, std::f32::consts::PI, 2.0, 1.0] {
        points.extend_from_slice(&v.to_le_bytes());
    }
    let bytes = line_bytes(false, &points);
    let mut r = Reader::new(&bytes);
    let line = read_line(&mut r, 1).unwrap();
    assert_eq!(line.points.len(), 1);
    match line.points[0].data {
        PointData::V1 { speed_bits, direction_bits, .. } => {
            assert_eq!(f32::from_bits(speed_bits), 25.0);
            assert_eq!(f32::from_bits(direction_bits), std::f32::consts::PI);
        }
        other => panic!("expected v1 point, got {other:?}"),
    }
}

#[test]
fn pen_codes_round_trip() {
    for code in 0..=23u32 {
        if let Ok(p) = Pen::from_u32(code) {
            assert_eq!(p.code(), code);
        }
    }
    assert!(Pen::from_u32(999).is_err());
}

#[test]
fn for_page_uses_paper_size_when_present() {
    let page = Page { layers: vec![], text: None, paper_size: Some((800, 600)) };
    let opts = RenderOptions::for_page(&page);
    assert_eq!((opts.width, opts.height), (800, 600));
}

#[test]
fn for_page_falls_back_to_default() {
    let page = Page { layers: vec![], text: None, paper_size: None };
    let opts = RenderOptions::for_page(&page);
    assert_eq!((opts.width, opts.height), (DEFAULT_WIDTH, DEFAULT_HEIGHT));
}

#[test]
fn erasers_are_not_painted_and_black_is_opaque() {
    assert!(is_eraser(Pen::Eraser));
    assert!(!is_eraser(Pen::FinelinerV1));
    assert_eq!(pen_color_rgba8(PenColor::Black), (0, 0, 0, 255));
}

#[test]
fn median_width_ignores_an_outlier() {
    assert_eq!(median_width(&vec![7]), 7);
    assert_eq!(median_width(&vec![5, 1, 900, 3]), 5);
    assert_eq!(median_width(&vec![4, 4, 2, 9, 4]), 4);
    assert_eq!(sort_widths(&vec![3, 1, 2, 1]), vec![1, 1, 2, 3]);
}

#[test]
fn root_text_block_is_carried_to_the_page() {
    let mut bytes = remarkable::blocks::file_header();
    let page = remarkable::document::parse_page(&bytes).unwrap();
    assert!(page.text.is_none());
    let body = [0x1fu8, 0x00, 0x2c, 0x05, 0x00, 0x00, 0x00];
    bytes.extend_from_slice(&(body.len() as u32).to_le_bytes());
    bytes.extend_from_slice(&[0, 0, 1, 0x07]);
    bytes.extend_from_slice(&body);
    let page = remarkable::document::parse_page(&bytes).unwrap();
    assert_eq!(page.text.map(|t| t.body), Some(body.to_vec()));
    assert!(page.layers.is_empty());
}

#[test]
fn header_only_file_parses_to_an_empty_page() {
    let bytes = remarkable::blocks::file_header();
    let page = remarkable::document::parse_page(&bytes).unwrap();
    assert!(page.layers.is_empty());
    assert_eq!(page.paper_size, None);
    let mut bad = bytes.clone();
    bad[0] ^= 0xFF;
    assert!(matches!(
        remarkable::document::parse_page(&bad),
        Err(remarkable::error::ParseError::BadMagic)
    ));
}

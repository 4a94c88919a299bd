use game_core::indexed_model::{CornerRecord, Position, TexCoord};
use game_core::obj_source::{find_dangling_index, read_corners, ParseError};

fn position(x: f32, y: f32, z: f32) -> Position {
    Position { x: x.to_bits(), y: y.to_bits(), z: z.to_bits() }
}

fn tex(u: f32, v: f32) -> TexCoord {
    TexCoord { u: u.to_bits(), v: v.to_bits() }
}

const TRIANGLE: &str = "v 0 0 0\nv 1 0 0\nv 0 1 0\nvt 0 0\nvt 1 0\nf 1/1 2/2 3\n";

#[test]
fn corners_come_in_the_order_of_the_text() {
    let corners = read_corners(TRIANGLE.as_bytes()).unwrap();
    assert_eq!(
        corners,
        vec![
            CornerRecord {
                position_ref: 0,
                position: position(0.0, 0.0, 0.0),
                uv: Some(tex(0.0, 0.0)),
            },
            CornerRecord {
                position_ref: 1,
                position: position(1.0, 0.0, 0.0),
                uv: Some(tex(1.0, 0.0)),
            },
            CornerRecord { position_ref: 2, position: position(0.0, 1.0, 0.0), uv: None },
        ]
    );
}

#[test]
fn a_text_without_faces_has_no_corners() {
    assert_eq!(read_corners(b"v 1 2 3\nv 4 5 6\n").unwrap(), Vec::new());
    assert_eq!(read_corners(b"").unwrap(), Vec::new());
}

#[test]
fn coordinates_keep_their_sign_and_fraction() {
    let corners = read_corners(b"v -1.5 0.25 2e3\nvt 0.5 0.75 9\nf 1/1\n").unwrap();
    assert_eq!(corners.len(), 1);
    assert_eq!(corners[0].position, position(-1.5, 0.25, 2000.0));
    assert_eq!(corners[0].uv, Some(tex(0.5, 0.75)));
}

#[test]
fn relative_indices_count_back_from_the_last_element() {
    let corners = read_corners(b"v 1 0 0\nv 2 0 0\nv 3 0 0\nf -1 -2 -3\n").unwrap();
    let refs: Vec<usize> = corners.iter().map(|c| c.position_ref).collect();
    assert_eq!(refs, vec![2, 1, 0]);
    assert_eq!(corners[0].position, position(3.0, 0.0, 0.0));
}

#[test]
fn bytes_that_are_not_text_are_refused() {
    let failure = read_corners(&[0x76, 0x20, 0xff, 0xfe, 0x0a]).unwrap_err();
    assert_eq!(failure.kind, ParseError::NotText);
    assert!(!failure.detail.is_empty());
}

#[test]
fn an_index_just_before_the_first_element_is_refused() {
    let failure = read_corners(b"v 1 0 0\nv 2 0 0\nv 3 0 0\nf -4 1 2\n").unwrap_err();
    assert_eq!(failure.kind, ParseError::DanglingIndex);
    assert!(!failure.detail.is_empty());
}

#[test]
fn a_relative_texture_index_without_textures_is_refused() {
    let failure = read_corners(b"v 1 0 0\nf 1/-1\n").unwrap_err();
    assert_eq!(failure.kind, ParseError::DanglingIndex);
}

#[test]
fn the_least_index_is_refused() {
    let failure = read_corners(b"v 1 0 0\nf -9223372036854775808\n").unwrap_err();
    assert_eq!(failure.kind, ParseError::DanglingIndex);
    let failure = read_corners(b"v 1 0 0\nf -99999999999999999999999999999999999999999999\n")
        .unwrap_err();
    assert_eq!(failure.kind, ParseError::DanglingIndex);
}

#[test]
fn a_word_that_is_no_index_is_refused_by_the_parser() {
    let failure = read_corners(b"v 0 0 0\nv 1 0 0\nv 0 1 0\nf 1 x 3\n").unwrap_err();
    assert_eq!(failure.kind, ParseError::Rejected);
    assert_eq!(failure.detail, "Expected index on line 4");
}

#[test]
fn an_index_past_the_last_element_is_refused_by_the_parser() {
    let failure = read_corners(b"v 0 0 0\nf 1 2 3\n").unwrap_err();
    assert_eq!(failure.kind, ParseError::Rejected);
    assert_eq!(failure.detail, "Invalid index '2'");
}

#[test]
fn an_object_without_a_name_is_refused_by_the_parser() {
    let failure = read_corners(b"o\nv 0 0 0\n").unwrap_err();
    assert_eq!(failure.kind, ParseError::Rejected);
    assert_eq!(failure.detail, "Expected object or group name on line 1");
}

#[test]
fn dangling_indices_are_found_only_in_faces() {
    assert!(!find_dangling_index(b""));
    assert!(!find_dangling_index(b"v -4 -5 -6\n"));
    assert!(!find_dangling_index(b"vt -4 -5\nvn -1 -1 -1\n"));
    assert!(!find_dangling_index(b"fast -4\n"));
    assert!(!find_dangling_index(b"g -4\nusemtl -4\n"));
    assert!(find_dangling_index(b"f -1"));
    assert!(find_dangling_index(b"f -1\n"));
    assert!(find_dangling_index(b"  \tf\t-1\r\n"));
}

#[test]
fn dangling_indices_are_measured_against_their_own_kind() {
    let head = "v 0 0 0\nv 1 0 0\nvt 0 0\nvn 0 0 1\nvn 0 1 0\nvn 1 0 0\n";
    let with = |face: &str| find_dangling_index(format!("{}{}", head, face).as_bytes());
    assert!(!with("f -2/-1/-3\n"));
    assert!(with("f -3/-1/-3\n"));
    assert!(with("f -2/-2/-3\n"));
    assert!(with("f -2/-1/-4\n"));
    assert!(!with("f -2/-1/-3/-9\n"));
    assert!(!with("f -2//-3\n"));
    assert!(with("f 1 2 -3\n"));
    assert!(!with("f 1 2 -0\n"));
    assert!(with("f 1 2 -0003\n"));
    assert!(!with("f 1 2 -0002\n"));
}

#[test]
fn dangling_indices_count_only_the_elements_before_the_face() {
    assert!(find_dangling_index(b"v 0 0 0\nf -2\nv 1 1 1\n"));
    assert!(!find_dangling_index(b"v 0 0 0\nv 1 1 1\nf -2\n"));
    assert!(!find_dangling_index(b"v\nv\nf -2\n"));
}

#[test]
fn parts_that_are_no_numbers_are_not_dangling() {
    let head = "v 0 0 0\n";
    let with = |face: &str| find_dangling_index(format!("{}{}", head, face).as_bytes());
    assert!(!with("f -\n"));
    assert!(!with("f --2\n"));
    assert!(!with("f -2x\n"));
    assert!(!with("f x-2\n"));
    assert!(!with("f +2\n"));
    assert!(!with("f 2\n"));
    assert!(with("f \u{a0}-2\u{2003}\n"));
    assert!(with("f \u{b}-2\n"));
    assert!(!with("f -\u{a0}2\n"));
    assert!(!with("f -2\u{a0}2\n"));
}

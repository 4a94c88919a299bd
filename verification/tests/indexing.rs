use game_core::indexed_model::{
    CornerRecord, IndexError, IndexedModel, Position, TexCoord, MAX_POSITIONS,
};

fn position(x: f32, y: f32, z: f32) -> Position {
    Position { x: x.to_bits(), y: y.to_bits(), z: z.to_bits() }
}

fn tex(u: f32, v: f32) -> TexCoord {
    TexCoord { u: u.to_bits(), v: v.to_bits() }
}

fn corner(position_ref: usize, p: Position, uv: Option<TexCoord>) -> CornerRecord {
    CornerRecord { position_ref, position: p, uv }
}

fn distinct(refs: &[usize]) -> usize {
    let mut seen: Vec<usize> = Vec::new();
    for r in refs {
        if !seen.contains(r) {
            seen.push(*r);
        }
    }
    seen.len()
}

#[test]
fn three_corners_two_positions() {
    let a = position(0.0, 0.0, 0.0);
    let b = position(1.0, 0.0, 0.0);
    let corners = vec![
        corner(0, a, Some(tex(0.0, 0.0))),
        corner(1, b, Some(tex(1.0, 0.0))),
        corner(0, a, Some(tex(0.0, 0.0))),
    ];
    let model = IndexedModel::new(&corners).unwrap();
    assert_eq!(model.vertices, vec![a, b]);
    assert_eq!(model.tex_coords, vec![tex(0.0, 0.0), tex(1.0, 0.0)]);
    assert_eq!(model.indices, vec![0, 1, 0]);
}

#[test]
fn empty_input_gives_empty_buffers() {
    let model = IndexedModel::new(&Vec::new()).unwrap();
    assert!(model.vertices.is_empty());
    assert!(model.tex_coords.is_empty());
    assert!(model.indices.is_empty());
}

#[test]
fn first_texture_coordinate_of_a_position_is_kept() {
    let a = position(2.0, 3.0, 4.0);
    let b = position(5.0, 6.0, 7.0);
    let corners = vec![
        corner(4, a, Some(tex(0.25, 0.5))),
        corner(9, b, Some(tex(0.75, 1.0))),
        corner(4, a, Some(tex(0.125, 0.875))),
    ];
    let model = IndexedModel::new(&corners).unwrap();
    assert_eq!(model.indices, vec![0, 1, 0]);
    assert_eq!(model.tex_coords, vec![tex(0.25, 0.5), tex(0.75, 1.0)]);
    assert_eq!(model.vertices, vec![a, b]);
}

#[test]
fn first_position_of_a_reference_is_kept() {
    let corners = vec![
        corner(3, position(1.0, 1.0, 1.0), None),
        corner(3, position(9.0, 9.0, 9.0), None),
    ];
    let model = IndexedModel::new(&corners).unwrap();
    assert_eq!(model.vertices, vec![position(1.0, 1.0, 1.0)]);
    assert_eq!(model.indices, vec![0, 0]);
}

#[test]
fn missing_texture_coordinate_becomes_the_origin() {
    let corners = vec![corner(0, position(1.0, 2.0, 3.0), None)];
    let model = IndexedModel::new(&corners).unwrap();
    assert_eq!(model.tex_coords, vec![tex(0.0, 0.0)]);
    assert_eq!(model.tex_coords[0], TexCoord { u: 0, v: 0 });
}

#[test]
fn indices_follow_order_of_first_appearance() {
    let p = position(0.5, 0.5, 0.5);
    let refs = [7usize, 2, 7, 5, 2, 2, 9, 5, 7];
    let corners: Vec<CornerRecord> = refs.iter().map(|r| corner(*r, p, None)).collect();
    let model = IndexedModel::new(&corners).unwrap();
    assert_eq!(model.indices, vec![0, 1, 0, 2, 1, 1, 3, 2, 0]);
    assert_eq!(model.vertices.len(), 4);
}

#[test]
fn one_vertex_per_distinct_position() {
    let refs = [1usize, 1, 2, 3, 2, 8, 8, 8, 1, 0];
    let corners: Vec<CornerRecord> = refs
        .iter()
        .map(|r| corner(*r, position(*r as f32, 0.0, 1.0), Some(tex(*r as f32, 1.0))))
        .collect();
    let model = IndexedModel::new(&corners).unwrap();
    assert_eq!(model.vertices.len(), distinct(&refs));
    assert_eq!(model.tex_coords.len(), distinct(&refs));
    assert_eq!(model.vertices.len(), 5);
}

#[test]
fn every_index_points_at_its_own_position() {
    let refs = [6usize, 4, 6, 1, 1, 4, 0, 6];
    let corners: Vec<CornerRecord> = refs
        .iter()
        .map(|r| corner(*r, position(*r as f32, 2.0, 3.0), Some(tex(0.5, *r as f32))))
        .collect();
    let model = IndexedModel::new(&corners).unwrap();
    assert_eq!(model.indices.len(), corners.len());
    for (i, index) in model.indices.iter().enumerate() {
        assert!((*index as usize) < model.vertices.len());
        assert_eq!(model.vertices[*index as usize], corners[i].position);
        assert_eq!(model.tex_coords[*index as usize], corners[i].uv.unwrap());
    }
}

#[test]
fn indexing_twice_gives_the_same_buffers() {
    let refs = [3usize, 1, 3, 2, 1, 0];
    let corners: Vec<CornerRecord> = refs
        .iter()
        .map(|r| corner(*r, position(*r as f32, -1.0, 0.0), None))
        .collect();
    let first = IndexedModel::new(&corners).unwrap();
    let second = IndexedModel::new(&corners).unwrap();
    assert_eq!(first.vertices, second.vertices);
    assert_eq!(first.tex_coords, second.tex_coords);
    assert_eq!(first.indices, second.indices);
}

#[test]
fn bit_patterns_are_kept_as_given() {
    let nan = Position { x: 0x7fc0_0001, y: 0x8000_0000, z: 0xffff_ffff };
    let model = IndexedModel::new(&vec![corner(0, nan, None)]).unwrap();
    assert_eq!(model.vertices, vec![nan]);
}

#[test]
fn as_many_positions_as_fit_are_accepted() {
    assert_eq!(MAX_POSITIONS, 65535);
    let p = position(1.0, 2.0, 3.0);
    let mut corners: Vec<CornerRecord> = (0..65535).map(|r| corner(r, p, None)).collect();
    corners.push(corner(0, p, None));
    let model = IndexedModel::new(&corners).unwrap();
    assert_eq!(model.vertices.len(), 65535);
    assert_eq!(model.indices.len(), 65536);
    assert_eq!(model.indices[65534], 65534);
    assert_eq!(model.indices[65535], 0);
}

#[test]
fn too_many_positions_are_refused() {
    let p = position(1.0, 2.0, 3.0);
    let corners: Vec<CornerRecord> = (0..65536).map(|r| corner(r, p, None)).collect();
    assert_eq!(IndexedModel::new(&corners).err(), Some(IndexError::RangeExceeded));
}

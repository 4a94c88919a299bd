//! The mesh indexer: a single pass over the corners of a mesh that keeps one
//! vertex per distinct position reference, in order of first appearance.

use std::collections::BTreeMap;
use vstd::prelude::*;

verus! {

broadcast use vstd::std_specs::btree::group_btree_axioms;

/// The largest number of distinct positions one model may hold, so that
/// every index fits the 16-bit index width.
pub const MAX_POSITIONS: usize = 65535;

/// A point in space. Each coordinate is the IEEE-754 single-precision bit
/// pattern of the value, so that buffers compare bit for bit.
#[derive(Clone, Copy, Debug, PartialEq, Eq, Structural)]
pub struct Position {
    pub x: u32,
    pub y: u32,
    pub z: u32,
}

/// A texture coordinate, as two single-precision bit patterns.
#[derive(Clone, Copy, Debug, PartialEq, Eq, Structural)]
pub struct TexCoord {
    pub u: u32,
    pub v: u32,
}

/// One use of a vertex within a face.
#[derive(Clone, Copy, Debug, PartialEq, Eq, Structural)]
pub struct CornerRecord {
    /// Identifies the position: two corners with the same reference are the
    /// same point of the mesh.
    pub position_ref: usize,
    pub position: Position,
    /// Absent where the source gives the corner no texture coordinate.
    pub uv: Option<TexCoord>,
}

/// Why a mesh could not be indexed.
#[derive(Clone, Copy, Debug, PartialEq, Eq, Structural)]
pub enum IndexError {
    /// The mesh has more than `MAX_POSITIONS` distinct positions.
    RangeExceeded,
}

/// The texture coordinate that a corner contributes: its own, or the origin
/// (the bit pattern of zero is zero) where it has none.
pub open spec fn tex_coord_of(c: CornerRecord) -> TexCoord {
    match c.uv {
        Some(t) => t,
        None => TexCoord { u: 0, v: 0 },
    }
}

/// Whether some corner of `s` refers to position `r`.
pub open spec fn refers_to(s: Seq<CornerRecord>, r: usize) -> bool {
    exists|j: int| 0 <= j < s.len() && (#[trigger] s[j]).position_ref == r
}

/// The corners of `s` that refer to a position no earlier corner refers to,
/// in their order in `s`.
pub open spec fn first_uses(s: Seq<CornerRecord>) -> Seq<CornerRecord>
    decreases s.len(),
{
    if s.len() == 0 {
        Seq::empty()
    } else if refers_to(s.drop_last(), s.last().position_ref) {
        first_uses(s.drop_last())
    } else {
        first_uses(s.drop_last()).push(s.last())
    }
}

/// The place in `f` of the corner that refers to `r`.
pub open spec fn slot_of(f: Seq<CornerRecord>, r: usize) -> int {
    choose|k: int| 0 <= k < f.len() && (#[trigger] f[k]).position_ref == r
}

/// The set of position references that occur in `s`.
pub open spec fn distinct_refs(s: Seq<CornerRecord>) -> Set<usize> {
    Set::new(|r: usize| refers_to(s, r))
}

/// What an indexed model holds: one position and one texture coordinate per
/// distinct position reference, and one index per corner.
pub struct ModelView {
    pub positions: Seq<Position>,
    pub tex_coords: Seq<TexCoord>,
    pub indices: Seq<int>,
}

/// The model that indexing the corners `s` gives: the positions and texture
/// coordinates of the corners that introduce a position, in that order, and
/// for each corner the place of its position among them.
pub open spec fn indexed(s: Seq<CornerRecord>) -> ModelView {
    let f = first_uses(s);
    ModelView {
        positions: f.map_values(|c: CornerRecord| c.position),
        tex_coords: f.map_values(|c: CornerRecord| tex_coord_of(c)),
        indices: Seq::new(s.len(), |i: int| slot_of(f, s[i].position_ref)),
    }
}

/// What `IndexedModel::new` promises of its result on the corners `s`: the
/// model `indexed(s)` where `s` has at most `MAX_POSITIONS` distinct
/// positions, and `RangeExceeded` where it has more.
pub open spec fn indexing_outcome(
    s: Seq<CornerRecord>,
    result: Result<IndexedModel, IndexError>,
) -> bool {
    &&& result is Ok <==> distinct_refs(s).len() <= MAX_POSITIONS
    &&& result matches Ok(m) ==> m@ == indexed(s) && m.wf()
    &&& result matches Err(e) ==> e == IndexError::RangeExceeded
}

/// A sequence refers to what it referred to before its last corner, and to
/// what that corner refers to.
pub proof fn lemma_refers_to_last(s: Seq<CornerRecord>)
    requires
        s.len() > 0,
    ensures
        forall|r: usize|
            refers_to(s, r) <==> (refers_to(s.drop_last(), r) || s.last().position_ref == r),
{
    let p = s.drop_last();
    assert forall|r: usize| refers_to(s, r) <==> (refers_to(p, r) || s.last().position_ref
        == r) by {
        if refers_to(p, r) {
            let j = choose|j: int| 0 <= j < p.len() && (#[trigger] p[j]).position_ref == r;
            assert(s[j].position_ref == r);
        }
        if s.last().position_ref == r {
            assert(s[s.len() - 1].position_ref == r);
        }
        if refers_to(s, r) {
            let j = choose|j: int| 0 <= j < s.len() && (#[trigger] s[j]).position_ref == r;
            if j < p.len() {
                assert(p[j].position_ref == r);
            }
        }
    }
}

/// The first uses of `s` refer to exactly the positions `s` refers to, each
/// once, and are no more than the corners of `s`.
pub proof fn lemma_first_uses(s: Seq<CornerRecord>)
    ensures
        first_uses(s).len() <= s.len(),
        forall|r: usize| refers_to(first_uses(s), r) <==> refers_to(s, r),
        forall|a: int, b: int|
            0 <= a < b < first_uses(s).len() ==> (#[trigger] first_uses(s)[a]).position_ref != (
            #[trigger] first_uses(s)[b]).position_ref,
    decreases s.len(),
{
    if s.len() > 0 {
        let p = s.drop_last();
        let c = s.last();
        let f = first_uses(p);
        let g = first_uses(s);
        lemma_first_uses(p);
        lemma_refers_to_last(s);
        if refers_to(p, c.position_ref) {
            assert(g == f);
        } else {
            assert(g == f.push(c));
            assert forall|r: usize| refers_to(g, r) <==> (refers_to(f, r) || c.position_ref
                == r) by {
                if refers_to(f, r) {
                    let j = choose|j: int| 0 <= j < f.len() && (#[trigger] f[j]).position_ref == r;
                    assert(g[j].position_ref == r);
                }
                if c.position_ref == r {
                    assert(g[g.len() - 1].position_ref == r);
                }
                if refers_to(g, r) {
                    let j = choose|j: int| 0 <= j < g.len() && (#[trigger] g[j]).position_ref == r;
                    if j < f.len() {
                        assert(f[j].position_ref == r);
                    }
                }
            }
            assert forall|a: int, b: int| 0 <= a < b < g.len() implies (#[trigger] g[a]).position_ref
                != (#[trigger] g[b]).position_ref by {
                if b == f.len() {
                    assert(f[a].position_ref == g[a].position_ref);
                    assert(refers_to(f, g[a].position_ref));
                } else {
                    assert(f[a] == g[a] && f[b] == g[b]);
                }
            }
        }
    }
}

/// The first uses of a prefix of `s` are a prefix of the first uses of `s`.
pub proof fn lemma_first_uses_prefix(s: Seq<CornerRecord>, n: int)
    requires
        0 <= n <= s.len(),
    ensures
        first_uses(s.take(n)).len() <= first_uses(s).len(),
        first_uses(s.take(n)) == first_uses(s).take(first_uses(s.take(n)).len() as int),
    decreases s.len(),
{
    if n == s.len() {
        assert(s.take(n) == s);
        assert(first_uses(s) == first_uses(s).take(first_uses(s).len() as int));
    } else {
        let p = s.drop_last();
        assert(p.take(n) == s.take(n));
        lemma_first_uses_prefix(p, n);
        let h = first_uses(s.take(n));
        assert(first_uses(p).take(h.len() as int) == first_uses(s).take(h.len() as int));
    }
}

/// The number of first uses is the number of distinct position references.
pub proof fn lemma_distinct_count(s: Seq<CornerRecord>)
    ensures
        distinct_refs(s).finite(),
        distinct_refs(s).len() == first_uses(s).len(),
    decreases s.len(),
{
    if s.len() == 0 {
        assert(distinct_refs(s) == Set::<usize>::empty());
    } else {
        let p = s.drop_last();
        let c = s.last();
        lemma_distinct_count(p);
        lemma_refers_to_last(s);
        assert(distinct_refs(s) == distinct_refs(p).insert(c.position_ref));
    }
}

/// Among corners that refer to distinct positions, the place of a position
/// is the place of the one corner that refers to it.
pub proof fn lemma_slot_of(f: Seq<CornerRecord>, k: int)
    requires
        0 <= k < f.len(),
        forall|a: int, b: int|
            0 <= a < b < f.len() ==> (#[trigger] f[a]).position_ref != (#[trigger] f[b]).position_ref,
    ensures
        slot_of(f, f[k].position_ref) == k,
{
    let r = f[k].position_ref;
    let c = slot_of(f, r);
    assert(0 <= c < f.len() && f[c].position_ref == r);
    if c < k {
        assert(f[c].position_ref != f[k].position_ref);
    }
    if k < c {
        assert(f[k].position_ref != f[c].position_ref);
    }
}

/// A mesh in indexed form: deduplicated vertex buffers and the index sequence
/// that reassembles the faces from them.
#[derive(Debug)]
pub struct IndexedModel {
    /// One position per distinct position reference, in order of first use.
    pub vertices: Vec<Position>,
    /// One entry per corner of the mesh, each a place in `vertices`.
    pub indices: Vec<u16>,
    /// The texture coordinate recorded with each position.
    pub tex_coords: Vec<TexCoord>,
}

impl View for IndexedModel {
    type V = ModelView;

    open spec fn view(&self) -> ModelView {
        ModelView {
            positions: self.vertices@,
            tex_coords: self.tex_coords@,
            indices: self.indices@.map_values(|k: u16| k as int),
        }
    }
}

impl IndexedModel {
    /// The two vertex buffers go together entry by entry, and every index
    /// points into them.
    pub open spec fn wf(&self) -> bool {
        &&& self.vertices@.len() == self.tex_coords@.len()
        &&& self.vertices@.len() <= MAX_POSITIONS
        &&& forall|i: int|
            0 <= i < self.indices@.len() ==> (#[trigger] self.indices@[i]) < self.vertices@.len()
    }

    /// Turns the corners of a mesh into its indexed form.
    ///
    /// A table remembers the index given to each position reference seen so
    /// far. A corner whose reference is in the table reuses that index; any
    /// other corner appends its position and texture coordinate to the
    /// buffers and takes the next index. A mesh with more than
    /// `MAX_POSITIONS` distinct positions is refused.
    pub fn new(corners: &Vec<CornerRecord>) -> (result: Result<IndexedModel, IndexError>)
        ensures
            result is Ok <==> distinct_refs(corners@).len() <= MAX_POSITIONS,
            result matches Ok(model) ==> model@ == indexed(corners@) && model.wf(),
            result matches Err(error) ==> error == IndexError::RangeExceeded,
    {
        let mut memo: BTreeMap<usize, u16> = BTreeMap::new();
        let mut vertices: Vec<Position> = Vec::new();
        let mut tex_coords: Vec<TexCoord> = Vec::new();
        let mut indices: Vec<u16> = Vec::new();
        let mut next: u16 = 0;
        let mut i: usize = 0;
        proof {
            lemma_distinct_count(corners@);
            assert(corners@.take(0) == Seq::<CornerRecord>::empty());
        }
        while i < corners.len()
            invariant
                i <= corners.len(),
                next == vertices@.len(),
                next <= MAX_POSITIONS,
                vertices@ == first_uses(corners@.take(i as int)).map_values(
                    |c: CornerRecord| c.position,
                ),
                tex_coords@ == first_uses(corners@.take(i as int)).map_values(
                    |c: CornerRecord| tex_coord_of(c),
                ),
                indices@.len() == i,
                forall|j: int|
                    0 <= j < i ==> (#[trigger] indices@[j]) < next && first_uses(
                        corners@.take(i as int),
                    )[indices@[j] as int].position_ref == corners@[j].position_ref,
                forall|r: usize|
                    memo@.contains_key(r) <==> refers_to(corners@.take(i as int), r),
                forall|r: usize|
                    memo@.contains_key(r) ==> (#[trigger] memo@[r]) < next && first_uses(
                        corners@.take(i as int),
                    )[memo@[r] as int].position_ref == r,
                distinct_refs(corners@).len() == first_uses(corners@).len(),
            decreases corners.len() - i,
        {
            let corner = corners[i];
            let ghost before = corners@.take(i as int);
            let ghost after = corners@.take(i + 1);
            let ghost f = first_uses(before);
            proof {
                assert(after.drop_last() == before);
                assert(after.last() == corner);
                lemma_first_uses(before);
                lemma_first_uses(after);
                lemma_refers_to_last(after);
            }
            let known = memo.get(&corner.position_ref);
            let index: u16 = match known {
                Some(k) => {
                    proof {
                        assert(first_uses(after) == f);
                    }
                    *k
                },
                None => {
                    proof {
                        assert(first_uses(after) == f.push(corner));
                    }
                    if next as usize == MAX_POSITIONS {
                        proof {
                            lemma_first_uses_prefix(corners@, i + 1);
                        }
                        return Err(IndexError::RangeExceeded);
                    }
                    let fresh = next;
                    vertices.push(corner.position);
                    let uv = match corner.uv {
                        Some(t) => t,
                        None => TexCoord { u: 0, v: 0 },
                    };
                    tex_coords.push(uv);
                    memo.insert(corner.position_ref, fresh);
                    next = next + 1;
                    fresh
                },
            };
            indices.push(index);
            i = i + 1;
        }
        proof {
            assert(corners@.take(i as int) == corners@);
            lemma_first_uses(corners@);
        }
        let model = IndexedModel { vertices, indices, tex_coords };
        proof {
            let f = first_uses(corners@);
            assert forall|j: int| 0 <= j < corners@.len() implies model@.indices[j] == slot_of(
                f,
                corners@[j].position_ref,
            ) by {
                lemma_slot_of(f, model.indices@[j] as int);
            }
            assert(model@.indices == indexed(corners@).indices);
        }
        Ok(model)
    }
}

/// Deduplication: the position buffer and the texture-coordinate buffer
/// each hold exactly one entry per distinct position reference of the
/// input, and no two entries stand for the same reference.
pub proof fn lemma_one_vertex_per_position(s: Seq<CornerRecord>)
    ensures
        indexed(s).positions.len() == distinct_refs(s).len(),
        indexed(s).tex_coords.len() == distinct_refs(s).len(),
        forall|a: int, b: int|
            0 <= a < b < first_uses(s).len() ==> (#[trigger] first_uses(s)[a]).position_ref != (
            #[trigger] first_uses(s)[b]).position_ref,
{
    lemma_distinct_count(s);
    lemma_first_uses(s);
}

/// Every first use of `s` is a corner of `s`.
pub proof fn lemma_first_uses_are_corners(s: Seq<CornerRecord>, k: int)
    requires
        0 <= k < first_uses(s).len(),
    ensures
        exists|i: int| 0 <= i < s.len() && #[trigger] s[i] == first_uses(s)[k],
    decreases s.len(),
{
    let p = s.drop_last();
    if k < first_uses(p).len() {
        lemma_first_uses_are_corners(p, k);
        let i = choose|i: int| 0 <= i < p.len() && #[trigger] p[i] == first_uses(p)[k];
        assert(s[i] == first_uses(s)[k]);
    } else {
        assert(s[s.len() - 1] == first_uses(s)[k]);
    }
}

/// Deduplication, counted by value: where corners that refer to different
/// positions also carry different coordinates, no coordinates occur twice
/// in the position buffer, which then holds as many distinct entries as the
/// input has distinct position references.
pub proof fn lemma_positions_distinct(s: Seq<CornerRecord>)
    requires
        forall|i: int, j: int|
            0 <= i < s.len() && 0 <= j < s.len() && (#[trigger] s[i]).position == (
            #[trigger] s[j]).position ==> s[i].position_ref == s[j].position_ref,
    ensures
        indexed(s).positions.no_duplicates(),
        indexed(s).positions.to_set().len() == distinct_refs(s).len(),
{
    let f = first_uses(s);
    let positions = indexed(s).positions;
    lemma_first_uses(s);
    lemma_distinct_count(s);
    assert forall|a: int, b: int| 0 <= a < positions.len() && 0 <= b < positions.len() && a
        != b implies positions[a] != positions[b] by {
        lemma_first_uses_are_corners(s, a);
        lemma_first_uses_are_corners(s, b);
        let i = choose|i: int| 0 <= i < s.len() && #[trigger] s[i] == f[a];
        let j = choose|j: int| 0 <= j < s.len() && #[trigger] s[j] == f[b];
        if a < b {
            assert(f[a].position_ref != f[b].position_ref);
        } else {
            assert(f[b].position_ref != f[a].position_ref);
        }
    }
    positions.unique_seq_to_set();
}

/// Index validity: there is one index per corner, each index points into the
/// vertex buffers, and the vertex it points at is the one recorded for the
/// corner's position reference.
pub proof fn lemma_indices_valid(s: Seq<CornerRecord>)
    ensures
        indexed(s).indices.len() == s.len(),
        forall|i: int|
            0 <= i < s.len() ==> 0 <= (#[trigger] indexed(s).indices[i]) < indexed(
                s,
            ).positions.len(),
        forall|i: int|
            0 <= i < s.len() ==> first_uses(s)[#[trigger] indexed(s).indices[i]].position_ref
                == s[i].position_ref,
{
    lemma_first_uses(s);
    assert forall|i: int| 0 <= i < s.len() implies 0 <= (#[trigger] indexed(s).indices[i])
        < first_uses(s).len() && first_uses(s)[indexed(s).indices[i]].position_ref
        == s[i].position_ref by {
        assert(refers_to(s, s[i].position_ref));
        assert(refers_to(first_uses(s), s[i].position_ref));
    }
}

/// Determinism: two runs of the indexer on the same corners end alike, and
/// where they give a model the buffers and the index sequence are equal.
pub proof fn lemma_indexing_deterministic(
    s: Seq<CornerRecord>,
    first: Result<IndexedModel, IndexError>,
    second: Result<IndexedModel, IndexError>,
)
    requires
        indexing_outcome(s, first),
        indexing_outcome(s, second),
    ensures
        first is Ok <==> second is Ok,
        first is Ok ==> first->Ok_0@ == second->Ok_0@,
        first is Ok ==> first->Ok_0.vertices@ == second->Ok_0.vertices@,
        first is Ok ==> first->Ok_0.tex_coords@ == second->Ok_0.tex_coords@,
        first is Ok ==> first->Ok_0.indices@ == second->Ok_0.indices@,
        first is Err ==> first->Err_0 == second->Err_0,
{
    if first is Ok {
        let a = first->Ok_0.indices@;
        let b = second->Ok_0.indices@;
        assert(a.map_values(|k: u16| k as int) == b.map_values(|k: u16| k as int));
        assert forall|i: int| 0 <= i < a.len() implies a[i] == b[i] by {
            assert(a.map_values(|k: u16| k as int)[i] == a[i] as int);
            assert(b.map_values(|k: u16| k as int)[i] == b[i] as int);
        }
        assert(a.len() == a.map_values(|k: u16| k as int).len());
        assert(b.len() == b.map_values(|k: u16| k as int).len());
        assert(a =~= b);
    }
}

/// Order preservation: the corner at `p` that first refers to a position
/// settles that position's index, which is the number of distinct positions
/// before `p`, and the position and texture coordinate recorded under it.
/// Every later corner `i` with the same reference shares that index.
pub proof fn lemma_first_use_decides(s: Seq<CornerRecord>, p: int, i: int)
    requires
        0 <= p <= i < s.len(),
        s[p].position_ref == s[i].position_ref,
        forall|k: int| 0 <= k < p ==> (#[trigger] s[k]).position_ref != s[p].position_ref,
    ensures
        indexed(s).indices[i] == distinct_refs(s.take(p)).len(),
        indexed(s).indices[i] == indexed(s).indices[p],
        0 <= indexed(s).indices[i] < indexed(s).positions.len(),
        indexed(s).positions[indexed(s).indices[i]] == s[p].position,
        indexed(s).tex_coords[indexed(s).indices[i]] == tex_coord_of(s[p]),
{
    let f = first_uses(s);
    let before = s.take(p);
    let upto = s.take(p + 1);
    let h = first_uses(before).len() as int;
    assert(upto.drop_last() == before);
    assert(upto.last() == s[p]);
    if refers_to(before, s[p].position_ref) {
        let k = choose|k: int|
            0 <= k < before.len() && (#[trigger] before[k]).position_ref == s[p].position_ref;
        assert(s[k].position_ref == s[p].position_ref);
    }
    assert(first_uses(upto) == first_uses(before).push(s[p]));
    lemma_first_uses_prefix(s, p + 1);
    assert(f.take(h + 1)[h] == s[p]);
    lemma_first_uses(s);
    lemma_slot_of(f, h);
    lemma_distinct_count(before);
}

/// Empty input: indexing no corners gives three empty buffers.
pub proof fn lemma_indexed_empty()
    ensures
        indexed(Seq::empty()).positions == Seq::<Position>::empty(),
        indexed(Seq::empty()).tex_coords == Seq::<TexCoord>::empty(),
        indexed(Seq::empty()).indices == Seq::<int>::empty(),
        distinct_refs(Seq::empty()).len() == 0,
{
    lemma_distinct_count(Seq::empty());
}

} // verus!

//! Reading the raw source of a model: decoding it as text, telling whether
//! it is safe to hand to the parser, and parsing it into corner records.

use crate::indexed_model::{CornerRecord, Position, TexCoord};
use vstd::prelude::*;
use vstd::string::StringSliceAdditionalSpecFns;
use vstd::utf8::{decode_utf8, valid_utf8};

verus! {

/// What the first word of a line announces.
#[derive(Clone, Copy, Debug, PartialEq, Eq, Structural)]
pub enum LineKind {
    /// `v`: the line adds a position.
    Position,
    /// `vt`: the line adds a texture coordinate.
    Texture,
    /// `vn`: the line adds a normal.
    Normal,
    /// `f`: the line is a face, and its further words are corners.
    Face,
    /// Any other word.
    Other,
}

/// How far into a line the scan is.
#[derive(Clone, Copy, Debug, PartialEq, Eq, Structural)]
pub enum LinePhase {
    /// Nothing but blanks so far.
    Blank,
    /// Inside the first word, which so far spells the given keyword.
    Head(LineKind),
    /// Past the first word, which was the given keyword.
    Body(LineKind),
}

/// What the current part of a corner (the text between two slashes) spells
/// so far, leaving aside bytes that trimming may remove at either end.
pub enum Part {
    /// Nothing yet.
    Empty,
    /// A minus sign.
    Minus,
    /// A minus sign and digits of the given value.
    Digits(nat),
    /// A minus sign, digits of the given value, then removable bytes.
    Padded(nat),
    /// Anything else.
    Other,
}

/// The state of a scan over the bytes of a model source.
pub struct Scan {
    /// The `v`, `vt` and `vn` lines seen so far.
    pub positions: nat,
    pub uvs: nat,
    pub normals: nat,
    pub phase: LinePhase,
    /// Within a corner: the number of slashes before the current part.
    pub slot: nat,
    pub part: Part,
    /// Whether a part that reaches back too far has ended already.
    pub found: bool,
}

/// A blank within a line: space, tab, form feed or carriage return.
pub open spec fn is_blank(c: u8) -> bool {
    c == 0x20 || c == 0x09 || c == 0x0c || c == 0x0d
}

/// The line feed, which ends a line.
pub open spec fn is_line_end(c: u8) -> bool {
    c == 0x0a
}

/// A byte that may belong to white space which is no blank: the vertical
/// tab, and every byte outside ASCII.
pub open spec fn is_removable(c: u8) -> bool {
    c == 0x0b || c >= 0x80
}

pub open spec fn is_digit(c: u8) -> bool {
    0x30 <= c <= 0x39
}

/// The keyword that a first word spells after its first byte.
pub open spec fn keyword_start(c: u8) -> LineKind {
    if c == 0x76 {
        LineKind::Position
    } else if c == 0x66 {
        LineKind::Face
    } else {
        LineKind::Other
    }
}

/// The keyword that a first word spells after one more byte: only `v` can
/// go on, to `vt` or `vn`.
pub open spec fn keyword_next(k: LineKind, c: u8) -> LineKind {
    if k == LineKind::Position && c == 0x74 {
        LineKind::Texture
    } else if k == LineKind::Position && c == 0x6e {
        LineKind::Normal
    } else {
        LineKind::Other
    }
}

pub open spec fn part_next(p: Part, c: u8) -> Part {
    match p {
        Part::Empty => if is_removable(c) {
            Part::Empty
        } else if c == 0x2d {
            Part::Minus
        } else {
            Part::Other
        },
        Part::Minus => if is_digit(c) {
            Part::Digits((c - 0x30) as nat)
        } else {
            Part::Other
        },
        Part::Digits(m) => if is_digit(c) {
            Part::Digits((10 * m + (c - 0x30)) as nat)
        } else if is_removable(c) {
            Part::Padded(m)
        } else {
            Part::Other
        },
        Part::Padded(m) => if is_removable(c) {
            Part::Padded(m)
        } else {
            Part::Other
        },
        Part::Other => Part::Other,
    }
}

/// The number of elements that a part in the given slot counts back from.
pub open spec fn elements(st: Scan, slot: nat) -> nat {
    if slot == 0 {
        st.positions
    } else if slot == 1 {
        st.uvs
    } else {
        st.normals
    }
}

/// Whether the current part is one of the first three of a corner and
/// spells a negative number that counts back past the first element of its
/// kind.
pub open spec fn reaches_back(st: Scan) -> bool {
    &&& st.phase == LinePhase::Body(LineKind::Face)
    &&& st.slot < 3
    &&& match st.part {
        Part::Digits(m) => m > elements(st, st.slot),
        Part::Padded(m) => m > elements(st, st.slot),
        _ => false,
    }
}

/// The state after a blank or a line end: the word that ends here is
/// counted, where it is the keyword of a position, texture or normal line.
pub open spec fn after_word(st: Scan, line_ends: bool) -> Scan {
    Scan {
        positions: if st.phase == LinePhase::Head(LineKind::Position) {
            st.positions + 1
        } else {
            st.positions
        },
        uvs: if st.phase == LinePhase::Head(LineKind::Texture) {
            st.uvs + 1
        } else {
            st.uvs
        },
        normals: if st.phase == LinePhase::Head(LineKind::Normal) {
            st.normals + 1
        } else {
            st.normals
        },
        phase: if line_ends {
            LinePhase::Blank
        } else {
            match st.phase {
                LinePhase::Blank => LinePhase::Blank,
                LinePhase::Head(k) => LinePhase::Body(k),
                LinePhase::Body(k) => LinePhase::Body(k),
            }
        },
        slot: 0,
        part: Part::Empty,
        found: st.found || reaches_back(st),
    }
}

/// The state after one more byte.
pub open spec fn step(st: Scan, c: u8) -> Scan {
    if is_line_end(c) || is_blank(c) {
        after_word(st, is_line_end(c))
    } else {
        match st.phase {
            LinePhase::Blank => Scan { phase: LinePhase::Head(keyword_start(c)), ..st },
            LinePhase::Head(k) => Scan { phase: LinePhase::Head(keyword_next(k, c)), ..st },
            LinePhase::Body(LineKind::Face) => if c == 0x2f {
                Scan {
                    slot: st.slot + 1,
                    part: Part::Empty,
                    found: st.found || reaches_back(st),
                    ..st
                }
            } else {
                Scan { part: part_next(st.part, c), ..st }
            },
            LinePhase::Body(_) => st,
        }
    }
}

/// The state after all of `b`.
pub open spec fn scan(b: Seq<u8>) -> Scan
    decreases b.len(),
{
    if b.len() == 0 {
        Scan {
            positions: 0,
            uvs: 0,
            normals: 0,
            phase: LinePhase::Blank,
            slot: 0,
            part: Part::Empty,
            found: false,
        }
    } else {
        step(scan(b.drop_last()), b.last())
    }
}

/// Whether some corner of a face line of `b` holds, among its first three
/// parts, a negative index that counts back past the first element declared
/// before that line. Lines end at line feeds, words at blanks, parts at
/// slashes; bytes that trimming may remove around a part are left aside.
pub open spec fn has_dangling_index(b: Seq<u8>) -> bool {
    scan(b).found || reaches_back(scan(b))
}

/// The part of a corner as the running scan keeps it: values are held up to
/// the largest that fits.
enum PartState {
    Empty,
    Minus,
    Digits(u128),
    Padded(u128),
    Other,
}

/// The running scan.
struct Scanner {
    positions: usize,
    uvs: usize,
    normals: usize,
    phase: LinePhase,
    slot: u8,
    part: PartState,
    found: bool,
}

spec fn capped(m: nat) -> int {
    if m <= u128::MAX {
        m as int
    } else {
        u128::MAX as int
    }
}

spec fn part_models(p: PartState, q: Part) -> bool {
    match p {
        PartState::Empty => q == Part::Empty,
        PartState::Minus => q == Part::Minus,
        PartState::Digits(a) => q matches Part::Digits(m) && a == capped(m),
        PartState::Padded(a) => q matches Part::Padded(m) && a == capped(m),
        PartState::Other => q == Part::Other,
    }
}

impl Scanner {
    spec fn models(&self, st: Scan) -> bool {
        &&& self.positions == st.positions
        &&& self.uvs == st.uvs
        &&& self.normals == st.normals
        &&& self.phase == st.phase
        &&& self.slot == if st.slot < 3 {
            st.slot as int
        } else {
            3
        }
        &&& part_models(self.part, st.part)
        &&& self.found == st.found
    }

    fn reaches_back(&self, Ghost(st): Ghost<Scan>) -> (r: bool)
        requires
            self.models(st),
        ensures
            r == reaches_back(st),
    {
        let face = match self.phase {
            LinePhase::Body(LineKind::Face) => true,
            _ => false,
        };
        if !face || self.slot >= 3 {
            return false;
        }
        let count = if self.slot == 0 {
            self.positions
        } else if self.slot == 1 {
            self.uvs
        } else {
            self.normals
        };
        match self.part {
            PartState::Digits(m) => m > count as u128,
            PartState::Padded(m) => m > count as u128,
            _ => false,
        }
    }

    fn after_word(self, line_ends: bool, Ghost(st): Ghost<Scan>) -> (next: Scanner)
        requires
            self.models(st),
            self.positions + self.uvs + self.normals < usize::MAX,
        ensures
            next.models(after_word(st, line_ends)),
            next.positions + next.uvs + next.normals <= self.positions + self.uvs + self.normals
                + 1,
    {
        let found = self.found || self.reaches_back(Ghost(st));
        let mut positions = self.positions;
        let mut uvs = self.uvs;
        let mut normals = self.normals;
        let phase = match self.phase {
            LinePhase::Blank => LinePhase::Blank,
            LinePhase::Head(k) => {
                match k {
                    LineKind::Position => {
                        positions = positions + 1;
                    },
                    LineKind::Texture => {
                        uvs = uvs + 1;
                    },
                    LineKind::Normal => {
                        normals = normals + 1;
                    },
                    _ => {},
                }
                LinePhase::Body(k)
            },
            LinePhase::Body(k) => LinePhase::Body(k),
        };
        Scanner {
            positions,
            uvs,
            normals,
            phase: if line_ends {
                LinePhase::Blank
            } else {
                phase
            },
            slot: 0,
            part: PartState::Empty,
            found,
        }
    }

    fn advance(self, c: u8, Ghost(st): Ghost<Scan>) -> (next: Scanner)
        requires
            self.models(st),
            self.positions + self.uvs + self.normals < usize::MAX,
        ensures
            next.models(step(st, c)),
            next.positions + next.uvs + next.normals <= self.positions + self.uvs + self.normals
                + 1,
    {
        if c == 0x0a {
            return self.after_word(true, Ghost(st));
        }
        if c == 0x20 || c == 0x09 || c == 0x0c || c == 0x0d {
            return self.after_word(false, Ghost(st));
        }
        match self.phase {
            LinePhase::Blank => {
                let k = if c == 0x76 {
                    LineKind::Position
                } else if c == 0x66 {
                    LineKind::Face
                } else {
                    LineKind::Other
                };
                Scanner { phase: LinePhase::Head(k), ..self }
            },
            LinePhase::Head(k) => {
                let position = match k {
                    LineKind::Position => true,
                    _ => false,
                };
                let k2 = if position && c == 0x74 {
                    LineKind::Texture
                } else if position && c == 0x6e {
                    LineKind::Normal
                } else {
                    LineKind::Other
                };
                Scanner { phase: LinePhase::Head(k2), ..self }
            },
            LinePhase::Body(LineKind::Face) => {
                if c == 0x2f {
                    let found = self.found || self.reaches_back(Ghost(st));
                    let slot: u8 = if self.slot < 3 {
                        self.slot + 1
                    } else {
                        3
                    };
                    Scanner { slot, part: PartState::Empty, found, ..self }
                } else {
                    let removable = c == 0x0b || c >= 0x80;
                    let digit = 0x30 <= c && c <= 0x39;
                    let part = match self.part {
                        PartState::Empty => if removable {
                            PartState::Empty
                        } else if c == 0x2d {
                            PartState::Minus
                        } else {
                            PartState::Other
                        },
                        PartState::Minus => if digit {
                            PartState::Digits((c - 0x30) as u128)
                        } else {
                            PartState::Other
                        },
                        PartState::Digits(m) => if digit {
                            let d = (c - 0x30) as u128;
                            if m > (u128::MAX - d) / 10 {
                                PartState::Digits(u128::MAX)
                            } else {
                                PartState::Digits(10 * m + d)
                            }
                        } else if removable {
                            PartState::Padded(m)
                        } else {
                            PartState::Other
                        },
                        PartState::Padded(m) => if removable {
                            PartState::Padded(m)
                        } else {
                            PartState::Other
                        },
                        PartState::Other => PartState::Other,
                    };
                    Scanner { part, ..self }
                }
            },
            LinePhase::Body(_) => self,
        }
    }
}

/// Tells whether the source `bytes` holds a relative index that counts back
/// past the first element, in one pass over the bytes.
pub fn find_dangling_index(bytes: &[u8]) -> (found: bool)
    ensures
        found == has_dangling_index(bytes@),
{
    let mut sc = Scanner {
        positions: 0,
        uvs: 0,
        normals: 0,
        phase: LinePhase::Blank,
        slot: 0,
        part: PartState::Empty,
        found: false,
    };
    let mut i: usize = 0;
    proof {
        assert(bytes@.take(0).len() == 0);
    }
    while i < bytes.len()
        invariant
            i <= bytes.len(),
            sc.models(scan(bytes@.take(i as int))),
            sc.positions + sc.uvs + sc.normals <= i,
        decreases bytes.len() - i,
    {
        proof {
            assert(bytes@.take(i + 1).drop_last() == bytes@.take(i as int));
            assert(bytes@.take(i + 1).last() == bytes@[i as int]);
        }
        sc = sc.advance(bytes[i], Ghost(scan(bytes@.take(i as int))));
        i = i + 1;
    }
    proof {
        assert(bytes@.take(i as int) == bytes@);
    }
    sc.found || sc.reaches_back(Ghost(scan(bytes@)))
}

/// The parser's own error.
#[verifier::external_type_specification]
#[verifier::external_body]
pub struct ExObjError(wavefront::Error);

/// The error of the UTF-8 check.
#[verifier::external_type_specification]
#[verifier::external_body]
pub struct ExUtf8Error(core::str::Utf8Error);

/// The corners that the parser reads from a text, in the order in which the
/// text declares them, or `None` where the parser refuses the text.
pub uninterp spec fn obj_corners(text: Seq<char>) -> Option<Seq<CornerRecord>>;

/// `core::str::from_utf8`: succeeds exactly on valid UTF-8, and the text it
/// gives is made of the very bytes it was given.
#[verifier::external_body]
fn decode(bytes: &[u8]) -> (result: Result<&str, core::str::Utf8Error>)
    ensures
        result is Ok <==> valid_utf8(bytes@),
        result matches Ok(text) ==> text.spec_bytes() == bytes@,
{
    core::str::from_utf8(bytes)
}

/// `wavefront::Obj::from_lines` on the lines of `text`, followed by
/// `Obj::vertices`, each vertex turned into a corner record: its position
/// index, the bit patterns of its position, and those of the first two
/// components of its texture coordinate where it has one.
///
/// What the parser makes of a text depends on the text alone, so the result
/// is `obj_corners` of the text. The parser panics on a relative index that
/// counts back to just before the first element (and, where overflow is
/// checked, on the least index there is); `has_dangling_index` holds of
/// every such text, so those are kept out.
#[verifier::external_body]
fn parse_obj(text: &str) -> (result: Result<Vec<CornerRecord>, wavefront::Error>)
    requires
        !has_dangling_index(text.spec_bytes()),
    ensures
        result is Ok <==> obj_corners(text@) is Some,
        result matches Ok(corners) ==> obj_corners(text@) == Some(corners@),
{
    let obj = wavefront::Obj::from_lines(text.lines())?;
    Ok(obj.vertices().map(|v| {
        let p = v.position();
        CornerRecord {
            position_ref: v.position_index(),
            position: Position { x: p[0].to_bits(), y: p[1].to_bits(), z: p[2].to_bits() },
            uv: v.uv().map(|t| TexCoord { u: t[0].to_bits(), v: t[1].to_bits() }),
        }
    }).collect())
}

/// The parser's error in words, as its `Display` writes it.
#[verifier::external_body]
fn describe(error: &wavefront::Error) -> String {
    format!("{}", error)
}

/// Why a source could not be read as a mesh.
#[derive(Clone, Copy, Debug, PartialEq, Eq, Structural)]
pub enum ParseError {
    /// The source is not UTF-8 text.
    NotText,
    /// A face holds a relative index that counts back past the first
    /// element declared before it.
    DanglingIndex,
    /// The parser refused the text.
    Rejected,
}

/// A refused source: the kind of fault, and a line of text for a diagnostic.
#[derive(Debug)]
pub struct ParseFailure {
    pub kind: ParseError,
    pub detail: String,
}

/// What reading the source `raw` gives: its corners, or the first fault in
/// the order in which the checks are made.
pub open spec fn corners_of(raw: Seq<u8>) -> Result<Seq<CornerRecord>, ParseError> {
    if !valid_utf8(raw) {
        Err(ParseError::NotText)
    } else if has_dangling_index(raw) {
        Err(ParseError::DanglingIndex)
    } else {
        match obj_corners(decode_utf8(raw)) {
            Some(corners) => Ok(corners),
            None => Err(ParseError::Rejected),
        }
    }
}

/// Reads the raw source of a model into its corner records.
pub fn read_corners(raw: &[u8]) -> (result: Result<Vec<CornerRecord>, ParseFailure>)
    ensures
        match result {
            Ok(corners) => corners_of(raw@) == Ok::<Seq<CornerRecord>, ParseError>(corners@),
            Err(failure) => corners_of(raw@) == Err::<Seq<CornerRecord>, ParseError>(
                failure.kind,
            ),
        },
{
    let text = match decode(raw) {
        Ok(text) => text,
        Err(_) => {
            return Err(
                ParseFailure {
                    kind: ParseError::NotText,
                    detail: "the source is not UTF-8 text".to_string(),
                },
            );
        },
    };
    proof {
        vstd::utf8::encode_utf8_decode_utf8(text@);
    }
    if find_dangling_index(raw) {
        return Err(
            ParseFailure {
                kind: ParseError::DanglingIndex,
                detail: "a relative index counts back past the first element".to_string(),
            },
        );
    }
    match parse_obj(text) {
        Ok(corners) => Ok(corners),
        Err(error) => Err(ParseFailure { kind: ParseError::Rejected, detail: describe(&error) }),
    }
}

} // verus!

//! Meshes as a loader hands them over: a flat list of face corners.

use crate::vec3::Vec3;
use vstd::prelude::*;

verus! {

/// Puts together the corners of the faces of a mesh from the tables of a mesh file.
pub struct ObjLoader {}

/// A mesh: the corners of its faces, three to a face, each a vertex and its normal.
pub struct Obj {
    pub faces: Vec<(Vec3, Vec3)>,
}

/// What a table of a mesh file holds at an index. The entries count from one; index
/// zero stands for the zero vector.
pub open spec fn spec_entry(table: Seq<Vec3>, index: int) -> Vec3 {
    if index == 0 {
        Vec3::spec_zeros()
    } else {
        table[index - 1]
    }
}

/// Whether every corner's indices lie within the tables.
pub open spec fn spec_resolvable(
    vertices: Seq<Vec3>,
    normals: Seq<Vec3>,
    corners: Seq<(usize, usize)>,
) -> bool {
    forall|i: int|
        0 <= i < corners.len() ==> (#[trigger] corners[i]).0 <= vertices.len() && corners[i].1
            <= normals.len()
}

/// The fields of a text between separators: read from the left, a separator starts a
/// new field and any other byte extends the last one. A text without separator is one
/// field, and between two separators in a row lies an empty field.
pub open spec fn spec_split(text: Seq<u8>, separator: u8) -> Seq<Seq<u8>>
    decreases text.len(),
{
    if text.len() == 0 {
        seq![Seq::<u8>::empty()]
    } else {
        let before = spec_split(text.drop_last(), separator);
        if text.last() == separator {
            before.push(Seq::<u8>::empty())
        } else {
            before.update(before.len() - 1, before.last().push(text.last()))
        }
    }
}

/// A text has at least one field.
pub proof fn lemma_split_is_not_empty(text: Seq<u8>, separator: u8)
    ensures
        spec_split(text, separator).len() >= 1,
    decreases text.len(),
{
    if text.len() > 0 {
        lemma_split_is_not_empty(text.drop_last(), separator);
    }
}

/// The texts that a list of byte vectors holds.
pub open spec fn spec_texts(fields: Seq<Vec<u8>>) -> Seq<Seq<u8>> {
    Seq::new(fields.len(), |i: int| fields[i]@)
}

/// Cuts a text into its fields.
pub fn split(text: &[u8], separator: u8) -> (fields: Vec<Vec<u8>>)
    ensures
        spec_texts(fields@) == spec_split(text@, separator),
        fields@.len() >= 1,
{
    let mut fields: Vec<Vec<u8>> = Vec::new();
    let mut current: Vec<u8> = Vec::new();
    let mut i: usize = 0;
    proof {
        assert(text@.subrange(0, 0) =~= Seq::<u8>::empty());
        assert(spec_texts(fields@).push(current@) =~= seq![Seq::<u8>::empty()]);
    }
    while i < text.len()
        invariant
            i <= text@.len(),
            spec_texts(fields@).push(current@) == spec_split(text@.subrange(0, i as int), separator),
        decreases text@.len() - i,
    {
        let ghost read = text@.subrange(0, i as int);
        let ghost more = text@.subrange(0, i as int + 1);
        let ghost earlier = spec_texts(fields@);
        let ghost last = current@;
        proof {
            assert(more.drop_last() =~= read);
            assert(more.last() == text@[i as int]);
        }
        if text[i] == separator {
            fields.push(current);
            current = Vec::new();
            proof {
                assert(spec_texts(fields@) =~= earlier.push(last));
                assert(spec_texts(fields@).push(current@) =~= spec_split(read, separator).push(
                    Seq::<u8>::empty(),
                ));
            }
        } else {
            current.push(text[i]);
            proof {
                assert(spec_texts(fields@).push(current@) =~= spec_split(read, separator).update(
                    spec_split(read, separator).len() - 1,
                    spec_split(read, separator).last().push(text@[i as int]),
                ));
            }
        }
        i = i + 1;
    }
    let ghost earlier = spec_texts(fields@);
    fields.push(current);
    proof {
        assert(text@.subrange(0, text@.len() as int) =~= text@);
        assert(spec_texts(fields@) =~= earlier.push(current@));
    }
    fields
}

/// The number that a run of decimal digits stands for; an empty run stands for zero.
pub open spec fn spec_value(digits: Seq<u8>) -> nat
    decreases digits.len(),
{
    if digits.len() == 0 {
        0
    } else {
        (10 * spec_value(digits.drop_last()) + (digits.last() - 0x30)) as nat
    }
}

/// Whether every byte is a decimal digit.
pub open spec fn spec_all_digits(digits: Seq<u8>) -> bool {
    forall|i: int| 0 <= i < digits.len() ==> 0x30 <= #[trigger] digits[i] <= 0x39
}

/// The digits of a token: the token without a leading plus sign.
pub open spec fn spec_unsigned(token: Seq<u8>) -> Seq<u8> {
    if token.len() > 0 && token[0] == 0x2b {
        token.subrange(1, token.len() as int)
    } else {
        token
    }
}

/// The whole number that a token stands for: decimal digits, at least one, after at
/// most one plus sign. Anything else stands for no number.
pub open spec fn spec_number(token: Seq<u8>) -> Option<nat> {
    let digits = spec_unsigned(token);
    if digits.len() > 0 && spec_all_digits(digits) {
        Some(spec_value(digits))
    } else {
        None
    }
}

/// The number a token stands for, where it fits the machine's word.
pub open spec fn spec_index(token: Seq<u8>) -> Option<usize> {
    match spec_number(token) {
        Some(n) => if n <= usize::MAX {
            Some(n as usize)
        } else {
            None
        },
        None => None,
    }
}

/// More digits do not make a number smaller.
proof fn lemma_value_grows(digits: Seq<u8>, n: int)
    requires
        0 <= n <= digits.len(),
        spec_all_digits(digits),
    ensures
        spec_value(digits.subrange(0, n)) <= spec_value(digits),
    decreases digits.len() - n,
{
    if n == digits.len() {
        assert(digits.subrange(0, n) =~= digits);
    } else {
        let longer = digits.subrange(0, n + 1);
        assert(longer.drop_last() =~= digits.subrange(0, n));
        assert(longer.last() == digits[n]);
        lemma_value_grows(digits, n + 1);
    }
}

/// Reads a whole number: decimal digits after at most one plus sign. There is no
/// number where the token is empty, holds anything but digits, or stands for more than
/// a machine word holds.
pub fn number(token: &[u8]) -> (r: Option<usize>)
    ensures
        r == spec_index(token@),
{
    let start: usize = if token.len() > 0 && token[0] == 0x2b {
        1
    } else {
        0
    };
    let ghost digits = spec_unsigned(token@);
    if start >= token.len() {
        return None;
    }
    let mut value: usize = 0;
    let mut i: usize = start;
    proof {
        assert(digits.subrange(0, 0) =~= Seq::<u8>::empty());
    }
    while i < token.len()
        invariant
            start <= i <= token@.len(),
            start <= 1,
            digits == spec_unsigned(token@),
            digits.len() == token@.len() - start,
            forall|j: int| 0 <= j < digits.len() ==> digits[j] == token@[j + start],
            spec_all_digits(digits.subrange(0, i - start)),
            value == spec_value(digits.subrange(0, i - start)),
        decreases token@.len() - i,
    {
        let byte: u8 = token[i];
        if byte < 0x30 || byte > 0x39 {
            proof {
                assert(digits[i - start] == byte);
            }
            return None;
        }
        let digit: usize = (byte - 0x30) as usize;
        let ghost longer = digits.subrange(0, i - start + 1);
        proof {
            assert(longer.drop_last() =~= digits.subrange(0, i - start));
            assert(longer.last() == byte);
            assert(spec_value(longer) == 10 * value + digit);
            assert forall|j: int| 0 <= j < longer.len() implies 0x30 <= #[trigger] longer[j]
                <= 0x39 by {
                if j < i - start {
                    assert(digits.subrange(0, i - start)[j] == longer[j]);
                }
            }
        }
        if value > (usize::MAX - digit) / 10 {
            proof {
                assert(spec_value(longer) > usize::MAX);
                if spec_all_digits(digits) {
                    lemma_value_grows(digits, i - start + 1);
                }
            }
            return None;
        }
        value = 10 * value + digit;
        i = i + 1;
    }
    proof {
        assert(digits.subrange(0, digits.len() as int) =~= digits);
    }
    Some(value)
}

/// One entry of a mesh file, in the order of the file. The coordinates of a vertex or
/// a normal are kept as the file wrote them; turning them into numbers is the
/// caller's.
#[derive(Debug, PartialEq, Eq)]
pub enum Entry {
    /// A vertex: the texts of its three coordinates.
    Vertex(Vec<u8>, Vec<u8>, Vec<u8>),
    /// A normal: the texts of its three coordinates.
    Normal(Vec<u8>, Vec<u8>, Vec<u8>),
    /// A corner of a face: the index of its vertex and that of its normal.
    Corner(usize, usize),
}

/// What an entry holds.
pub enum Record {
    Vertex(Seq<u8>, Seq<u8>, Seq<u8>),
    Normal(Seq<u8>, Seq<u8>, Seq<u8>),
    Corner(usize, usize),
}

impl View for Entry {
    type V = Record;

    open spec fn view(&self) -> Record {
        match self {
            Entry::Vertex(a, b, c) => Record::Vertex(a@, b@, c@),
            Entry::Normal(a, b, c) => Record::Normal(a@, b@, c@),
            Entry::Corner(v, n) => Record::Corner(*v, *n),
        }
    }
}

/// What a list of entries holds.
pub open spec fn spec_records(entries: Seq<Entry>) -> Seq<Record> {
    Seq::new(entries.len(), |i: int| entries[i]@)
}

/// What a line of a mesh file says.
pub enum Line {
    /// Nothing that matters: an empty line, a comment, or a statement not known.
    Skip,
    /// A vertex, with the texts of its coordinates.
    Vertex(Seq<u8>, Seq<u8>, Seq<u8>),
    /// A normal, with the texts of its coordinates.
    Normal(Seq<u8>, Seq<u8>, Seq<u8>),
    /// A face, with its three corners.
    Face((usize, usize), (usize, usize), (usize, usize)),
    /// A statement that is known and cannot be read.
    Bad,
}

/// The corner that a token of a face stands for: of its parts between slashes, at
/// least three, the first is the index of the vertex and the third that of the normal.
pub open spec fn spec_corner(token: Seq<u8>) -> Option<(usize, usize)> {
    let parts = spec_split(token, 0x2f);
    if parts.len() >= 3 {
        match (spec_index(parts[0]), spec_index(parts[2])) {
            (Some(v), Some(n)) => Some((v, n)),
            _ => None,
        }
    } else {
        None
    }
}

/// What a line says. Its fields lie between single spaces, and the first names the
/// statement: `v` a vertex and `vn` a normal, each with three coordinates; `f` a face
/// with three corners. Fields beyond these are not read.
pub open spec fn spec_line(line: Seq<u8>) -> Line {
    let fields = spec_split(line, 0x20);
    let head = fields[0];
    if line.len() == 0 {
        Line::Skip
    } else if head.len() == 1 && head[0] == 0x76 {
        if fields.len() >= 4 {
            Line::Vertex(fields[1], fields[2], fields[3])
        } else {
            Line::Bad
        }
    } else if head.len() == 2 && head[0] == 0x76 && head[1] == 0x6e {
        if fields.len() >= 4 {
            Line::Normal(fields[1], fields[2], fields[3])
        } else {
            Line::Bad
        }
    } else if head.len() == 1 && head[0] == 0x66 {
        if fields.len() >= 4 {
            match (spec_corner(fields[1]), spec_corner(fields[2]), spec_corner(fields[3])) {
                (Some(a), Some(b), Some(c)) => Line::Face(a, b, c),
                _ => Line::Bad,
            }
        } else {
            Line::Bad
        }
    } else {
        Line::Skip
    }
}

/// What has been read of a mesh file.
pub struct Progress {
    pub records: Seq<Record>,
    /// How many vertices have been read.
    pub vertices: nat,
    /// How many normals have been read.
    pub normals: nat,
}

/// Whether a corner names a vertex and a normal that have been read.
pub open spec fn spec_known(corner: (usize, usize), vertices: nat, normals: nat) -> bool {
    corner.0 <= vertices && corner.1 <= normals
}

/// What the first `n` lines of a file give, none where one of them cannot be read or a
/// face names a vertex or a normal that has not been read before it.
pub open spec fn spec_read(lines: Seq<Seq<u8>>, n: int) -> Option<Progress>
    decreases n,
{
    if n <= 0 {
        Some(Progress { records: Seq::empty(), vertices: 0, normals: 0 })
    } else {
        match spec_read(lines, n - 1) {
            None => None,
            Some(p) => match spec_line(lines[n - 1]) {
                Line::Skip => Some(p),
                Line::Bad => None,
                Line::Vertex(a, b, c) => Some(
                    Progress {
                        records: p.records.push(Record::Vertex(a, b, c)),
                        vertices: p.vertices + 1,
                        normals: p.normals,
                    },
                ),
                Line::Normal(a, b, c) => Some(
                    Progress {
                        records: p.records.push(Record::Normal(a, b, c)),
                        vertices: p.vertices,
                        normals: p.normals + 1,
                    },
                ),
                Line::Face(a, b, c) => if spec_known(a, p.vertices, p.normals) && spec_known(
                    b,
                    p.vertices,
                    p.normals,
                ) && spec_known(c, p.vertices, p.normals) {
                    Some(
                        Progress {
                            records: p.records.push(Record::Corner(a.0, a.1)).push(
                                Record::Corner(b.0, b.1),
                            ).push(Record::Corner(c.0, c.1)),
                            vertices: p.vertices,
                            normals: p.normals,
                        },
                    )
                } else {
                    None
                },
            },
        }
    }
}

/// Once reading has failed it stays failed, however many more lines are read.
proof fn lemma_read_stays_none(lines: Seq<Seq<u8>>, k: int, n: int)
    requires
        0 <= k <= n,
        spec_read(lines, k) is None,
    ensures
        spec_read(lines, n) is None,
    decreases n - k,
{
    if k < n {
        lemma_read_stays_none(lines, k, n - 1);
    }
}

/// How many of the records are vertices.
pub open spec fn spec_count_vertices(records: Seq<Record>) -> nat
    decreases records.len(),
{
    if records.len() == 0 {
        0
    } else {
        spec_count_vertices(records.drop_last()) + (if records.last() is Vertex {
            1nat
        } else {
            0nat
        })
    }
}

/// How many of the records are normals.
pub open spec fn spec_count_normals(records: Seq<Record>) -> nat
    decreases records.len(),
{
    if records.len() == 0 {
        0
    } else {
        spec_count_normals(records.drop_last()) + (if records.last() is Normal {
            1nat
        } else {
            0nat
        })
    }
}

/// Every corner among the records names a vertex and a normal within the given
/// counts.
pub open spec fn spec_corners_known(records: Seq<Record>, vertices: nat, normals: nat) -> bool {
    forall|k: int|
        0 <= k < records.len() ==> ((#[trigger] records[k]) matches Record::Corner(v, n) ==> v
            <= vertices && n <= normals)
}

/// What reading gives is in order: it has counted its vertices and normals, and
/// every corner names a vertex and a normal read before it.
proof fn lemma_read_is_orderly(lines: Seq<Seq<u8>>, n: int)
    requires
        spec_read(lines, n) is Some,
    ensures
        spec_read(lines, n)->0.vertices == spec_count_vertices(spec_read(lines, n)->0.records),
        spec_read(lines, n)->0.normals == spec_count_normals(spec_read(lines, n)->0.records),
        spec_corners_known(
            spec_read(lines, n)->0.records,
            spec_read(lines, n)->0.vertices,
            spec_read(lines, n)->0.normals,
        ),
    decreases n,
{
    if n > 0 {
        lemma_read_is_orderly(lines, n - 1);
        let before = spec_read(lines, n - 1)->0;
        let after = spec_read(lines, n)->0;
        match spec_line(lines[n - 1]) {
            Line::Vertex(a, b, c) => {
                assert(after.records.drop_last() =~= before.records);
                assert forall|k: int| 0 <= k < after.records.len() implies ((
                #[trigger] after.records[k]) matches Record::Corner(v, m) ==> v <= after.vertices
                    && m <= after.normals) by {
                    if k < before.records.len() {
                        assert(after.records[k] == before.records[k]);
                    }
                }
            },
            Line::Normal(a, b, c) => {
                assert(after.records.drop_last() =~= before.records);
                assert forall|k: int| 0 <= k < after.records.len() implies ((
                #[trigger] after.records[k]) matches Record::Corner(v, m) ==> v <= after.vertices
                    && m <= after.normals) by {
                    if k < before.records.len() {
                        assert(after.records[k] == before.records[k]);
                    }
                }
            },
            Line::Face(a, b, c) => {
                let one = before.records.push(Record::Corner(a.0, a.1));
                let two = one.push(Record::Corner(b.0, b.1));
                assert(after.records.drop_last() =~= two);
                assert(two.drop_last() =~= one);
                assert(one.drop_last() =~= before.records);
                assert(spec_count_vertices(one) == spec_count_vertices(before.records));
                assert(spec_count_vertices(two) == spec_count_vertices(one));
                assert(spec_count_normals(one) == spec_count_normals(before.records));
                assert(spec_count_normals(two) == spec_count_normals(one));
                assert forall|k: int| 0 <= k < after.records.len() implies ((
                #[trigger] after.records[k]) matches Record::Corner(v, m) ==> v <= after.vertices
                    && m <= after.normals) by {
                    if k < before.records.len() {
                        assert(after.records[k] == before.records[k]);
                    }
                }
            },
            _ => {},
        }
    }
}

/// A file that can be read can be put together: every corner among its entries names
/// a vertex and a normal that the file holds.
pub proof fn lemma_parsed_corners_are_known(contents: Seq<u8>)
    requires
        spec_parse(contents) is Some,
    ensures
        spec_corners_known(
            spec_parse(contents)->0,
            spec_count_vertices(spec_parse(contents)->0),
            spec_count_normals(spec_parse(contents)->0),
        ),
{
    let lines = spec_split(contents, 0x0a);
    lemma_read_is_orderly(lines, lines.len() as int);
}

/// The entries of a mesh file, line by line.
pub open spec fn spec_parse(contents: Seq<u8>) -> Option<Seq<Record>> {
    let lines = spec_split(contents, 0x0a);
    match spec_read(lines, lines.len() as int) {
        Some(p) => Some(p.records),
        None => None,
    }
}

/// Reads a corner of a face.
pub fn corner(token: &[u8]) -> (r: Option<(usize, usize)>)
    ensures
        r == spec_corner(token@),
{
    let parts: Vec<Vec<u8>> = split(token, 0x2f);
    if parts.len() < 3 {
        return None;
    }
    proof {
        assert(spec_texts(parts@)[0] == parts@[0]@);
        assert(spec_texts(parts@)[2] == parts@[2]@);
    }
    let vertex: Option<usize> = number(parts[0].as_slice());
    let normal: Option<usize> = number(parts[2].as_slice());
    match (vertex, normal) {
        (Some(v), Some(n)) => Some((v, n)),
        _ => None,
    }
}

impl ObjLoader {
    /// Reads the entries of a mesh file: its vertices and normals, with their
    /// coordinates as texts, and the corners of its faces. There is no result where
    /// a line cannot be read or a face names what has not been read before it.
    pub fn parse(contents: &[u8]) -> (r: Option<Vec<Entry>>)
        ensures
            spec_parse(contents@) is None ==> r is None,
            spec_parse(contents@) matches Some(records) ==> r matches Some(entries)
                && spec_records(entries@) == records,
    {
        let lines: Vec<Vec<u8>> = split(contents, 0x0a);
        let mut entries: Vec<Entry> = Vec::new();
        let mut vertices: usize = 0;
        let mut normals: usize = 0;
        let mut i: usize = 0;
        proof {
            assert(spec_records(entries@) =~= Seq::<Record>::empty());
        }
        while i < lines.len()
            invariant
                i <= lines@.len(),
                spec_texts(lines@) == spec_split(contents@, 0x0a),
                spec_read(spec_texts(lines@), i as int) == Some(
                    Progress {
                        records: spec_records(entries@),
                        vertices: vertices as nat,
                        normals: normals as nat,
                    },
                ),
                vertices <= i,
                normals <= i,
            decreases lines@.len() - i,
        {
            let ghost earlier = spec_records(entries@);
            proof {
                assert(spec_texts(lines@)[i as int] == lines@[i as int]@);
            }
            if lines[i].len() > 0 {
                let mut fields: Vec<Vec<u8>> = split(lines[i].as_slice(), 0x20);
                let ghost texts = spec_texts(fields@);
                proof {
                    assert(texts[0] == fields@[0]@);
                }
                let vertex: bool = fields[0].len() == 1 && fields[0][0] == 0x76;
                let normal: bool = fields[0].len() == 2 && fields[0][0] == 0x76 && fields[0][1]
                    == 0x6e;
                let face: bool = fields[0].len() == 1 && fields[0][0] == 0x66;
                if vertex || normal || face {
                    if fields.len() < 4 {
                        proof {
    assert(spec_read(spec_texts(lines@), i as int + 1) is None);
    lemma_read_stays_none(spec_texts(lines@), i as int + 1, lines@.len() as int);
}
return None;
                    }
                    proof {
                        assert(texts[1] == fields@[1]@);
                        assert(texts[2] == fields@[2]@);
                        assert(texts[3] == fields@[3]@);
                    }
                    if face {
                        let a: Option<(usize, usize)> = corner(fields[1].as_slice());
                        let b: Option<(usize, usize)> = corner(fields[2].as_slice());
                        let c: Option<(usize, usize)> = corner(fields[3].as_slice());
                        match (a, b, c) {
                            (Some(a), Some(b), Some(c)) => {
                                if a.0 > vertices || a.1 > normals || b.0 > vertices || b.1
                                    > normals || c.0 > vertices || c.1 > normals {
                                    proof {
    assert(spec_read(spec_texts(lines@), i as int + 1) is None);
    lemma_read_stays_none(spec_texts(lines@), i as int + 1, lines@.len() as int);
}
return None;
                                }
                                entries.push(Entry::Corner(a.0, a.1));
                                entries.push(Entry::Corner(b.0, b.1));
                                entries.push(Entry::Corner(c.0, c.1));
                                proof {
                                    assert(spec_records(entries@) =~= earlier.push(
                                        Record::Corner(a.0, a.1),
                                    ).push(Record::Corner(b.0, b.1)).push(
                                        Record::Corner(c.0, c.1),
                                    ));
                                }
                            },
                            _ => {
                                proof {
    assert(spec_read(spec_texts(lines@), i as int + 1) is None);
    lemma_read_stays_none(spec_texts(lines@), i as int + 1, lines@.len() as int);
}
return None;
                            },
                        }
                    } else {
                        fields.truncate(4);
                        let z: Vec<u8> = fields.pop().unwrap();
                        let y: Vec<u8> = fields.pop().unwrap();
                        let x: Vec<u8> = fields.pop().unwrap();
                        if vertex {
                            entries.push(Entry::Vertex(x, y, z));
                            vertices = vertices + 1;
                            proof {
                                assert(spec_records(entries@) =~= earlier.push(
                                    Record::Vertex(texts[1], texts[2], texts[3]),
                                ));
                            }
                        } else {
                            entries.push(Entry::Normal(x, y, z));
                            normals = normals + 1;
                            proof {
                                assert(spec_records(entries@) =~= earlier.push(
                                    Record::Normal(texts[1], texts[2], texts[3]),
                                ));
                            }
                        }
                    }
                }
            }
            i = i + 1;
        }
        Some(entries)
    }

    /// Resolves the corners of the faces: each corner names a vertex and a normal by
    /// index, and becomes the pair of the two. Succeeds exactly when every index lies
    /// within its table.
    pub fn assemble(vertices: &Vec<Vec3>, normals: &Vec<Vec3>, corners: &Vec<(usize, usize)>) -> (r:
        Option<Obj>)
        ensures
            r is Some <==> spec_resolvable(vertices@, normals@, corners@),
            r matches Some(obj) ==> obj.faces@.len() == corners@.len() && forall|i: int|
                0 <= i < corners@.len() ==> #[trigger] obj.faces@[i] == (
                    spec_entry(vertices@, corners@[i].0 as int),
                    spec_entry(normals@, corners@[i].1 as int),
                ),
    {
        let mut faces: Vec<(Vec3, Vec3)> = Vec::new();
        let mut i: usize = 0;
        while i < corners.len()
            invariant
                i <= corners@.len(),
                faces@.len() == i,
                forall|j: int|
                    0 <= j < i ==> (#[trigger] corners@[j]).0 <= vertices@.len() && corners@[j].1
                        <= normals@.len(),
                forall|j: int|
                    0 <= j < i ==> #[trigger] faces@[j] == (
                        spec_entry(vertices@, corners@[j].0 as int),
                        spec_entry(normals@, corners@[j].1 as int),
                    ),
            decreases corners@.len() - i,
        {
            let (vertex_index, normal_index) = corners[i];
            if vertex_index > vertices.len() || normal_index > normals.len() {
                return None;
            }
            let vertex: Vec3 = if vertex_index == 0 {
                Vec3::zeros()
            } else {
                vertices[vertex_index - 1]
            };
            let normal: Vec3 = if normal_index == 0 {
                Vec3::zeros()
            } else {
                normals[normal_index - 1]
            };
            faces.push((vertex, normal));
            i = i + 1;
        }
        Some(Obj { faces })
    }
}

} // verus!

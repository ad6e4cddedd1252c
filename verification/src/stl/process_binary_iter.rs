//! The binary encoding: an 80-byte header, a little-endian 32-bit triangle
//! count, then for each triangle a 12-byte normal, three vertices of three
//! little-endian 32-bit words each, and a 2-byte attribute count.

use crate::stl::VertexError;
use vstd::prelude::*;
use vstd::slice::slice_subrange;

verus! {

/// Length of the header that precedes the triangle count.
pub const HEADER_LEN: u64 = 80;

/// Length of the normal vector that opens each triangle record.
pub const NORMAL_LEN: u64 = 12;

/// Length of the attribute count that closes each triangle record.
pub const ATTRIBUTE_LEN: u64 = 2;

/// Length of one coordinate.
pub const WORD_LEN: u64 = 4;

/// The little-endian 32-bit word that starts at byte `at`.
pub open spec fn word_at(data: Seq<u8>, at: int) -> u32
    recommends
        0 <= at,
        at + 4 <= data.len(),
{
    (data[at] as int + 256 * (data[at + 1] as int) + 65536 * (data[at + 2] as int) + 16777216 * (
    data[at + 3] as int)) as u32
}

/// Whether the header and the triangle count are all there.
pub open spec fn header_readable(data: Seq<u8>) -> bool {
    data.len() >= 84
}

/// The number of triangles that the file declares.
pub open spec fn declared_triangles(data: Seq<u8>) -> int {
    if header_readable(data) {
        word_at(data, 80) as int
    } else {
        0
    }
}

/// Where vertex number `k` of the file starts, counting vertices from 0
/// through all triangles: each triangle record takes 50 bytes.
pub open spec fn vertex_offset(k: int) -> int {
    84 + 50 * (k / 3) + 12 + 12 * (k % 3)
}

/// Whether the twelve bytes of vertex number `k` are all there.
pub open spec fn vertex_readable(data: Seq<u8>, k: int) -> bool {
    vertex_offset(k) + 12 <= data.len()
}

/// The coordinates of vertex number `k`, as single-precision bit patterns.
pub open spec fn vertex_at(data: Seq<u8>, k: int) -> [u32; 3] {
    let at = vertex_offset(k);
    [word_at(data, at), word_at(data, at + 4), word_at(data, at + 8)]
}

/// Item number `k` of the vertex sequence of a file. The vertices come in
/// file order. The first one that is cut short is a failure and the last
/// item; so is a header that is cut short.
pub open spec fn item_at(data: Seq<u8>, k: int) -> Option<Result<[u32; 3], VertexError>> {
    if k < 0 {
        None
    } else if !header_readable(data) {
        if k == 0 {
            Some(Err(VertexError::UnexpectedEof))
        } else {
            None
        }
    } else if k >= 3 * declared_triangles(data) {
        None
    } else if vertex_readable(data, k) {
        Some(Ok(vertex_at(data, k)))
    } else if k == 0 || vertex_readable(data, k - 1) {
        Some(Err(VertexError::UnexpectedEof))
    } else {
        None
    }
}

/// Where the cursor of a pass stands before it reads the given vertex of the
/// given triangle: before the normal for the first vertex of a triangle,
/// right after the vertex before for the others.
pub open spec fn cursor_before(triangle: int, vertex: int) -> int {
    if vertex == 0 {
        84 + 50 * triangle
    } else {
        84 + 50 * triangle + 12 + 12 * vertex
    }
}

/// Reads the little-endian 32-bit word at `at`, if its four bytes are there.
fn read_word(data: &Vec<u8>, at: u64) -> (word: Option<u32>)
    requires
        at <= 0xffff_ffff_ffff,
    ensures
        at + 4 <= data@.len() ==> word == Some(word_at(data@, at as int)),
        at + 4 > data@.len() ==> word.is_none(),
{
    let len: u64 = data.len() as u64;
    if at + WORD_LEN > len {
        return None;
    }
    let start: usize = at as usize;
    let b0: u32 = data[start] as u32;
    let b1: u32 = data[start + 1] as u32;
    let b2: u32 = data[start + 2] as u32;
    let b3: u32 = data[start + 3] as u32;
    Some(b0 + 256 * b1 + 65536 * b2 + 16777216 * b3)
}

/// A forward-only pass over the vertices of a binary file.
pub struct BinaryVertexIterator {
    data: Vec<u8>,
    triangle_count: u64,
    current_triangle: u64,
    current_vertex: u64,
    cursor: u64,
    error: Option<VertexError>,
    ended: bool,
}

impl BinaryVertexIterator {
    /// The bytes that this pass reads.
    pub closed spec fn source(&self) -> Seq<u8> {
        self.data@
    }

    /// How many items this pass has handed out.
    pub closed spec fn position(&self) -> int {
        3 * self.current_triangle + self.current_vertex + if self.ended {
            1int
        } else {
            0int
        }
    }

    /// The invariant of a pass: the counters and the cursor agree with the
    /// framing, and everything before the position could be read.
    pub closed spec fn well_formed(&self) -> bool {
        let k = 3 * self.current_triangle + self.current_vertex;
        if header_readable(self.data@) {
            &&& self.error.is_none()
            &&& self.triangle_count == declared_triangles(self.data@)
            &&& self.current_triangle <= self.triangle_count
            &&& self.current_vertex < 3
            &&& self.current_triangle == self.triangle_count ==> self.current_vertex == 0
            &&& k > 0 ==> vertex_readable(self.data@, k - 1)
            &&& self.ended ==> k < 3 * self.triangle_count && !vertex_readable(self.data@, k)
            &&& !self.ended ==> self.cursor == cursor_before(
                self.current_triangle as int,
                self.current_vertex as int,
            )
        } else {
            &&& self.triangle_count == 0
            &&& self.current_triangle == 0
            &&& self.current_vertex == 0
            &&& self.error.is_some() <==> !self.ended
            &&& self.error.is_some() ==> self.error == Some(VertexError::UnexpectedEof)
        }
    }

    /// Skips the header and reads the triangle count.
    fn read_header(data: &Vec<u8>) -> (count: Result<u64, VertexError>)
        ensures
            header_readable(data@) ==> count == Ok::<u64, VertexError>(
                declared_triangles(data@) as u64,
            ),
            !header_readable(data@) ==> count == Err::<u64, VertexError>(
                VertexError::UnexpectedEof,
            ),
    {
        match read_word(data, HEADER_LEN) {
            Some(word) => Ok(word as u64),
            None => Err(VertexError::UnexpectedEof),
        }
    }

    /// Starts a pass over `data`. A header that is cut short is reported by
    /// the first call of `next`.
    pub fn new(data: Vec<u8>) -> (iter: Self)
        ensures
            iter.well_formed(),
            iter.source() == data@,
            iter.position() == 0,
    {
        let (triangle_count, error) = match Self::read_header(&data) {
            Ok(count) => (count, None),
            Err(e) => (0, Some(e)),
        };
        BinaryVertexIterator {
            data,
            triangle_count,
            current_triangle: 0,
            current_vertex: 0,
            cursor: HEADER_LEN + WORD_LEN,
            error,
            ended: false,
        }
    }

    /// Hands out the next item: a vertex, the failure that ends the pass, or
    /// `None` once the pass is over.
    pub fn next(&mut self) -> (item: Option<Result<[u32; 3], VertexError>>)
        requires
            old(self).well_formed(),
        ensures
            final(self).well_formed(),
            final(self).source() == old(self).source(),
            item == item_at(old(self).source(), old(self).position()),
            final(self).position() == old(self).position() + if item.is_some() {
                1int
            } else {
                0int
            },
    {
        match self.error {
            Some(e) => {
                self.error = None;
                self.ended = true;
                return Some(Err(e));
            },
            None => {},
        }
        if self.ended {
            return None;
        }
        if self.current_triangle >= self.triangle_count {
            return None;
        }
        let ghost k: int = 3 * self.current_triangle + self.current_vertex;
        let mut at: u64 = self.cursor;
        if self.current_vertex == 0 {
            at = at + NORMAL_LEN;
        }
        assert(at == vertex_offset(k));
        let x: u32 = match read_word(&self.data, at) {
            Some(word) => word,
            None => {
                self.ended = true;
                return Some(Err(VertexError::UnexpectedEof));
            },
        };
        let y: u32 = match read_word(&self.data, at + WORD_LEN) {
            Some(word) => word,
            None => {
                self.ended = true;
                return Some(Err(VertexError::UnexpectedEof));
            },
        };
        let z: u32 = match read_word(&self.data, at + 2 * WORD_LEN) {
            Some(word) => word,
            None => {
                self.ended = true;
                return Some(Err(VertexError::UnexpectedEof));
            },
        };
        at = at + 3 * WORD_LEN;
        if self.current_vertex + 1 >= 3 {
            self.current_vertex = 0;
            self.current_triangle = self.current_triangle + 1;
            at = at + ATTRIBUTE_LEN;
        } else {
            self.current_vertex = self.current_vertex + 1;
        }
        self.cursor = at;
        Some(Ok([x, y, z]))
    }
}

/// Starts a pass over the vertices of a file in binary encoding.
pub fn process_binary_iter(data: Vec<u8>) -> (iter: BinaryVertexIterator)
    ensures
        iter.well_formed(),
        iter.source() == data@,
        iter.position() == 0,
{
    BinaryVertexIterator::new(data)
}

/// What a pass over an input that is read piece by piece asks for next:
/// to skip `skip` bytes from where the last piece ended, then to read `take`
/// bytes.
#[derive(Clone, Copy, Debug, PartialEq, Eq, Structural)]
pub struct ReadStep {
    pub skip: u64,
    pub take: u64,
}

/// The three coordinates that the twelve bytes of a vertex hold.
pub open spec fn vertex_of(bytes: Seq<u8>) -> [u32; 3] {
    [word_at(bytes, 0), word_at(bytes, 4), word_at(bytes, 8)]
}

/// Decodes the little-endian 32-bit word at `at`.
fn word_of(bytes: &[u8], at: usize) -> (word: u32)
    requires
        at + 4 <= bytes@.len(),
    ensures
        word == word_at(bytes@, at as int),
{
    let b0: u32 = bytes[at] as u32;
    let b1: u32 = bytes[at + 1] as u32;
    let b2: u32 = bytes[at + 2] as u32;
    let b3: u32 = bytes[at + 3] as u32;
    b0 + 256 * b1 + 65536 * b2 + 16777216 * b3
}

/// The framing of a binary file as a machine that is fed the file piece by
/// piece, so that a file need not be held in memory: it says which bytes it
/// needs next, and makes of each piece the next item of the sequence.
#[derive(Debug)]
pub struct BinaryFraming {
    header_read: bool,
    triangle_count: u64,
    current_triangle: u64,
    current_vertex: u64,
    ended: bool,
}

impl BinaryFraming {
    /// The invariant of the machine.
    pub closed spec fn well_formed(&self) -> bool {
        &&& self.triangle_count <= u32::MAX
        &&& self.current_triangle <= self.triangle_count
        &&& self.current_vertex < 3
        &&& self.current_triangle == self.triangle_count ==> self.current_vertex == 0
        &&& !self.header_read ==> self.triangle_count == 0
    }

    /// Whether the triangle count has been read.
    pub closed spec fn header_known(&self) -> bool {
        self.header_read
    }

    /// The triangle count, once it has been read.
    pub closed spec fn triangles(&self) -> int {
        self.triangle_count as int
    }

    /// Whether a piece was cut short, which ends the pass.
    pub closed spec fn failed(&self) -> bool {
        self.ended
    }

    /// How many vertices have been read.
    pub closed spec fn vertices_read(&self) -> int {
        3 * self.current_triangle + self.current_vertex
    }

    /// Where in the file the last piece ended.
    pub open spec fn cursor(&self) -> int {
        if !self.header_known() {
            0
        } else if self.vertices_read() == 0 {
            84
        } else {
            vertex_offset(self.vertices_read() - 1) + 12
        }
    }

    /// What the machine asks for next: the triangle count behind the
    /// header, then vertex after vertex, each behind what lies between it
    /// and the vertex before; nothing after a failure or the last vertex.
    pub open spec fn next_step(&self) -> Option<ReadStep> {
        if self.failed() {
            None
        } else if !self.header_known() {
            Some(ReadStep { skip: 80, take: 4 })
        } else if self.vertices_read() >= 3 * self.triangles() {
            None
        } else {
            Some(
                ReadStep {
                    skip: (vertex_offset(self.vertices_read()) - self.cursor()) as u64,
                    take: 12,
                },
            )
        }
    }

    /// The machine before the first piece.
    pub fn new() -> (framing: Self)
        ensures
            framing.well_formed(),
            !framing.header_known(),
            !framing.failed(),
            framing.vertices_read() == 0,
    {
        BinaryFraming {
            header_read: false,
            triangle_count: 0,
            current_triangle: 0,
            current_vertex: 0,
            ended: false,
        }
    }

    /// Says which bytes the machine needs next, or `None` when the pass is
    /// over.
    pub fn step(&self) -> (step: Option<ReadStep>)
        requires
            self.well_formed(),
        ensures
            step == self.next_step(),
            step matches Some(asked) ==> asked.skip <= 80 && (asked.take == 4 || asked.take == 12),
            step matches Some(asked) ==> self.header_known() ==> self.cursor() + asked.skip
                == vertex_offset(self.vertices_read()),
    {
        if self.ended {
            None
        } else if !self.header_read {
            Some(ReadStep { skip: HEADER_LEN, take: WORD_LEN })
        } else if self.current_triangle >= self.triangle_count {
            None
        } else if self.current_vertex == 0 {
            if self.current_triangle == 0 {
                Some(ReadStep { skip: NORMAL_LEN, take: 3 * WORD_LEN })
            } else {
                Some(ReadStep { skip: ATTRIBUTE_LEN + NORMAL_LEN, take: 3 * WORD_LEN })
            }
        } else {
            Some(ReadStep { skip: 0, take: 3 * WORD_LEN })
        }
    }

    /// Takes the piece that was read for the last step: all the bytes that
    /// the step asked for, or fewer when the input ended before. A piece
    /// that holds the triangle count yields no item; a piece that holds a
    /// vertex yields the vertex; a piece that was cut short yields the
    /// failure that ends the pass.
    pub fn accept(&mut self, piece: &[u8]) -> (item: Option<Result<[u32; 3], VertexError>>)
        requires
            old(self).well_formed(),
            old(self).next_step().is_some(),
        ensures
            final(self).well_formed(),
            piece@.len() != old(self).next_step().unwrap().take ==> {
                &&& item == Some(Err::<[u32; 3], VertexError>(VertexError::UnexpectedEof))
                &&& final(self).failed()
                &&& final(self).header_known() == old(self).header_known()
                &&& final(self).triangles() == old(self).triangles()
                &&& final(self).vertices_read() == old(self).vertices_read()
            },
            piece@.len() == old(self).next_step().unwrap().take && !old(self).header_known() ==> {
                &&& item.is_none()
                &&& !final(self).failed()
                &&& final(self).header_known()
                &&& final(self).triangles() == word_at(piece@, 0)
                &&& final(self).vertices_read() == 0
            },
            piece@.len() == old(self).next_step().unwrap().take && old(self).header_known() ==> {
                &&& item == Some(Ok::<[u32; 3], VertexError>(vertex_of(piece@)))
                &&& !final(self).failed()
                &&& final(self).header_known()
                &&& final(self).triangles() == old(self).triangles()
                &&& final(self).vertices_read() == old(self).vertices_read() + 1
            },
    {
        if !self.header_read {
            if piece.len() != 4 {
                self.ended = true;
                return Some(Err(VertexError::UnexpectedEof));
            }
            self.triangle_count = word_of(piece, 0) as u64;
            self.header_read = true;
            return None;
        }
        if piece.len() != 12 {
            self.ended = true;
            return Some(Err(VertexError::UnexpectedEof));
        }
        let x: u32 = word_of(piece, 0);
        let y: u32 = word_of(piece, 4);
        let z: u32 = word_of(piece, 8);
        if self.current_vertex + 1 >= 3 {
            self.current_vertex = 0;
            self.current_triangle = self.current_triangle + 1;
        } else {
            self.current_vertex = self.current_vertex + 1;
        }
        Some(Ok([x, y, z]))
    }
}

/// The piece that an input holding `data` yields for a step taken at
/// `cursor`: the bytes asked for if they are all there, and fewer otherwise.
fn read_piece(data: &[u8], cursor: u64, step: ReadStep) -> (piece: &[u8])
    requires
        cursor <= 0xffff_ffff_ffff,
        step.skip <= 80,
        0 < step.take <= 12,
    ensures
        cursor + step.skip + step.take <= data@.len() ==> piece@ == data@.subrange(
            cursor + step.skip,
            cursor + step.skip + step.take,
        ),
        cursor + step.skip + step.take > data@.len() ==> piece@.len() < step.take,
{
    let len: u64 = data.len() as u64;
    let start: u64 = cursor + step.skip;
    if start + step.take > len {
        slice_subrange(data, 0, 0)
    } else {
        slice_subrange(data, start as usize, (start + step.take) as usize)
    }
}

/// The vertex in a piece taken from a file is the vertex of the file there.
proof fn lemma_piece_is_vertex(data: Seq<u8>, k: int)
    requires
        0 <= k,
        vertex_readable(data, k),
    ensures
        vertex_of(data.subrange(vertex_offset(k), vertex_offset(k) + 12)) == vertex_at(data, k),
{
    let at = vertex_offset(k);
    let piece = data.subrange(at, at + 12);
    assert forall|i: int| 0 <= i < 12 implies piece[i] == data[at + i] by {}
    assert(word_at(piece, 0) == word_at(data, at));
    assert(word_at(piece, 4) == word_at(data, at + 4));
    assert(word_at(piece, 8) == word_at(data, at + 8));
}

/// Runs the framing machine over `data` as over a file that is read piece
/// by piece, and returns every item, in order: the same sequence as a pass
/// over the bytes in memory.
pub fn read_binary_vertices_in_steps(data: &[u8]) -> (items: Vec<Result<[u32; 3], VertexError>>)
    ensures
        forall|k: int| 0 <= k < items@.len() ==> item_at(data@, k) == Some(#[trigger] items@[k]),
        item_at(data@, items@.len() as int).is_none(),
{
    let mut framing = BinaryFraming::new();
    let mut items: Vec<Result<[u32; 3], VertexError>> = Vec::new();
    let mut cursor: u64 = 0;
    loop
        invariant
            framing.well_formed(),
            framing.header_known() ==> header_readable(data@) && framing.triangles()
                == declared_triangles(data@),
            framing.failed() && !framing.header_known() ==> !header_readable(data@) && items@.len()
                == 1,
            !framing.failed() && !framing.header_known() ==> items@.len() == 0,
            framing.header_known() ==> items@.len() == framing.vertices_read()
                + if framing.failed() {
                1int
            } else {
                0int
            },
            framing.header_known() ==> framing.vertices_read() <= 3 * framing.triangles(),
            framing.header_known() && framing.failed() ==> framing.vertices_read() < 3
                * framing.triangles() && !vertex_readable(data@, framing.vertices_read()),
            framing.header_known() && framing.vertices_read() > 0 ==> vertex_readable(
                data@,
                framing.vertices_read() - 1,
            ),
            !framing.failed() ==> cursor == framing.cursor(),
            forall|k: int|
                0 <= k < items@.len() ==> item_at(data@, k) == Some(#[trigger] items@[k]),
        decreases
                if framing.failed() {
                    0int
                } else if !framing.header_known() {
                    3 * 0x1_0000_0000int + 2
                } else {
                    3 * framing.triangles() - framing.vertices_read() + 1
                },
    {
        let step: ReadStep = match framing.step() {
            Some(step) => step,
            None => {
                return items;
            },
        };
        let ghost known = framing.header_known();
        let ghost k = framing.vertices_read();
        assert(cursor <= 84 + 50 * 0x1_0000_0000);
        let piece: &[u8] = read_piece(data, cursor, step);
        proof {
            if known && piece@.len() == 12 {
                lemma_piece_is_vertex(data@, k);
            }
        }
        cursor = cursor + step.skip + step.take;
        match framing.accept(piece) {
            Some(item) => {
                items.push(item);
            },
            None => {},
        }
    }
}

/// Runs a pass over `data` to its end and returns every item, in order.
pub fn read_binary_vertices(data: Vec<u8>) -> (items: Vec<Result<[u32; 3], VertexError>>)
    ensures
        forall|k: int| 0 <= k < items@.len() ==> item_at(data@, k) == Some(#[trigger] items@[k]),
        item_at(data@, items@.len() as int).is_none(),
{
    let ghost source = data@;
    let mut iter = BinaryVertexIterator::new(data);
    let mut items: Vec<Result<[u32; 3], VertexError>> = Vec::new();
    loop
        invariant
            source == data@,
            iter.well_formed(),
            iter.source() == source,
            iter.position() == items@.len(),
            forall|k: int|
                0 <= k < items@.len() ==> item_at(source, k) == Some(#[trigger] items@[k]),
        decreases 3 * declared_triangles(source) + 1 - iter.position(),
    {
        match iter.next() {
            Some(item) => {
                items.push(item);
            },
            None => {
                return items;
            },
        }
    }
}

/// A file that holds every triangle record it declares yields three vertices
/// for each triangle, in file order, then ends without a failure.
pub proof fn lemma_complete_file_yields_every_vertex(data: Seq<u8>)
    requires
        header_readable(data),
        data.len() >= 84 + 50 * declared_triangles(data),
    ensures
        forall|k: int|
            0 <= k < 3 * declared_triangles(data) ==> #[trigger] item_at(data, k) == Some(
                Ok::<[u32; 3], VertexError>(vertex_at(data, k)),
            ),
        forall|k: int|
            k >= 3 * declared_triangles(data) ==> (#[trigger] item_at(data, k)).is_none(),
{
}

/// A file that is cut off after the triangle count, before the first vertex
/// is complete, yields one failure and nothing else.
pub proof fn lemma_truncated_file_fails_once(data: Seq<u8>)
    requires
        header_readable(data),
        declared_triangles(data) > 0,
        !vertex_readable(data, 0),
    ensures
        item_at(data, 0) == Some(Err::<[u32; 3], VertexError>(VertexError::UnexpectedEof)),
        forall|k: int| k != 0 ==> (#[trigger] item_at(data, k)).is_none(),
{
}

/// Whatever the input, a failure is the last item, and nothing follows the
/// end of the sequence.
pub proof fn lemma_failure_ends_the_sequence(data: Seq<u8>, k: int, j: int)
    requires
        0 <= k < j,
        item_at(data, k).is_none() || item_at(data, k) == Some(
            Err::<[u32; 3], VertexError>(VertexError::UnexpectedEof),
        ),
    ensures
        item_at(data, j).is_none(),
{
}

} // verus!

//! Block meshes and the file format that they are stored in.
//!
//! Floating point numbers are held by their bit patterns.
use vstd::prelude::*;

use crate::bytes;
use crate::picture;

verus! {

/// The bit patterns of two floats.
#[derive(Clone, Copy, Debug, PartialEq, Eq, Structural)]
pub struct Bits2 {
    pub x: u32,
    pub y: u32,
}

/// The bit patterns of three floats.
#[derive(Clone, Copy, Debug, PartialEq, Eq, Structural)]
pub struct Bits3 {
    pub x: u32,
    pub y: u32,
    pub z: u32,
}

/// The bit patterns of four floats.
#[derive(Clone, Copy, Debug, PartialEq, Eq, Structural)]
pub struct Bits4 {
    pub x: u32,
    pub y: u32,
    pub z: u32,
    pub w: u32,
}

/// A vertex of a mesh.
#[derive(Clone, Copy, Debug, PartialEq, Eq, Structural)]
pub struct Vertex {
    pub position: Bits3,
    pub normal: Bits3,
    pub uv: Bits2,
}

/// A list of triangles over shared vertices.
pub struct BlockMesh {
    pub positions: Vec<Bits3>,
    pub normals: Vec<Bits3>,
    pub uvs: Vec<Bits2>,
    pub tangents: Option<Vec<Bits4>>,
    pub indices: Vec<u32>,
}

/// The corners of the two triangles of a cell, by the vertex in its upper left corner: the upper
/// left triangle first, both in one turning sense.
pub open spec fn cell_corner(width: int, corner: int, k: int) -> int {
    if k == 0 {
        corner
    } else if k == 1 || k == 4 {
        corner + width
    } else if k == 2 || k == 3 {
        corner + 1
    } else {
        corner + width + 1
    }
}

/// Entry `i` of the index list of a grid that is `width` vertices wide.
pub open spec fn grid_index(width: int, i: int) -> int {
    let cell = i / 6;
    cell_corner(
        width,
        picture::cell_index(width, cell % (width - 1), cell / (width - 1)),
        i % 6,
    )
}

/// The triangles of a grid of `width` by `height` vertices: two for each cell, row by row.
pub fn grid_indices(width: u32, height: u32) -> (out: Vec<u32>)
    requires
        1 <= height,
        1 <= width || height == 1,
        width * height <= 0x1_0000_0000,
    ensures
        out@.len() == 6 * ((width - 1) * (height - 1)),
        forall|i: int| 0 <= i < out@.len() ==> #[trigger] out@[i] == grid_index(width as int, i),
{
    let mut out: Vec<u32> = Vec::new();
    assert(0 * (width - 1) == 0) by (nonlinear_arith);
    for y in 0u32..height - 1
        invariant
            1 <= height,
            1 <= width || height == 1,
            width * height <= 0x1_0000_0000,
            out@.len() == 6 * (y * (width - 1)),
            forall|i: int|
                0 <= i < out@.len() ==> #[trigger] out@[i] == grid_index(width as int, i),
    {
        for x in 0u32..width - 1
            invariant
                1 <= width,
                y < height - 1,
                width * height <= 0x1_0000_0000,
                out@.len() == 6 * (y * (width - 1) + x),
                forall|i: int|
                    0 <= i < out@.len() ==> #[trigger] out@[i] == grid_index(width as int, i),
        {
            let ghost cell = y * (width - 1) + x;
            proof {
                picture::lemma_cell_in_grid(width as int, height as int, x + 1, y + 1);
                picture::lemma_cell_in_grid(width as int, height as int, x as int, y as int);
                picture::lemma_cell_in_grid(width - 1, height - 1, x as int, y as int);
                assert((y + 1) * width == y * width + width) by (nonlinear_arith);
                vstd::arithmetic::div_mod::lemma_fundamental_div_mod_converse(
                    cell,
                    width - 1,
                    y as int,
                    x as int,
                );
            }
            let i: u32 = y * width + x;
            out.push(i);
            out.push(i + width);
            out.push(i + 1);
            out.push(i + 1);
            out.push(i + width);
            out.push(i + width + 1);
        }
        assert((y + 1) * (width - 1) == y * (width - 1) + (width - 1)) by (nonlinear_arith);
    }
    assert((height - 1) * (width - 1) == (width - 1) * (height - 1)) by (nonlinear_arith);
    out
}

/// Builds the mesh of a grid of `width` by `height` vertices, row by row. The mesh has no tangents
/// yet.
pub fn generate_mesh<F: Fn(u32, u32) -> Vertex>(width: u32, height: u32, vertex: &F) -> (out:
    BlockMesh)
    requires
        1 <= height,
        1 <= width || height == 1,
        width * height <= 0x1_0000_0000,
        width * height <= usize::MAX,
        forall|x: u32, y: u32| x < width && y < height ==> call_requires(*vertex, (x, y)),
    ensures
        out.positions@.len() == width * height,
        out.normals@.len() == width * height,
        out.uvs@.len() == width * height,
        out.tangents is None,
        forall|x: u32, y: u32|
            #![trigger picture::cell(out.positions@, width as int, x as int, y as int)]
            x < width && y < height ==> call_ensures(
                *vertex,
                (x, y),
                Vertex {
                    position: picture::cell(out.positions@, width as int, x as int, y as int),
                    normal: picture::cell(out.normals@, width as int, x as int, y as int),
                    uv: picture::cell(out.uvs@, width as int, x as int, y as int),
                },
            ),
        out.indices@.len() == 6 * ((width - 1) * (height - 1)),
        forall|i: int|
            0 <= i < out.indices@.len() ==> #[trigger] out.indices@[i] == grid_index(
                width as int,
                i,
            ),
        out.is_complete() <==> width * height <= u32::MAX && out.indices@.len() <= u32::MAX,
{
    let mut positions: Vec<Bits3> = Vec::new();
    let mut normals: Vec<Bits3> = Vec::new();
    let mut uvs: Vec<Bits2> = Vec::new();
    let count: usize = width as usize * height as usize;
    for i in 0usize..count
        invariant
            count == width * height,
            forall|x: u32, y: u32| x < width && y < height ==> call_requires(*vertex, (x, y)),
            positions@.len() == i,
            normals@.len() == i,
            uvs@.len() == i,
            forall|k: int|
                #![trigger positions@[k]]
                0 <= k < i ==> call_ensures(
                    *vertex,
                    ((k % width as int) as u32, (k / width as int) as u32),
                    Vertex { position: positions@[k], normal: normals@[k], uv: uvs@[k] },
                ),
    {
        proof {
            picture::lemma_cell_of_index(width as int, height as int, i as int);
        }
        let x: u32 = (i % width as usize) as u32;
        let y: u32 = (i / width as usize) as u32;
        let v = vertex(x, y);
        positions.push(v.position);
        normals.push(v.normal);
        uvs.push(v.uv);
    }
    assert forall|x: u32, y: u32|
        #![trigger picture::cell(positions@, width as int, x as int, y as int)]
        x < width && y < height implies call_ensures(
        *vertex,
        (x, y),
        Vertex {
            position: picture::cell(positions@, width as int, x as int, y as int),
            normal: picture::cell(normals@, width as int, x as int, y as int),
            uv: picture::cell(uvs@, width as int, x as int, y as int),
        },
    ) by {
        let k = picture::cell_index(width as int, x as int, y as int);
        picture::lemma_cell_in_grid(width as int, height as int, x as int, y as int);
        picture::lemma_cell_of_index(width as int, height as int, k);
        picture::lemma_cell_injective(
            width as int,
            x as int,
            y as int,
            k % width as int,
            k / width as int,
        );
        let _ = positions@[k];
    }
    let indices = grid_indices(width, height);
    BlockMesh { positions, normals, uvs, tangents: None, indices }
}

/// The coordinates of a list of pairs, one after another.
pub open spec fn flat2(list: Seq<Bits2>) -> Seq<u32> {
    Seq::new(
        2 * list.len(),
        |i: int|
            if i % 2 == 0 {
                list[i / 2].x
            } else {
                list[i / 2].y
            },
    )
}

/// The coordinates of a list of triples, one after another.
pub open spec fn flat3(list: Seq<Bits3>) -> Seq<u32> {
    Seq::new(
        3 * list.len(),
        |i: int|
            if i % 3 == 0 {
                list[i / 3].x
            } else if i % 3 == 1 {
                list[i / 3].y
            } else {
                list[i / 3].z
            },
    )
}

/// The coordinates of a list of quadruples, one after another.
pub open spec fn flat4(list: Seq<Bits4>) -> Seq<u32> {
    Seq::new(
        4 * list.len(),
        |i: int|
            if i % 4 == 0 {
                list[i / 4].x
            } else if i % 4 == 1 {
                list[i / 4].y
            } else if i % 4 == 2 {
                list[i / 4].z
            } else {
                list[i / 4].w
            },
    )
}

/// The flag that says whether tangents follow, and the tangents if they do.
pub open spec fn tangent_words(tangents: Option<Vec<Bits4>>) -> Seq<u32> {
    match tangents {
        Some(list) => seq![1u32] + flat4(list@),
        None => seq![0u32],
    }
}

impl BlockMesh {
    /// The words of the mesh file. Counts are cut to thirty-two bits.
    pub open spec fn words(&self) -> Seq<u32> {
        seq![#[verifier::truncate] (self.positions@.len() as u32)] + flat3(self.positions@) + flat3(
            self.normals@,
        ) + flat2(self.uvs@) + tangent_words(self.tangents) + seq![
            #[verifier::truncate] (self.indices@.len() as u32),
        ] + self.indices@
    }

    /// Every vertex has all attributes, and both counts fit in a word.
    pub open spec fn is_complete(&self) -> bool {
        &&& self.positions@.len() <= u32::MAX
        &&& self.normals@.len() == self.positions@.len()
        &&& self.uvs@.len() == self.positions@.len()
        &&& self.tangents matches Some(list) ==> list@.len() == self.positions@.len()
        &&& self.indices@.len() <= u32::MAX
    }
}

/// Byte `k` of a word, counted from the low end.
pub open spec fn byte_of(word: u32, k: int) -> u8 {
    if k == 0 {
        (word as int % 256) as u8
    } else if k == 1 {
        (word as int / 256 % 256) as u8
    } else if k == 2 {
        (word as int / 65536 % 256) as u8
    } else {
        (word as int / 16777216) as u8
    }
}

/// The bytes of a list of words, each with its low end first.
pub open spec fn word_bytes(words: Seq<u32>) -> Seq<u8> {
    Seq::new(4 * words.len(), |i: int| byte_of(words[i / 4], i % 4))
}

/// The bytes of two lists in a row are the bytes of the one followed by those of the other.
proof fn lemma_word_bytes_concat(a: Seq<u32>, b: Seq<u32>)
    ensures
        word_bytes(a + b) == word_bytes(a) + word_bytes(b),
{
    assert(word_bytes(a + b) =~= word_bytes(a) + word_bytes(b)) by {
        assert forall|i: int| 0 <= i < 4 * (a.len() + b.len()) implies word_bytes(a + b)[i] == (
        word_bytes(a) + word_bytes(b))[i] by {
            if i >= 4 * a.len() {
                assert((a + b)[i / 4] == b[(i - 4 * a.len()) / 4]);
            }
        }
    }
}

/// Appends a word, low end first.
fn push_word(out: &mut Vec<u8>, word: u32)
    ensures
        final(out)@ == old(out)@ + word_bytes(seq![word]),
{
    out.push((word % 256) as u8);
    out.push((word / 256 % 256) as u8);
    out.push((word / 65536 % 256) as u8);
    out.push((word / 16777216) as u8);
    assert(out@ =~= old(out)@ + word_bytes(seq![word]));
}

/// Appends a list of words.
fn push_words(out: &mut Vec<u8>, words: &Vec<u32>)
    ensures
        final(out)@ == old(out)@ + word_bytes(words@),
{
    let ghost start = out@;
    assert(start + word_bytes(words@.take(0)) =~= start);
    for i in 0usize..words.len()
        invariant
            out@ == start + word_bytes(words@.take(i as int)),
    {
        push_word(out, words[i]);
        proof {
            lemma_word_bytes_concat(words@.take(i as int), seq![words@[i as int]]);
            assert(words@.take(i + 1) =~= words@.take(i as int) + seq![words@[i as int]]);
        }
    }
    assert(words@.take(words@.len() as int) =~= words@);
}

/// Appends a list of pairs.
fn push_pairs(out: &mut Vec<u8>, list: &Vec<Bits2>)
    ensures
        final(out)@ == old(out)@ + word_bytes(flat2(list@)),
{
    let ghost start = out@;
    assert(start + word_bytes(flat2(list@.take(0))) =~= start);
    for i in 0usize..list.len()
        invariant
            out@ == start + word_bytes(flat2(list@.take(i as int))),
    {
        let v = list[i];
        push_word(out, v.x);
        push_word(out, v.y);
        proof {
            let done = flat2(list@.take(i as int));
            lemma_word_bytes_concat(done, seq![v.x]);
            lemma_word_bytes_concat(done + seq![v.x], seq![v.y]);
            assert(flat2(list@.take(i + 1)) =~= done + seq![v.x] + seq![v.y]);
        }
    }
    assert(list@.take(list@.len() as int) =~= list@);
}

/// Appends a list of triples.
fn push_triples(out: &mut Vec<u8>, list: &Vec<Bits3>)
    ensures
        final(out)@ == old(out)@ + word_bytes(flat3(list@)),
{
    let ghost start = out@;
    assert(start + word_bytes(flat3(list@.take(0))) =~= start);
    for i in 0usize..list.len()
        invariant
            out@ == start + word_bytes(flat3(list@.take(i as int))),
    {
        let v = list[i];
        push_word(out, v.x);
        push_word(out, v.y);
        push_word(out, v.z);
        proof {
            let done = flat3(list@.take(i as int));
            lemma_word_bytes_concat(done, seq![v.x]);
            lemma_word_bytes_concat(done + seq![v.x], seq![v.y]);
            lemma_word_bytes_concat(done + seq![v.x] + seq![v.y], seq![v.z]);
            assert(flat3(list@.take(i + 1)) =~= done + seq![v.x] + seq![v.y] + seq![v.z]);
        }
    }
    assert(list@.take(list@.len() as int) =~= list@);
}

/// Appends a list of quadruples.
fn push_quadruples(out: &mut Vec<u8>, list: &Vec<Bits4>)
    ensures
        final(out)@ == old(out)@ + word_bytes(flat4(list@)),
{
    let ghost start = out@;
    assert(start + word_bytes(flat4(list@.take(0))) =~= start);
    for i in 0usize..list.len()
        invariant
            out@ == start + word_bytes(flat4(list@.take(i as int))),
    {
        let v = list[i];
        push_word(out, v.x);
        push_word(out, v.y);
        push_word(out, v.z);
        push_word(out, v.w);
        proof {
            let done = flat4(list@.take(i as int));
            lemma_word_bytes_concat(done, seq![v.x]);
            lemma_word_bytes_concat(done + seq![v.x], seq![v.y]);
            lemma_word_bytes_concat(done + seq![v.x] + seq![v.y], seq![v.z]);
            lemma_word_bytes_concat(done + seq![v.x] + seq![v.y] + seq![v.z], seq![v.w]);
            assert(flat4(list@.take(i + 1)) =~= done + seq![v.x] + seq![v.y] + seq![v.z] + seq![
                v.w,
            ]);
        }
    }
    assert(list@.take(list@.len() as int) =~= list@);
}

/// The bytes of the mesh file: the number of vertices, their positions, normals and texture
/// coordinates, a flag for the tangents and the tangents if there are any, then the number of
/// indices and the indices. Everything is a word with its low end first.
pub fn save_mesh(mesh: &BlockMesh) -> (out: Vec<u8>)
    ensures
        out@ == word_bytes(mesh.words()),
{
    let mut out: Vec<u8> = Vec::new();
    let count: u32 = #[verifier::truncate] (mesh.positions.len() as u32);
    push_word(&mut out, count);
    push_triples(&mut out, &mesh.positions);
    push_triples(&mut out, &mesh.normals);
    push_pairs(&mut out, &mesh.uvs);
    match &mesh.tangents {
        Some(tangents) => {
            push_word(&mut out, 1);
            push_quadruples(&mut out, tangents);
            proof {
                lemma_word_bytes_concat(seq![1u32], flat4(tangents@));
            }
        },
        None => {
            push_word(&mut out, 0);
        },
    }
    let index_count: u32 = #[verifier::truncate] (mesh.indices.len() as u32);
    push_word(&mut out, index_count);
    push_words(&mut out, &mesh.indices);
    proof {
        let a = seq![count];
        let b = a + flat3(mesh.positions@);
        let c = b + flat3(mesh.normals@);
        let d = c + flat2(mesh.uvs@);
        let e = d + tangent_words(mesh.tangents);
        let f = e + seq![index_count];
        lemma_word_bytes_concat(a, flat3(mesh.positions@));
        lemma_word_bytes_concat(b, flat3(mesh.normals@));
        lemma_word_bytes_concat(c, flat2(mesh.uvs@));
        lemma_word_bytes_concat(d, tangent_words(mesh.tangents));
        lemma_word_bytes_concat(e, seq![index_count]);
        lemma_word_bytes_concat(f, mesh.indices@);
        assert(out@ =~= word_bytes(mesh.words()));
    }
    out
}

/// What a mesh holds, as a reader of its file sees it.
pub struct MeshContents {
    pub positions: Seq<Bits3>,
    pub normals: Seq<Bits3>,
    pub uvs: Seq<Bits2>,
    pub tangents: Option<Seq<Bits4>>,
    pub indices: Seq<u32>,
}

impl View for BlockMesh {
    type V = MeshContents;

    open spec fn view(&self) -> MeshContents {
        MeshContents {
            positions: self.positions@,
            normals: self.normals@,
            uvs: self.uvs@,
            tangents: match self.tangents {
                Some(list) => Some(list@),
                None => None,
            },
            indices: self.indices@,
        }
    }
}

/// Word `k` of a file.
pub open spec fn file_word(data: Seq<u8>, k: int) -> u32 {
    bytes::le32(data, 4 * k) as u32
}

/// The `n` pairs that start at word `k` of a file.
pub open spec fn file_pairs(data: Seq<u8>, k: int, n: int) -> Seq<Bits2> {
    Seq::new(
        n as nat,
        |i: int| Bits2 { x: file_word(data, k + 2 * i), y: file_word(data, k + 2 * i + 1) },
    )
}

/// The `n` triples that start at word `k` of a file.
pub open spec fn file_triples(data: Seq<u8>, k: int, n: int) -> Seq<Bits3> {
    Seq::new(
        n as nat,
        |i: int|
            Bits3 {
                x: file_word(data, k + 3 * i),
                y: file_word(data, k + 3 * i + 1),
                z: file_word(data, k + 3 * i + 2),
            },
    )
}

/// The `n` quadruples that start at word `k` of a file.
pub open spec fn file_quadruples(data: Seq<u8>, k: int, n: int) -> Seq<Bits4> {
    Seq::new(
        n as nat,
        |i: int|
            Bits4 {
                x: file_word(data, k + 4 * i),
                y: file_word(data, k + 4 * i + 1),
                z: file_word(data, k + 4 * i + 2),
                w: file_word(data, k + 4 * i + 3),
            },
    )
}

/// Reads a mesh file: the number of vertices, the positions, the normals, the texture coordinates,
/// a flag, the tangents if the flag is one, the number of indices and the indices.
pub open spec fn read_mesh(data: Seq<u8>) -> MeshContents {
    let n = file_word(data, 0) as int;
    let has_tangents = file_word(data, 1 + 8 * n) == 1;
    let rest = 2 + 8 * n + (if has_tangents {
        4 * n
    } else {
        0
    });
    MeshContents {
        positions: file_triples(data, 1, n),
        normals: file_triples(data, 1 + 3 * n, n),
        uvs: file_pairs(data, 1 + 6 * n, n),
        tangents: if has_tangents {
            Some(file_quadruples(data, 2 + 8 * n, n))
        } else {
            None
        },
        indices: Seq::new(file_word(data, rest) as nat, |i: int| file_word(data, rest + 1 + i)),
    }
}

/// The bytes of a list of words hold its words.
proof fn lemma_file_word(words: Seq<u32>, k: int)
    requires
        0 <= k < words.len(),
    ensures
        file_word(word_bytes(words), k) == words[k],
{
    let data = word_bytes(words);
    let word = words[k];
    assert((4 * k) / 4 == k && (4 * k + 1) / 4 == k && (4 * k + 2) / 4 == k && (4 * k + 3) / 4 == k);
    assert(data[4 * k] == byte_of(word, 0));
    assert(data[4 * k + 1] == byte_of(word, 1));
    assert(data[4 * k + 2] == byte_of(word, 2));
    assert(data[4 * k + 3] == byte_of(word, 3));
    let w = word as int;
    assert(w == w % 256 + 256 * (w / 256 % 256) + 65536 * (w / 65536 % 256) + 16777216 * (w
        / 16777216));
}

/// Pairs that stand one after another in the words read back.
proof fn lemma_file_pairs(words: Seq<u32>, k: int, list: Seq<Bits2>)
    requires
        0 <= k,
        k + 2 * list.len() <= words.len(),
        words.subrange(k, k + 2 * list.len()) == flat2(list),
    ensures
        file_pairs(word_bytes(words), k, list.len() as int) == list,
{
    let read = file_pairs(word_bytes(words), k, list.len() as int);
    assert forall|i: int| 0 <= i < list.len() implies #[trigger] read[i] == list[i] by {
        let part = words.subrange(k, k + 2 * list.len());
        lemma_file_word(words, k + 2 * i);
        lemma_file_word(words, k + 2 * i + 1);
        assert(part[2 * i] == list[i].x);
        assert(part[2 * i + 1] == list[i].y);
    }
    assert(read =~= list);
}

/// Triples that stand one after another in the words read back.
proof fn lemma_file_triples(words: Seq<u32>, k: int, list: Seq<Bits3>)
    requires
        0 <= k,
        k + 3 * list.len() <= words.len(),
        words.subrange(k, k + 3 * list.len()) == flat3(list),
    ensures
        file_triples(word_bytes(words), k, list.len() as int) == list,
{
    let read = file_triples(word_bytes(words), k, list.len() as int);
    assert forall|i: int| 0 <= i < list.len() implies #[trigger] read[i] == list[i] by {
        let part = words.subrange(k, k + 3 * list.len());
        lemma_file_word(words, k + 3 * i);
        lemma_file_word(words, k + 3 * i + 1);
        lemma_file_word(words, k + 3 * i + 2);
        assert(part[3 * i] == list[i].x);
        assert(part[3 * i + 1] == list[i].y);
        assert(part[3 * i + 2] == list[i].z);
    }
    assert(read =~= list);
}

/// Quadruples that stand one after another in the words read back.
proof fn lemma_file_quadruples(words: Seq<u32>, k: int, list: Seq<Bits4>)
    requires
        0 <= k,
        k + 4 * list.len() <= words.len(),
        words.subrange(k, k + 4 * list.len()) == flat4(list),
    ensures
        file_quadruples(word_bytes(words), k, list.len() as int) == list,
{
    let read = file_quadruples(word_bytes(words), k, list.len() as int);
    assert forall|i: int| 0 <= i < list.len() implies #[trigger] read[i] == list[i] by {
        let part = words.subrange(k, k + 4 * list.len());
        lemma_file_word(words, k + 4 * i);
        lemma_file_word(words, k + 4 * i + 1);
        lemma_file_word(words, k + 4 * i + 2);
        lemma_file_word(words, k + 4 * i + 3);
        assert(part[4 * i] == list[i].x);
        assert(part[4 * i + 1] == list[i].y);
        assert(part[4 * i + 2] == list[i].z);
        assert(part[4 * i + 3] == list[i].w);
    }
    assert(read =~= list);
}

/// Where the parts of a mesh file stand in its words.
proof fn lemma_word_parts(mesh: &BlockMesh)
    requires
        mesh.is_complete(),
    ensures
        ({
            let words = mesh.words();
            let n = mesh.positions@.len() as int;
            let rest = 1 + 8 * n + tangent_words(mesh.tangents).len();
            &&& words.len() == rest + 1 + mesh.indices@.len()
            &&& words[0] == n
            &&& words.subrange(1, 1 + 3 * n) == flat3(mesh.positions@)
            &&& words.subrange(1 + 3 * n, 1 + 6 * n) == flat3(mesh.normals@)
            &&& words.subrange(1 + 6 * n, 1 + 8 * n) == flat2(mesh.uvs@)
            &&& words.subrange(1 + 8 * n, rest) == tangent_words(mesh.tangents)
            &&& words[rest] == mesh.indices@.len()
            &&& words.subrange(rest + 1, words.len() as int) == mesh.indices@
        }),
{
    let words = mesh.words();
    let n = mesh.positions@.len() as int;
    let rest = 1 + 8 * n + tangent_words(mesh.tangents).len();
    assert(words.subrange(1, 1 + 3 * n) =~= flat3(mesh.positions@));
    assert(words.subrange(1 + 3 * n, 1 + 6 * n) =~= flat3(mesh.normals@));
    assert(words.subrange(1 + 6 * n, 1 + 8 * n) =~= flat2(mesh.uvs@));
    assert(words.subrange(1 + 8 * n, rest) =~= tangent_words(mesh.tangents));
    assert(words.subrange(rest + 1, words.len() as int) =~= mesh.indices@);
}

/// A mesh file reads back as the mesh that it was made from.
pub proof fn mesh_file_reads_back(mesh: &BlockMesh)
    requires
        mesh.is_complete(),
    ensures
        read_mesh(word_bytes(mesh.words())) == mesh@,
{
    let words = mesh.words();
    let data = word_bytes(words);
    let n = mesh.positions@.len() as int;
    let flags = tangent_words(mesh.tangents);
    let rest = 1 + 8 * n + flags.len();
    lemma_word_parts(mesh);
    lemma_file_word(words, 0);
    lemma_file_word(words, 1 + 8 * n);
    assert(words.subrange(1 + 8 * n, rest)[0] == words[1 + 8 * n]);
    lemma_file_word(words, rest);
    lemma_file_triples(words, 1, mesh.positions@);
    lemma_file_triples(words, 1 + 3 * n, mesh.normals@);
    lemma_file_pairs(words, 1 + 6 * n, mesh.uvs@);
    if let Some(list) = mesh.tangents {
        assert(words.subrange(2 + 8 * n, rest) =~= flat4(list@)) by {
            assert(words.subrange(1 + 8 * n, rest).subrange(1, flags.len() as int)
                =~= words.subrange(2 + 8 * n, rest));
            assert(flags.subrange(1, flags.len() as int) =~= flat4(list@));
        }
        lemma_file_quadruples(words, 2 + 8 * n, list@);
    }
    let read = read_mesh(data);
    assert(read.indices.len() == mesh.indices@.len());
    assert forall|i: int| 0 <= i < mesh.indices@.len() implies #[trigger] read.indices[i]
        == mesh.indices@[i] by {
        lemma_file_word(words, rest + 1 + i);
        assert(words.subrange(rest + 1, words.len() as int)[i] == words[rest + 1 + i]);
    }
    assert(read.indices =~= mesh.indices@);
}

/// Different meshes have different files.
pub proof fn mesh_files_differ(a: &BlockMesh, b: &BlockMesh)
    requires
        a.is_complete(),
        b.is_complete(),
        word_bytes(a.words()) == word_bytes(b.words()),
    ensures
        a@ == b@,
{
    mesh_file_reads_back(a);
    mesh_file_reads_back(b);
}

/// The length of a mesh file.
pub proof fn mesh_file_length(mesh: &BlockMesh)
    requires
        mesh.is_complete(),
    ensures
        word_bytes(mesh.words()).len() == 4 * (3 + mesh.positions@.len() * (if mesh.tangents is Some {
            12int
        } else {
            8int
        }) + mesh.indices@.len()),
{
}

/// Every entry of the index list of a grid is one of its vertices, and the three corners of a
/// triangle are three vertices.
pub proof fn grid_triangles_are_proper(width: int, height: int, i: int)
    requires
        1 <= width,
        1 <= height,
        0 <= i < 6 * ((width - 1) * (height - 1)),
    ensures
        0 <= grid_index(width, i) < width * height,
        i % 3 == 0 ==> {
            &&& grid_index(width, i) != grid_index(width, i + 1)
            &&& grid_index(width, i) != grid_index(width, i + 2)
            &&& grid_index(width, i + 1) != grid_index(width, i + 2)
        },
{
    let cell = i / 6;
    picture::lemma_cell_of_index(width - 1, height - 1, cell);
    let x = cell % (width - 1);
    let y = cell / (width - 1);
    picture::lemma_cell_in_grid(width, height, x, y);
    picture::lemma_cell_in_grid(width, height, x + 1, y + 1);
    assert((y + 1) * width == y * width + width) by (nonlinear_arith);
    if i % 3 == 0 {
        assert((i + 1) / 6 == cell && (i + 2) / 6 == cell);
    }
}

/// Every cell of the grid is split into two triangles that share the diagonal from its lower left to
/// its upper right corner: upper left, lower left, upper right, and upper right, lower left, lower
/// right.
pub proof fn grid_cell_is_split(width: int, height: int, x: int, y: int)
    requires
        0 <= x < width - 1,
        0 <= y < height - 1,
    ensures
        ({
            let i = 6 * picture::cell_index(width - 1, x, y);
            &&& 0 <= i < 6 * ((width - 1) * (height - 1))
            &&& grid_index(width, i) == picture::cell_index(width, x, y)
            &&& grid_index(width, i + 1) == picture::cell_index(width, x, y + 1)
            &&& grid_index(width, i + 2) == picture::cell_index(width, x + 1, y)
            &&& grid_index(width, i + 3) == picture::cell_index(width, x + 1, y)
            &&& grid_index(width, i + 4) == picture::cell_index(width, x, y + 1)
            &&& grid_index(width, i + 5) == picture::cell_index(width, x + 1, y + 1)
        }),
{
    let cell = picture::cell_index(width - 1, x, y);
    picture::lemma_cell_in_grid(width - 1, height - 1, x, y);
    picture::lemma_cell_of_index(width - 1, height - 1, cell);
    picture::lemma_cell_injective(width - 1, x, y, cell % (width - 1), cell / (width - 1));
    assert((y + 1) * width == y * width + width) by (nonlinear_arith);
    let i = 6 * cell;
    assert((i + 1) / 6 == cell && (i + 2) / 6 == cell && (i + 3) / 6 == cell && (i + 4) / 6 == cell
        && (i + 5) / 6 == cell);
}

/// The triangles of a cell by the numbers of its corners, where vertices are numbered row by row: the
/// first has the upper left, the lower left and the upper right corner, the second the upper right,
/// the lower left and the lower right. The cells come row by row, six entries each.
pub proof fn grid_cell_has_its_corners(width: int, height: int, x: int, y: int)
    requires
        0 <= x < width - 1,
        0 <= y < height - 1,
    ensures
        ({
            let i = 6 * (y * (width - 1) + x);
            &&& grid_index(width, i) == y * width + x
            &&& grid_index(width, i + 1) == (y + 1) * width + x
            &&& grid_index(width, i + 2) == y * width + (x + 1)
            &&& grid_index(width, i + 3) == y * width + (x + 1)
            &&& grid_index(width, i + 4) == (y + 1) * width + x
            &&& grid_index(width, i + 5) == (y + 1) * width + (x + 1)
        }),
{
    grid_cell_is_split(width, height, x, y);
}

/// The word of a file that starts at byte `at`.
pub open spec fn word_at(data: Seq<u8>, at: int) -> int {
    data[at] + 0x100 * data[at + 1] + 0x1_0000 * data[at + 2] + 0x100_0000 * data[at + 3]
}

/// A word of a file, by its number and by its place.
proof fn lemma_word_at(data: Seq<u8>, k: int)
    ensures
        word_at(data, 4 * k) == file_word(data, k),
{
    bytes::le32_splits_into_bytes(data, 4 * k);
}

/// The flag that says whether tangents follow.
proof fn lemma_flag_word(mesh: &BlockMesh)
    requires
        mesh.is_complete(),
    ensures
        word_at(word_bytes(mesh.words()), 4 + 32 * mesh.positions@.len() as int)
            == if mesh.tangents is Some {
            1int
        } else {
            0int
        },
{
    let words = mesh.words();
    let k = 1 + 8 * mesh.positions@.len() as int;
    lemma_word_parts(mesh);
    let flags = words.subrange(k, k + tangent_words(mesh.tangents).len());
    assert(flags[0] == words[k]);
    lemma_file_word(words, k);
    lemma_word_at(word_bytes(words), k);
}

/// Where a reader of a mesh file finds the vertices.
proof fn lemma_vertex_places(data: Seq<u8>, i: int)
    ensures
        ({
            let read = read_mesh(data);
            let n = read.positions.len() as int;
            &&& word_at(data, 0) == n
            &&& 0 <= i < n ==> {
                &&& word_at(data, 4 + 12 * i) == read.positions[i].x
                &&& word_at(data, 8 + 12 * i) == read.positions[i].y
                &&& word_at(data, 12 + 12 * i) == read.positions[i].z
                &&& word_at(data, 4 + 12 * n + 12 * i) == read.normals[i].x
                &&& word_at(data, 8 + 12 * n + 12 * i) == read.normals[i].y
                &&& word_at(data, 12 + 12 * n + 12 * i) == read.normals[i].z
                &&& word_at(data, 4 + 24 * n + 8 * i) == read.uvs[i].x
                &&& word_at(data, 8 + 24 * n + 8 * i) == read.uvs[i].y
            }
        }),
{
    let n = file_word(data, 0) as int;
    lemma_word_at(data, 0);
    lemma_word_at(data, 1 + 3 * i);
    lemma_word_at(data, 2 + 3 * i);
    lemma_word_at(data, 3 + 3 * i);
    lemma_word_at(data, 1 + 3 * n + 3 * i);
    lemma_word_at(data, 2 + 3 * n + 3 * i);
    lemma_word_at(data, 3 + 3 * n + 3 * i);
    lemma_word_at(data, 1 + 6 * n + 2 * i);
    lemma_word_at(data, 2 + 6 * n + 2 * i);
}

/// Where a reader of a mesh file finds the tangents.
proof fn lemma_tangent_places(data: Seq<u8>, i: int)
    ensures
        ({
            let read = read_mesh(data);
            let n = read.positions.len() as int;
            read.tangents matches Some(list) ==> list.len() == n && (0 <= i < n ==> {
                &&& word_at(data, 8 + 32 * n + 16 * i) == list[i].x
                &&& word_at(data, 12 + 32 * n + 16 * i) == list[i].y
                &&& word_at(data, 16 + 32 * n + 16 * i) == list[i].z
                &&& word_at(data, 20 + 32 * n + 16 * i) == list[i].w
            })
        }),
{
    let n = file_word(data, 0) as int;
    lemma_word_at(data, 2 + 8 * n + 4 * i);
    lemma_word_at(data, 3 + 8 * n + 4 * i);
    lemma_word_at(data, 4 + 8 * n + 4 * i);
    lemma_word_at(data, 5 + 8 * n + 4 * i);
}

/// Where everything stands in a mesh file, in bytes. The number of vertices comes first. Then come
/// three words for each position, three for each normal and two for each pair of texture
/// coordinates, and the flag for the tangents.
pub proof fn mesh_file_starts_with_the_vertices(mesh: &BlockMesh, i: int)
    requires
        mesh.is_complete(),
    ensures
        ({
            let data = word_bytes(mesh.words());
            let n = mesh.positions@.len() as int;
            let p = mesh.positions@[i];
            let m = mesh.normals@[i];
            let u = mesh.uvs@[i];
            &&& word_at(data, 0) == n
            &&& 0 <= i < n ==> {
                &&& word_at(data, 4 + 12 * i) == p.x
                &&& word_at(data, 8 + 12 * i) == p.y
                &&& word_at(data, 12 + 12 * i) == p.z
                &&& word_at(data, 4 + 12 * n + 12 * i) == m.x
                &&& word_at(data, 8 + 12 * n + 12 * i) == m.y
                &&& word_at(data, 12 + 12 * n + 12 * i) == m.z
                &&& word_at(data, 4 + 24 * n + 8 * i) == u.x
                &&& word_at(data, 8 + 24 * n + 8 * i) == u.y
            }
            &&& word_at(data, 4 + 32 * n) == if mesh.tangents is Some {
                1int
            } else {
                0int
            }
        }),
{
    mesh_file_reads_back(mesh);
    lemma_flag_word(mesh);
    lemma_vertex_places(word_bytes(mesh.words()), i);
}

/// After the flag come four words for each tangent, if there are any.
pub proof fn mesh_file_goes_on_with_the_tangents(mesh: &BlockMesh, tangents: Seq<Bits4>, i: int)
    requires
        mesh.is_complete(),
        mesh.tangents matches Some(list) && list@ == tangents,
        0 <= i < tangents.len(),
    ensures
        ({
            let data = word_bytes(mesh.words());
            let n = mesh.positions@.len() as int;
            &&& word_at(data, 8 + 32 * n + 16 * i) == tangents[i].x
            &&& word_at(data, 12 + 32 * n + 16 * i) == tangents[i].y
            &&& word_at(data, 16 + 32 * n + 16 * i) == tangents[i].z
            &&& word_at(data, 20 + 32 * n + 16 * i) == tangents[i].w
        }),
{
    mesh_file_reads_back(mesh);
    lemma_tangent_places(word_bytes(mesh.words()), i);
}

/// The file ends with the number of indices and the indices, one word each.
pub proof fn mesh_file_ends_with_the_indices(mesh: &BlockMesh, i: int)
    requires
        mesh.is_complete(),
    ensures
        ({
            let data = word_bytes(mesh.words());
            let count = mesh.indices@.len() as int;
            &&& word_at(data, data.len() - 4 - 4 * count) == count
            &&& 0 <= i < count ==> word_at(data, data.len() - 4 * count + 4 * i) == mesh.indices@[i]
            &&& data.len() == 12 + 4 * count + mesh.positions@.len() * (if mesh.tangents is Some {
                48int
            } else {
                32int
            })
        }),
{
    let words = mesh.words();
    let n = mesh.positions@.len() as int;
    lemma_word_parts(mesh);
    let rest = 1 + 8 * n + tangent_words(mesh.tangents).len();
    let indices = words.subrange(rest + 1, words.len() as int);
    lemma_file_word(words, rest);
    lemma_word_at(word_bytes(words), rest);
    if 0 <= i < mesh.indices@.len() {
        lemma_file_word(words, rest + 1 + i);
        lemma_word_at(word_bytes(words), rest + 1 + i);
        assert(indices[i] == mesh.indices@[i]);
    }
}

/// A mesh is complete exactly if its lists have one length and that and the number of its indices can
/// be told in a word.
pub proof fn complete_meshes_have_lists_of_one_length(mesh: &BlockMesh)
    ensures
        mesh.is_complete() <==> {
            &&& mesh.positions@.len() < 0x1_0000_0000
            &&& mesh.indices@.len() < 0x1_0000_0000
            &&& mesh.normals@.len() == mesh.positions@.len()
            &&& mesh.uvs@.len() == mesh.positions@.len()
            &&& match mesh.tangents {
                Some(list) => list@.len() == mesh.positions@.len(),
                None => true,
            }
        },
{
}

} // verus!

//! The discrete parts of drawing: texture identifiers, drawing modes, and
//! the index buffers of text.
use vstd::prelude::*;

verus! {

/// Type to hold texture identifiers.
#[derive(Copy, Clone, Debug, PartialEq, Eq, Structural)]
pub enum TextureId {
    Texture(usize),
    Font(usize),
}

/// The drawing mode of a `DrawCommand`
/// - `Triangles` allows to build filled triangles with disjoint groups of three vertices
/// - `Lines` allows to build lines with disjoint pair of two vertices
/// - `Points` allows to draw points, one for each vertex
#[derive(Copy, Clone, Debug, PartialEq, Eq, Structural)]
pub enum DrawMode {
    Triangles,
    Lines,
    Points,
}

/// The offset, inside the four vertices of a character, of the `r`-th index
/// of its two triangles: (0, 1, 2) then (1, 2, 3).
pub open spec fn quad_offset(r: int) -> int {
    if r == 0 {
        0
    } else if r == 1 || r == 3 {
        1
    } else if r == 2 || r == 4 {
        2
    } else {
        3
    }
}

/// The `j`-th entry of the index buffer of a text: character `j / 6` owns
/// vertices `4 * (j / 6)` to `4 * (j / 6) + 3`, as a `u32`.
pub open spec fn text_index(j: int) -> u32 {
    (4 * (j / 6) + quad_offset(j % 6)) as u32
}

/// The index buffer drawing `char_count` characters, each one a quad of four
/// vertices made of two triangles. Vertex numbers are converted to `u32` as
/// `as` does.
pub fn text_index_buffer(char_count: usize) -> (r: Vec<u32>)
    requires
        char_count * 6 <= usize::MAX,
    ensures
        r@.len() == 6 * char_count,
        forall|j: int| 0 <= j < r@.len() ==> #[trigger] r@[j] == text_index(j),
{
    let mut index_buffer: Vec<u32> = Vec::with_capacity(char_count * 6);
    let mut i: usize = 0;
    while i < char_count
        invariant
            i <= char_count,
            char_count * 6 <= usize::MAX,
            index_buffer@.len() == 6 * i,
            forall|j: int| 0 <= j < index_buffer@.len() ==> #[trigger] index_buffer@[j] == text_index(j),
        decreases char_count - i,
    {
        let base: usize = 4 * i;
        index_buffer.push(base as u32);
        index_buffer.push((base + 1) as u32);
        index_buffer.push((base + 2) as u32);
        index_buffer.push((base + 1) as u32);
        index_buffer.push((base + 2) as u32);
        index_buffer.push((base + 3) as u32);
        assert forall|j: int| 6 * i <= j < 6 * i + 6 implies #[trigger] index_buffer@[j] == text_index(j) by {
            assert(j / 6 == i as int);
            assert(j % 6 == j - 6 * i);
        }
        i += 1;
    }
    index_buffer
}

} // verus!

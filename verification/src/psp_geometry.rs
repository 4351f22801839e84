//! Index lists for meshes.

use vstd::prelude::*;

verus! {

/// The number of faces of a cube.
pub const CUBE_FACES: u16 = 6;

/// The corner of its face that the `k`-th index of a face names: a face is
/// drawn as the triangles 0, 1, 2 and 0, 2, 3 of its four corners.
pub open spec fn face_corner(k: int) -> int {
    if k == 0 || k == 3 {
        0
    } else if k == 1 {
        1
    } else if k == 2 || k == 4 {
        2
    } else {
        3
    }
}

/// The `k`-th index of a mesh whose faces have four vertices each, one
/// face after the other.
pub open spec fn quad_index(k: int) -> int {
    4 * (k / 6) + face_corner(k % 6)
}

/// The indices of a cube with four vertices to a face: thirty-six indices,
/// six to a face.
pub fn cube_indices() -> (indices: Vec<u16>)
    ensures
        indices@.len() == 36,
        forall|k: int| 0 <= k < 36 ==> indices@[k] == quad_index(k),
{
    let mut indices: Vec<u16> = Vec::with_capacity(36);
    let mut face: u16 = 0;
    while face < CUBE_FACES
        invariant
            face <= 6,
            indices@.len() == 6 * face,
            forall|k: int| 0 <= k < indices@.len() ==> indices@[k] == quad_index(k),
        decreases 6 - face,
    {
        let first: u16 = face * 4;
        indices.push(first);
        indices.push(first + 1);
        indices.push(first + 2);
        indices.push(first);
        indices.push(first + 2);
        indices.push(first + 3);
        face = face + 1;
    }
    indices
}

} // verus!

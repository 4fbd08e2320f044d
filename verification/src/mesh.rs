use vstd::prelude::*;

verus! {

/// The index buffer of a wall's top face: the triangle indices of its outline in
/// reverse order, which turns the winding of every triangle, each cut to 32 bits.
pub fn wall_mesh_indices(indices: &Vec<usize>) -> (out: Vec<u32>)
    ensures
        out@.len() == indices@.len(),
        forall|k: int|
            0 <= k < out@.len() ==> #[trigger] out@[k] == indices@[indices@.len() - 1 - k] as u32,
{
    let n = indices.len();
    let mut out: Vec<u32> = Vec::with_capacity(n);
    let mut k: usize = 0;
    while k < n
        invariant
            n == indices@.len(),
            k <= n,
            out@.len() == k,
            forall|j: int| 0 <= j < k ==> #[trigger] out@[j] == indices@[n - 1 - j] as u32,
        decreases n - k,
    {
        out.push(indices[n - 1 - k] as u32);
        k = k + 1;
    }
    out
}

/// The index buffer of a primitive's mesh: its indices in order, each cut to 32 bits.
pub fn primitive_mesh_indices(indices: &Vec<i64>) -> (out: Vec<u32>)
    ensures
        out@.len() == indices@.len(),
        forall|k: int| 0 <= k < out@.len() ==> #[trigger] out@[k] == indices@[k] as u32,
{
    let n = indices.len();
    let mut out: Vec<u32> = Vec::with_capacity(n);
    let mut k: usize = 0;
    while k < n
        invariant
            n == indices@.len(),
            k <= n,
            out@.len() == k,
            forall|j: int| 0 <= j < k ==> #[trigger] out@[j] == indices@[j] as u32,
        decreases n - k,
    {
        out.push(indices[k] as u32);
        k = k + 1;
    }
    out
}

/// The entity name of a wall: "Wall_" followed by the wall's own name.
pub fn wall_entity_name(name: &str) -> (entity: String)
    ensures
        entity@ == "Wall_"@ + name@,
{
    let mut entity = "Wall_".to_owned();
    entity.append(name);
    entity
}

/// Reversing the indices of a triangle list keeps every triangle but turns its
/// winding: the triangle at position t in the reversed list holds the vertices of the
/// triangle at position (count - 1 - t) of the original, in the opposite order.
pub proof fn lemma_reversal_flips_triangles(indices: Seq<usize>, out: Seq<u32>, t: int)
    requires
        indices.len() % 3 == 0,
        out.len() == indices.len(),
        forall|k: int| 0 <= k < out.len() ==> #[trigger] out[k] == indices[indices.len() - 1 - k] as u32,
        0 <= t < indices.len() / 3,
    ensures
        ({
            let s = indices.len() / 3 - 1 - t;
            &&& out[3 * t] == indices[3 * s + 2] as u32
            &&& out[3 * t + 1] == indices[3 * s + 1] as u32
            &&& out[3 * t + 2] == indices[3 * s] as u32
        }),
{
    let n = indices.len() as int;
    let s = n / 3 - 1 - t;
    assert(n == 3 * (n / 3));
    assert(out[3 * t] == indices[n - 1 - 3 * t] as u32);
    assert(out[3 * t + 1] == indices[n - 1 - (3 * t + 1)] as u32);
    assert(out[3 * t + 2] == indices[n - 1 - (3 * t + 2)] as u32);
}

} // verus!

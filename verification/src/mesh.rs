use vstd::prelude::*;

verus! {

/// The vertex indices of the kept triangles among the first `t` triangles,
/// three per triangle, in order.
pub open spec fn kept_sources(indices: Seq<usize>, keep: Seq<bool>, t: int) -> Seq<usize>
    decreases t,
{
    if t <= 0 {
        Seq::empty()
    } else {
        let rest = kept_sources(indices, keep, t - 1);
        let b = 3 * (t - 1);
        if keep[t - 1] {
            rest + seq![indices[b], indices[b + 1], indices[b + 2]]
        } else {
            rest
        }
    }
}

/// Taking one more triangle into account appends its three vertex indices,
/// in order, when it is kept, and nothing when it is not; no triangles give
/// no vertices.
pub proof fn law_kept_sources_step(indices: Seq<usize>, keep: Seq<bool>, t: int)
    requires
        0 <= t,
    ensures
        kept_sources(indices, keep, 0) == Seq::<usize>::empty(),
        keep[t] ==> kept_sources(indices, keep, t + 1) == kept_sources(indices, keep, t) + seq![
            indices[3 * t],
            indices[3 * t + 1],
            indices[3 * t + 2],
        ],
        !keep[t] ==> kept_sources(indices, keep, t + 1) == kept_sources(indices, keep, t),
{
}

/// The triangles of a mesh that were kept, rebuilt as a mesh of their own.
pub struct TriangleSelection {
    /// One triangle per kept triangle, over the new vertices.
    pub indices: Vec<[u32; 3]>,
    /// For each new vertex, the index of the original vertex it copies.
    pub sources: Vec<usize>,
}

/// Keep the triangles marked in `keep` (one mark per whole triangle of the
/// index list; a trailing partial triangle is ignored). Each kept triangle
/// gets three new vertices of its own, copied from its original ones, so the
/// k-th kept triangle is `[3k, 3k+1, 3k+2]`. `None` when nothing was kept.
pub fn select_triangles(indices: &Vec<usize>, keep: &Vec<bool>) -> (sel: Option<TriangleSelection>)
    requires
        keep.len() == indices.len() / 3,
        indices.len() <= u32::MAX,
    ensures
        match sel {
            None => kept_sources(indices@, keep@, keep.len() as int).len() == 0,
            Some(s) => {
                &&& s.sources@ == kept_sources(indices@, keep@, keep.len() as int)
                &&& s.sources.len() > 0
                &&& s.sources.len() == 3 * s.indices.len()
                &&& forall|k: int|
                    0 <= k < s.indices.len() ==> #[trigger] s.indices@[k]@ == seq![
                        (3 * k) as u32,
                        (3 * k + 1) as u32,
                        (3 * k + 2) as u32,
                    ]
            },
        },
{
    let mut tri_indices: Vec<[u32; 3]> = Vec::new();
    let mut sources: Vec<usize> = Vec::new();
    let mut t: usize = 0;
    while t < keep.len()
        invariant
            keep.len() == indices.len() / 3,
            indices.len() <= u32::MAX,
            t <= keep.len(),
            sources@ == kept_sources(indices@, keep@, t as int),
            sources.len() == 3 * tri_indices.len(),
            sources.len() <= 3 * t,
            forall|k: int|
                0 <= k < tri_indices.len() ==> #[trigger] tri_indices@[k]@ == seq![
                    (3 * k) as u32,
                    (3 * k + 1) as u32,
                    (3 * k + 2) as u32,
                ],
        decreases keep.len() - t,
    {
        if keep[t] {
            let l: u32 = sources.len() as u32;
            let tri: [u32; 3] = [l, l + 1, l + 2];
            tri_indices.push(tri);
            let b = 3 * t;
            sources.push(indices[b]);
            sources.push(indices[b + 1]);
            sources.push(indices[b + 2]);
            assert(tri@ =~= seq![l, (l + 1) as u32, (l + 2) as u32]);
        }
        t = t + 1;
    }
    if sources.len() == 0 {
        return None;
    }
    Some(TriangleSelection { indices: tri_indices, sources })
}

} // verus!

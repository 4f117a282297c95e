//! The per-tile visual lookup that the rendering collaborator consumes: one
//! opaque handle per tile identifier, supplied at construction (row-major
//! slices of a source image, in identifier order) and immutable afterwards.

use vstd::prelude::*;

verus! {

/// A fixed lookup from tile identifier to an opaque visual handle for an
/// N x N board. Identifier `0` names the empty cell, so its handle is never
/// drawn, but a handle is stored for it all the same.
pub struct TileAssets<H> {
    n: usize,
    handles: Vec<H>,
}

impl<H> TileAssets<H> {
    /// The grid dimension N.
    pub closed spec fn dim(&self) -> nat {
        self.n as nat
    }

    /// The handles in tile-identifier order.
    pub closed spec fn view(&self) -> Seq<H> {
        self.handles@
    }

    /// The lookup is correctly sized: one handle per tile identifier of an
    /// N x N board.
    pub open spec fn wf(&self) -> bool {
        &&& 2 <= self.dim()
        &&& self@.len() == self.dim() * self.dim()
    }

    /// Stores one visual handle per tile identifier. The collaborator that
    /// slices the source image must supply exactly N * N handles; with fewer
    /// or more, the system is to abort at startup rather than run the board
    /// with a malformed tile mapping.
    pub fn new(n: usize, handles: Vec<H>) -> (a: TileAssets<H>)
        requires
            2 <= n,
            handles@.len() == n * n,
        ensures
            a.wf(),
            a.dim() == n,
            a@ == handles@,
    {
        TileAssets { n, handles }
    }

    /// The visual handle for tile identifier `id`.
    pub fn handle_for(&self, id: usize) -> (h: &H)
        requires
            id < self@.len(),
        ensures
            *h == self@[id as int],
    {
        &self.handles[id]
    }
}

} // verus!

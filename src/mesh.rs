//! Meshes: vertex positions with parallel colors, optionally indexed.
use vstd::prelude::*;
use crate::algebra::{ThreeD, COORD_LIMIT};
use crate::colors::RGBA;

verus! {

/// A triangle list. With `indices`, each index names a vertex by position in
/// `positions` and `colors`; without, the vertices are taken in storage order.
/// Consecutive groups of three logical vertices form the triangles.
pub struct Mesh {
    pub positions: Vec<ThreeD>,
    pub colors: Vec<RGBA>,
    pub indices: Option<Vec<usize>>,
}

pub open spec fn view_indices(indices: Option<Vec<usize>>) -> Option<Seq<usize>> {
    match indices {
        None => None,
        Some(ix) => Some(ix@),
    }
}

/// Every index names one of `n` stored vertices.
pub open spec fn indices_in_range(ix: Seq<usize>, n: nat) -> bool {
    forall|i: int| 0 <= i < ix.len() ==> #[trigger] ix[i] < n
}

pub open spec fn mesh_parts_wf(positions: Seq<ThreeD>, colors: Seq<RGBA>, indices: Option<Seq<usize>>) -> bool {
    &&& colors.len() == positions.len()
    &&& (indices matches Some(ix) ==> indices_in_range(ix, positions.len()))
}

impl Mesh {
    pub open spec fn index_seq(&self) -> Option<Seq<usize>> {
        view_indices(self.indices)
    }

    /// Colors parallel positions and every index names a stored vertex.
    pub open spec fn wf(&self) -> bool {
        mesh_parts_wf(self.positions@, self.colors@, self.index_seq())
    }

    /// Every position lies within `COORD_LIMIT`.
    pub open spec fn bounded(&self) -> bool {
        forall|i: int| 0 <= i < self.positions@.len() ==> (#[trigger] self.positions@[i]).within(COORD_LIMIT as int)
    }

    /// The number of logical vertices.
    pub open spec fn vertex_count(&self) -> nat {
        match &self.indices {
            None => self.positions@.len(),
            Some(ix) => ix@.len(),
        }
    }

    /// The stored vertex behind logical vertex `i`.
    pub open spec fn slot(&self, i: int) -> int {
        match &self.indices {
            None => i,
            Some(ix) => ix@[i] as int,
        }
    }

    pub open spec fn position(&self, i: int) -> ThreeD {
        self.positions@[self.slot(i)]
    }

    pub open spec fn color(&self, i: int) -> RGBA {
        self.colors@[self.slot(i)]
    }

    /// A mesh of the given parts, or `None` where colors do not parallel
    /// positions or an index names no stored vertex.
    pub fn new(positions: Vec<ThreeD>, colors: Vec<RGBA>, indices: Option<Vec<usize>>) -> (r: Option<Mesh>)
        ensures
            r.is_some() <==> mesh_parts_wf(
                positions@,
                colors@,
                view_indices(indices),
            ),
            r matches Some(m) ==> m.positions@ == positions@ && m.colors@ == colors@
                && m.index_seq() == view_indices(indices),
    {
        if colors.len() != positions.len() {
            return None;
        }
        if indices.is_some() {
            let ix = indices.as_ref().unwrap();
            assert(view_indices(indices) == Some(ix@));
            {
                let mut k: usize = 0;
                while k < ix.len()
                    invariant
                        view_indices(indices) == Some(ix@),
                        k <= ix@.len(),
                        forall|i: int| 0 <= i < k ==> #[trigger] ix@[i] < positions@.len(),
                    decreases ix@.len() - k,
                {
                    if ix[k] >= positions.len() {
                        assert(!(ix@[k as int] < positions@.len()));
                        assert(!indices_in_range(ix@, positions@.len()));
                        return None;
                    }
                    k += 1;
                }
            }
        }
        Some(Mesh { positions, colors, indices })
    }

    /// Tests `bounded`, for callers outside verified code.
    pub fn is_bounded(&self) -> (r: bool)
        ensures
            r == self.bounded(),
    {
        let mut k: usize = 0;
        while k < self.positions.len()
            invariant
                k <= self.positions@.len(),
                forall|i: int| 0 <= i < k ==> (#[trigger] self.positions@[i]).within(COORD_LIMIT as int),
            decreases self.positions@.len() - k,
        {
            let p = &self.positions[k];
            if p.x < -COORD_LIMIT || p.x > COORD_LIMIT || p.y < -COORD_LIMIT || p.y > COORD_LIMIT
                || p.z < -COORD_LIMIT || p.z > COORD_LIMIT {
                return false;
            }
            k += 1;
        }
        true
    }

    /// The number of logical vertices (three per triangle).
    pub fn len(&self) -> (r: usize)
        ensures
            r == self.vertex_count(),
    {
        match &self.indices {
            None => self.positions.len(),
            Some(ix) => ix.len(),
        }
    }

    fn get_index(&self, i: usize) -> (r: usize)
        requires
            self.wf(),
            i < self.vertex_count(),
        ensures
            r == self.slot(i as int),
            r < self.positions@.len(),
    {
        match &self.indices {
            None => i,
            Some(ix) => {
                assert(self.index_seq() == Some(ix@));
                assert(indices_in_range(ix@, self.positions@.len()));
                assert(ix@[i as int] < self.positions@.len());
                ix[i]
            },
        }
    }

    /// The position of logical vertex `i`.
    pub fn get(&self, i: usize) -> (r: ThreeD)
        requires
            self.wf(),
            i < self.vertex_count(),
        ensures
            r == self.position(i as int),
    {
        self.positions[self.get_index(i)]
    }

    /// The color of logical vertex `i`.
    pub fn get_color(&self, i: usize) -> (r: RGBA)
        requires
            self.wf(),
            i < self.vertex_count(),
        ensures
            r == self.color(i as int),
    {
        self.colors[self.get_index(i)]
    }
    /// A square of side 2 in the z = 0 plane, centered on the origin, drawn as
    /// two triangles that share a diagonal through an index list.
    pub fn rectangle() -> (m: Mesh)
        ensures
            m.wf(),
            m.bounded(),
            m.vertex_count() == 6,
            m.positions@ == seq![
                ThreeD { x: -1i64, y: -1i64, z: 0i64 },
                ThreeD { x: -1i64, y: 1i64, z: 0i64 },
                ThreeD { x: 1i64, y: -1i64, z: 0i64 },
                ThreeD { x: 1i64, y: 1i64, z: 0i64 },
            ],
            m.colors@ == seq![
                RGBA { r: 255, g: 0, b: 0 },
                RGBA { r: 0, g: 255, b: 0 },
                RGBA { r: 0, g: 0, b: 255 },
                RGBA { r: 255, g: 255, b: 255 },
            ],
            m.index_seq() == Some(seq![0usize, 1, 2, 2, 1, 3]),
    {
        let positions = vec![
            ThreeD::new(-1, -1, 0),
            ThreeD::new(-1, 1, 0),
            ThreeD::new(1, -1, 0),
            ThreeD::new(1, 1, 0),
        ];
        let colors = vec![RGBA::red(), RGBA::green(), RGBA::blue(), RGBA::new(255, 255, 255)];
        let indices: Vec<usize> = vec![0, 1, 2, 2, 1, 3];
        let m = Mesh { positions, colors, indices: Some(indices) };
        assert(indices_in_range(m.index_seq().unwrap(), 4));
        assert(m.positions@ =~= seq![
            ThreeD { x: -1i64, y: -1i64, z: 0i64 },
            ThreeD { x: -1i64, y: 1i64, z: 0i64 },
            ThreeD { x: 1i64, y: -1i64, z: 0i64 },
            ThreeD { x: 1i64, y: 1i64, z: 0i64 },
        ]);
        assert(m.colors@ =~= seq![
            RGBA { r: 255, g: 0, b: 0 },
            RGBA { r: 0, g: 255, b: 0 },
            RGBA { r: 0, g: 0, b: 255 },
            RGBA { r: 255, g: 255, b: 255 },
        ]);
        assert(m.index_seq().unwrap() =~= seq![0usize, 1, 2, 2, 1, 3]);
        m
    }

    /// The cube `[-1, 1]^3`, each face a solid color, twelve indexed triangles.
    pub fn cube() -> (m: Mesh)
        ensures
            m.wf(),
            m.bounded(),
            m.vertex_count() == 36,
            m.positions@.len() == 24,
            forall|i: int| 0 <= i < 24 ==> (#[trigger] m.positions@[i]).within(1),
            forall|i: int| 0 <= i < 24 ==> #[trigger] m.colors@[i] == m.colors@[i - i % 4],
    {
        let positions = vec![
            // -X face
            ThreeD::new(-1, -1, -1),
            ThreeD::new(-1, 1, -1),
            ThreeD::new(-1, -1, 1),
            ThreeD::new(-1, 1, 1),
            // +X face
            ThreeD::new(1, -1, -1),
            ThreeD::new(1, 1, -1),
            ThreeD::new(1, -1, 1),
            ThreeD::new(1, 1, 1),
            // -Y face
            ThreeD::new(-1, -1, -1),
            ThreeD::new(1, -1, -1),
            ThreeD::new(-1, -1, 1),
            ThreeD::new(1, -1, 1),
            // +Y face
            ThreeD::new(-1, 1, -1),
            ThreeD::new(1, 1, -1),
            ThreeD::new(-1, 1, 1),
            ThreeD::new(1, 1, 1),
            // -Z face
            ThreeD::new(-1, -1, -1),
            ThreeD::new(1, -1, -1),
            ThreeD::new(-1, 1, -1),
            ThreeD::new(1, 1, -1),
            // +Z face
            ThreeD::new(-1, -1, 1),
            ThreeD::new(1, -1, 1),
            ThreeD::new(-1, 1, 1),
            ThreeD::new(1, 1, 1),
        ];
        let colors = vec![
            // -X face
            RGBA::new(0, 255, 255),
            RGBA::new(0, 255, 255),
            RGBA::new(0, 255, 255),
            RGBA::new(0, 255, 255),
            // +X face
            RGBA::new(255, 0, 0),
            RGBA::new(255, 0, 0),
            RGBA::new(255, 0, 0),
            RGBA::new(255, 0, 0),
            // -Y face
            RGBA::new(255, 0, 255),
            RGBA::new(255, 0, 255),
            RGBA::new(255, 0, 255),
            RGBA::new(255, 0, 255),
            // +Y face
            RGBA::new(0, 255, 0),
            RGBA::new(0, 255, 0),
            RGBA::new(0, 255, 0),
            RGBA::new(0, 255, 0),
            // -Z face
            RGBA::new(255, 255, 0),
            RGBA::new(255, 255, 0),
            RGBA::new(255, 255, 0),
            RGBA::new(255, 255, 0),
            // +Z face
            RGBA::new(0, 0, 255),
            RGBA::new(0, 0, 255),
            RGBA::new(0, 0, 255),
            RGBA::new(0, 0, 255),
        ];
        let indices: Vec<usize> = vec![
            // -X face
            0, 2, 1, 1, 2, 3,
            // +X face
            4, 5, 6, 6, 5, 7,
            // -Y face
            8, 9, 10, 10, 9, 11,
            // +Y face
            12, 14, 13, 14, 15, 13,
            // -Z face
            16, 18, 17, 17, 18, 19,
            // +Z face
            20, 21, 22, 21, 23, 22,
        ];
        let m = Mesh { positions, colors, indices: Some(indices) };
        assert(indices_in_range(m.index_seq().unwrap(), 24));
        m
    }
}

} // verus!

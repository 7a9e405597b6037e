//! The background grid: a square lattice of `(resolution + 1)²` nodes over the
//! unit square, stored as one flat array.
//!
//! Node `(i, j)` sits at the point `(i / resolution, j / resolution)`. The
//! functions here answer, in exact integer arithmetic, where a node lives in
//! the flat array, which nine nodes a particle touches, and which wall rule a
//! node obeys.

use vstd::prelude::*;

verus! {

/// The wall band is one `BAND_DIVISOR`-th of the domain wide.
pub const BAND_DIVISOR: usize = 20;

/// Number of nodes a particle touches along each axis.
pub const STENCIL_WIDTH: usize = 3;

/// Why a grid could not be built.
#[derive(Clone, Copy, Debug, PartialEq, Eq, Structural)]
pub enum GridError {
    /// The resolution is zero: the grid would have no cell.
    ZeroResolution,
    /// The number of nodes does not fit in a `usize`.
    ResolutionTooLarge,
}

/// What the grid update does to a node once its velocity has been normalised
/// and gravity applied. The two rules are independent of each other.
#[derive(Clone, Copy, Debug, PartialEq, Eq, Structural)]
pub struct NodeRule {
    /// The node lies in the band along the left, right or top wall: its
    /// velocity and mass are zeroed.
    pub sticky: bool,
    /// The node lies in the band along the bottom wall: its vertical velocity
    /// is kept from pointing downwards.
    pub floor: bool,
}

/// Geometry of a background grid.
#[derive(Clone, Copy, Debug, PartialEq, Eq)]
pub struct Grid {
    resolution: usize,
}

/// Number of nodes of a grid with `resolution` cells per axis.
pub open spec fn node_count_of(resolution: nat) -> nat {
    (resolution + 1) * (resolution + 1)
}

/// Whether `resolution` cells per axis make a grid that can be stored.
pub open spec fn resolution_valid(resolution: nat) -> bool {
    1 <= resolution && node_count_of(resolution) <= usize::MAX
}

/// Flat position of node `(i, j)` in a grid with `resolution` cells per axis:
/// columns of constant `i` are stored one after the other.
pub open spec fn flat_index(resolution: nat, i: nat, j: nat) -> nat {
    i * (resolution + 1) + j
}

/// Whether node `(i, j)` lies in the band along the left, right or top wall:
/// its x-coordinate is less than 1/20 or more than 19/20, or its y-coordinate
/// is more than 19/20.
pub open spec fn in_sticky_band(resolution: nat, i: nat, j: nat) -> bool {
    ||| BAND_DIVISOR * i < resolution
    ||| BAND_DIVISOR * i > (BAND_DIVISOR - 1) * resolution
    ||| BAND_DIVISOR * j > (BAND_DIVISOR - 1) * resolution
}

/// Whether node `(i, j)` lies in the band along the bottom wall: its
/// y-coordinate is less than 1/20.
pub open spec fn in_floor_band(resolution: nat, j: nat) -> bool {
    BAND_DIVISOR * j < resolution
}

/// Whether a stencil whose lower corner is node `(base_x, base_y)` lies
/// wholly inside the grid.
pub open spec fn stencil_fits(resolution: nat, base_x: int, base_y: int) -> bool {
    &&& 0 <= base_x && base_x + STENCIL_WIDTH <= resolution + 1
    &&& 0 <= base_y && base_y + STENCIL_WIDTH <= resolution + 1
}

/// Flat positions of the nine nodes of the stencil whose lower corner is
/// node `(base_x, base_y)`: node `(base_x + i, base_y + j)` stands at
/// position `3 * i + j`.
pub open spec fn stencil_nodes(resolution: nat, base_x: nat, base_y: nat) -> Seq<usize> {
    Seq::new(
        (STENCIL_WIDTH * STENCIL_WIDTH) as nat,
        |k: int|
            flat_index(
                resolution,
                (base_x + k / STENCIL_WIDTH as int) as nat,
                (base_y + k % STENCIL_WIDTH as int) as nat,
            ) as usize,
    )
}

impl View for Grid {
    type V = nat;

    /// A grid is modelled by its resolution.
    closed spec fn view(&self) -> nat {
        self.resolution as nat
    }
}

impl Grid {
    /// The invariant every grid handed out by [`Grid::new`] satisfies.
    pub open spec fn well_formed(&self) -> bool {
        resolution_valid(self@)
    }

    /// Builds the geometry of a grid with `resolution` cells per axis.
    pub fn new(resolution: usize) -> (r: Result<Grid, GridError>)
        ensures
            match r {
                Ok(g) => resolution_valid(resolution as nat) && g@ == resolution && g.well_formed(),
                Err(GridError::ZeroResolution) => resolution == 0,
                Err(GridError::ResolutionTooLarge) => resolution >= 1 && !resolution_valid(
                    resolution as nat,
                ),
            },
    {
        if resolution == 0 {
            return Err(GridError::ZeroResolution);
        }
        match resolution.checked_add(1) {
            None => {
                assert(node_count_of(resolution as nat) > usize::MAX) by (nonlinear_arith)
                    requires
                        resolution + 1 > usize::MAX,
                ;
                Err(GridError::ResolutionTooLarge)
            },
            Some(side) => match side.checked_mul(side) {
                None => Err(GridError::ResolutionTooLarge),
                Some(_) => Ok(Grid { resolution }),
            },
        }
    }

    /// Cells per axis.
    pub fn resolution(&self) -> (r: usize)
        ensures
            r == self@,
    {
        self.resolution
    }

    /// Nodes per axis.
    pub fn side(&self) -> (r: usize)
        requires
            self.well_formed(),
        ensures
            r == self@ + 1,
    {
        proof {
            lemma_side_fits(self@);
        }
        self.resolution + 1
    }

    /// Nodes in the whole grid: the length of the flat array.
    pub fn node_count(&self) -> (r: usize)
        requires
            self.well_formed(),
        ensures
            r == node_count_of(self@),
    {
        let side = self.side();
        side * side
    }

    /// Flat position of node `(i, j)`, or `None` where the grid has no such
    /// node.
    pub fn node_index(&self, i: usize, j: usize) -> (r: Option<usize>)
        requires
            self.well_formed(),
        ensures
            r == if i <= self@ && j <= self@ {
                Some(flat_index(self@, i as nat, j as nat) as usize)
            } else {
                None
            },
            r matches Some(k) ==> k == flat_index(self@, i as nat, j as nat) && k < node_count_of(
                self@,
            ),
    {
        if i > self.resolution || j > self.resolution {
            return None;
        }
        let side = self.side();
        proof {
            lemma_flat_index_in_range(self@, i as nat, j as nat);
        }
        Some(i * side + j)
    }

    /// The node stored at flat position `k`, or `None` where `k` is past the
    /// end of the array. Inverse of [`Grid::node_index`].
    pub fn node_coords(&self, k: usize) -> (r: Option<(usize, usize)>)
        requires
            self.well_formed(),
        ensures
            r == if k < node_count_of(self@) {
                Some(((k as nat / (self@ + 1)) as usize, (k as nat % (self@ + 1)) as usize))
            } else {
                None
            },
            r matches Some(c) ==> c.0 <= self@ && c.1 <= self@ && flat_index(
                self@,
                c.0 as nat,
                c.1 as nat,
            ) == k,
    {
        if k >= self.node_count() {
            return None;
        }
        let side = self.side();
        proof {
            lemma_coords_of_flat_index(self@, k as nat);
        }
        Some((k / side, k % side))
    }

    /// The wall rules that node `(i, j)` obeys.
    pub fn node_rule(&self, i: usize, j: usize) -> (r: NodeRule)
        requires
            self.well_formed(),
        ensures
            r.sticky == in_sticky_band(self@, i as nat, j as nat),
            r.floor == in_floor_band(self@, j as nat),
            i == 0 || i == self@ ==> r.sticky,
    {
        let n = self.resolution as u128;
        let x = i as u128;
        let y = j as u128;
        let d = BAND_DIVISOR as u128;
        assert((d - 1) * n == 19 * n && d * x == 20 * x && d * y == 20 * y) by (nonlinear_arith)
            requires
                d == 20,
        ;
        let inner = (d - 1) * n;
        NodeRule { sticky: d * x < n || d * x > inner || d * y > inner, floor: d * y < n }
    }

    /// Flat positions of the nine nodes that a particle touches, given the
    /// lower corner `(base_x, base_y)` of its stencil. Node `(base_x + i,
    /// base_y + j)` stands at position `3 * i + j` of the result. `None`
    /// where part of the stencil would fall outside the grid.
    pub fn stencil(&self, base_x: i32, base_y: i32) -> (r: Option<[usize; 9]>)
        requires
            self.well_formed(),
        ensures
            r is Some <==> stencil_fits(self@, base_x as int, base_y as int),
            r matches Some(nodes) ==> nodes@ == stencil_nodes(
                self@,
                base_x as nat,
                base_y as nat,
            ),
    {
        if base_x < 0 || base_y < 0 {
            return None;
        }
        let bx = base_x as usize;
        let by = base_y as usize;
        if self.resolution < 2 || bx > self.resolution - 2 || by > self.resolution - 2 {
            return None;
        }
        let side = self.side();
        proof {
            lemma_flat_index_in_range(self@, (bx + 2) as nat, (by + 2) as nat);
            assert((bx + 1) * side == bx * side + side) by (nonlinear_arith);
            assert((bx + 2) * side == bx * side + 2 * side) by (nonlinear_arith);
        }
        let c0 = bx * side + by;
        let c1 = c0 + side;
        let c2 = c1 + side;
        let nodes = [c0, c0 + 1, c0 + 2, c1, c1 + 1, c1 + 2, c2, c2 + 1, c2 + 2];
        assert(nodes@ =~= stencil_nodes(self@, base_x as nat, base_y as nat));
        Some(nodes)
    }
}

/// A node on the left or right wall, that is with x-coordinate zero or one,
/// is sticky wherever it stands along the wall; so is a node on the top
/// wall. A node on the bottom wall obeys the floor rule.
pub proof fn lemma_walls(resolution: nat, i: nat, j: nat)
    requires
        resolution_valid(resolution),
    ensures
        i == 0 || i == resolution ==> in_sticky_band(resolution, i, j),
        j == resolution ==> in_sticky_band(resolution, i, j),
        j == 0 ==> in_floor_band(resolution, j),
{
}

/// Two nodes of the grid that share a flat position are the same node, and
/// the node of a flat position is found by dividing by the side.
pub proof fn lemma_flat_index_unique(resolution: nat, i: nat, j: nat, k: nat, l: nat)
    requires
        j <= resolution,
        l <= resolution,
    ensures
        flat_index(resolution, i, j) / (resolution + 1) == i,
        flat_index(resolution, i, j) % (resolution + 1) == j,
        flat_index(resolution, i, j) == flat_index(resolution, k, l) ==> i == k && j == l,
{
    let side = (resolution + 1) as int;
    vstd::arithmetic::div_mod::lemma_fundamental_div_mod_converse(
        flat_index(resolution, i, j) as int,
        side,
        i as int,
        j as int,
    );
    vstd::arithmetic::div_mod::lemma_fundamental_div_mod_converse(
        flat_index(resolution, k, l) as int,
        side,
        k as int,
        l as int,
    );
}

/// The nine nodes of a stencil that fits are nine different places of the
/// flat array.
pub proof fn lemma_stencil_nodes_distinct(resolution: nat, base_x: nat, base_y: nat)
    requires
        resolution_valid(resolution),
        stencil_fits(resolution, base_x as int, base_y as int),
    ensures
        stencil_nodes(resolution, base_x, base_y).len() == 9,
        forall|k: int|
            0 <= k < 9 ==> (#[trigger] stencil_nodes(resolution, base_x, base_y)[k])
                < node_count_of(resolution),
        forall|k: int, l: int|
            0 <= k < l < 9 ==> stencil_nodes(resolution, base_x, base_y)[k] != stencil_nodes(
                resolution,
                base_x,
                base_y,
            )[l],
{
    let nodes = stencil_nodes(resolution, base_x, base_y);
    assert forall|k: int| 0 <= k < 9 implies (#[trigger] nodes[k]) < node_count_of(resolution)
        && nodes[k] == flat_index(resolution, (base_x + k / 3) as nat, (base_y + k % 3) as nat) by {
        lemma_flat_index_in_range(resolution, (base_x + k / 3) as nat, (base_y + k % 3) as nat);
    }
    assert forall|k: int, l: int| 0 <= k < l < 9 implies nodes[k] != nodes[l] by {
        lemma_flat_index_unique(
            resolution,
            (base_x + k / 3) as nat,
            (base_y + k % 3) as nat,
            (base_x + l / 3) as nat,
            (base_y + l % 3) as nat,
        );
    }
}

/// The number of nodes per axis of a storable grid fits in a `usize`.
proof fn lemma_side_fits(resolution: nat)
    requires
        resolution_valid(resolution),
    ensures
        resolution + 1 <= usize::MAX,
{
    assert(resolution + 1 <= (resolution + 1) * (resolution + 1)) by (nonlinear_arith);
}

/// A node inside the grid has a flat position inside the array.
proof fn lemma_flat_index_in_range(resolution: nat, i: nat, j: nat)
    requires
        i <= resolution,
        j <= resolution,
    ensures
        flat_index(resolution, i, j) < node_count_of(resolution),
        i * (resolution + 1) <= flat_index(resolution, i, j),
{
    assert(i * (resolution + 1) + j < (resolution + 1) * (resolution + 1)) by (nonlinear_arith)
        requires
            i <= resolution,
            j <= resolution,
    ;
}

/// Quotient and remainder by the side recover the node of a flat position.
proof fn lemma_coords_of_flat_index(resolution: nat, k: nat)
    requires
        k < node_count_of(resolution),
    ensures
        k / (resolution + 1) <= resolution,
        k % (resolution + 1) <= resolution,
        flat_index(resolution, k / (resolution + 1), k % (resolution + 1)) == k,
{
    let side = resolution + 1;
    vstd::arithmetic::div_mod::lemma_fundamental_div_mod(k as int, side as int);
    vstd::arithmetic::div_mod::lemma_mod_bound(k as int, side as int);
    vstd::arithmetic::div_mod::lemma_div_pos_is_pos(k as int, side as int);
    let q = k / side;
    assert(q <= resolution) by (nonlinear_arith)
        requires
            k < side * side,
            k == side * q + k % side,
            0 <= k % side,
            side == resolution + 1,
    ;
    assert(q * side == side * q) by (nonlinear_arith);
}

} // verus!

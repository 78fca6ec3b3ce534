use vstd::prelude::*;

verus! {

/// The number of vertices that 32-bit indices can address.
pub open spec fn max_vertices() -> int {
    0x1_0000_0000
}

/// One vertex of the wall grid: column `col` (of `cols`) in row `row` of wall `edge`.
///
/// Wall `edge` runs from boundary point `edge` to the next one; the vertex
/// lies at fraction `col / cols` along it, `row` grid cells above the floor.
#[derive(Debug, Clone, Copy, PartialEq, Eq, Structural)]
pub struct GridVertex {
    pub edge: usize,
    pub row: u32,
    pub col: u32,
    pub cols: u32,
}

/// The topology of the chaperone mesh: its vertices in buffer order, and the
/// triangle list over them.
#[derive(Debug)]
pub struct MeshLayout {
    pub vertices: Vec<GridVertex>,
    pub indices: Vec<u32>,
}

/// A cell count of at least one.
pub open spec fn at_least_one(n: u32) -> nat {
    if n == 0 {
        1
    } else {
        n as nat
    }
}

/// The first `ncols` vertices of row `row` of wall `edge`.
pub open spec fn row_vertices(edge: usize, row: nat, cols: nat, ncols: nat) -> Seq<GridVertex>
    decreases ncols,
{
    if ncols == 0 {
        Seq::empty()
    } else {
        row_vertices(edge, row, cols, (ncols - 1) as nat).push(
            GridVertex { edge, row: row as u32, col: (ncols - 1) as u32, cols: cols as u32 },
        )
    }
}

/// The first `nrows` rows of vertices of wall `edge`, each of `cols + 1` vertices.
pub open spec fn grid_vertices(edge: usize, cols: nat, nrows: nat) -> Seq<GridVertex>
    decreases nrows,
{
    if nrows == 0 {
        Seq::empty()
    } else {
        grid_vertices(edge, cols, (nrows - 1) as nat) + row_vertices(
            edge,
            (nrows - 1) as nat,
            cols,
            cols + 1,
        )
    }
}

/// The two triangles of the grid cell whose top-left vertex is `tl`, in a
/// grid whose rows are `stride` vertices apart.
pub open spec fn quad(tl: int, stride: int) -> Seq<int> {
    seq![tl, tl + stride, tl + stride + 1, tl, tl + stride + 1, tl + 1]
}

/// The triangles of the first `ncols` cells of row `row` of a grid starting at vertex `base`.
pub open spec fn row_quads(base: int, stride: int, row: int, ncols: nat) -> Seq<int>
    decreases ncols,
{
    if ncols == 0 {
        Seq::empty()
    } else {
        row_quads(base, stride, row, (ncols - 1) as nat) + quad(
            base + row * stride + ncols - 1,
            stride,
        )
    }
}

/// The triangles of the first `nrows` rows of cells of a grid of `cols`
/// cells per row, starting at vertex `base`.
pub open spec fn grid_quads(base: int, cols: nat, nrows: nat) -> Seq<int>
    decreases nrows,
{
    if nrows == 0 {
        Seq::empty()
    } else {
        grid_quads(base, cols, (nrows - 1) as nat) + row_quads(
            base,
            (cols + 1) as int,
            nrows - 1,
            cols,
        )
    }
}

/// Vertices and indices of the walls of the first `n` edges, with `rows`
/// cell rows; an edge given as `None` is too short and has no wall.
pub open spec fn walls_upto(edges: Seq<Option<u32>>, rows: nat, n: nat) -> (Seq<GridVertex>, Seq<int>)
    decreases n,
{
    if n == 0 {
        (Seq::empty(), Seq::empty())
    } else {
        let prev = walls_upto(edges, rows, (n - 1) as nat);
        match edges[n - 1] {
            None => prev,
            Some(c) => {
                let cols = at_least_one(c);
                (
                    prev.0 + grid_vertices((n - 1) as usize, cols, rows + 1),
                    prev.1 + grid_quads(prev.0.len() as int, cols, rows),
                )
            },
        }
    }
}

/// The mesh of a boundary with edges `edges`: nothing for fewer than three
/// edges, else every wall in edge order with at least one cell row.
pub open spec fn mesh_layout(edges: Seq<Option<u32>>, rows: u32) -> (Seq<GridVertex>, Seq<int>) {
    if edges.len() < 3 {
        (Seq::empty(), Seq::empty())
    } else {
        walls_upto(edges, at_least_one(rows), edges.len())
    }
}

/// The values of a sequence of indices, as integers.
pub open spec fn index_values(s: Seq<u32>) -> Seq<int> {
    s.map_values(|x: u32| x as int)
}

proof fn lemma_row_vertices(edge: usize, row: nat, cols: nat, ncols: nat)
    ensures
        row_vertices(edge, row, cols, ncols).len() == ncols,
        forall|k: int|
            0 <= k < ncols ==> #[trigger] row_vertices(edge, row, cols, ncols)[k] == (GridVertex {
                edge,
                row: row as u32,
                col: k as u32,
                cols: cols as u32,
            }),
    decreases ncols,
{
    if ncols > 0 {
        lemma_row_vertices(edge, row, cols, (ncols - 1) as nat);
    }
}

proof fn lemma_grid_vertices(edge: usize, cols: nat, nrows: nat)
    ensures
        grid_vertices(edge, cols, nrows).len() == nrows * (cols + 1),
        forall|k: int|
            0 <= k < grid_vertices(edge, cols, nrows).len() ==> (#[trigger] grid_vertices(
                edge,
                cols,
                nrows,
            )[k]).edge == edge,
    decreases nrows,
{
    if nrows == 0 {
        assert(nrows * (cols + 1) == 0) by (nonlinear_arith)
            requires nrows == 0;
    } else {
        let r = (nrows - 1) as nat;
        lemma_grid_vertices(edge, cols, r);
        lemma_row_vertices(edge, r, cols, cols + 1);
        assert(nrows * (cols + 1) == r * (cols + 1) + (cols + 1)) by (nonlinear_arith)
            requires r == nrows - 1;
        let a = grid_vertices(edge, cols, r);
        let b = row_vertices(edge, r, cols, cols + 1);
        assert(grid_vertices(edge, cols, nrows) == a + b);
        assert forall|k: int| 0 <= k < (a + b).len() implies (#[trigger] (a + b)[k]).edge == edge by {
            if k >= a.len() {
                assert((a + b)[k] == b[k - a.len()]);
            }
        }
    }
}

proof fn lemma_row_quads(base: int, stride: int, row: int, ncols: nat)
    requires
        stride >= 1,
    ensures
        row_quads(base, stride, row, ncols).len() == 6 * ncols,
        forall|k: int|
            0 <= k < 6 * ncols ==> base + row * stride <= #[trigger] row_quads(
                base,
                stride,
                row,
                ncols,
            )[k] <= base + row * stride + ncols + stride,
    decreases ncols,
{
    if ncols > 0 {
        lemma_row_quads(base, stride, row, (ncols - 1) as nat);
        let a = row_quads(base, stride, row, (ncols - 1) as nat);
        let q = quad(base + row * stride + ncols - 1, stride);
        assert forall|k: int| 0 <= k < 6 * ncols implies base + row * stride <= #[trigger] (a + q)[k]
            <= base + row * stride + ncols + stride by {
            if k >= a.len() {
                assert((a + q)[k] == q[k - a.len()]);
            }
        }
    }
}

proof fn lemma_grid_quads(base: int, cols: nat, nrows: nat)
    requires
        cols >= 1,
    ensures
        grid_quads(base, cols, nrows).len() == 6 * nrows * cols,
        forall|k: int|
            0 <= k < 6 * nrows * cols ==> base <= #[trigger] grid_quads(base, cols, nrows)[k] < base
                + (nrows + 1) * (cols + 1),
    decreases nrows,
{
    if nrows == 0 {
        assert(6 * nrows * cols == 0) by (nonlinear_arith)
            requires nrows == 0;
    } else {
        let r = (nrows - 1) as nat;
        lemma_grid_quads(base, cols, r);
        lemma_row_quads(base, (cols + 1) as int, r as int, cols);
        let a = grid_quads(base, cols, r);
        let b = row_quads(base, (cols + 1) as int, r as int, cols);
        assert(grid_quads(base, cols, nrows) == a + b);
        assert(6 * nrows * cols == 6 * r * cols + 6 * cols) by (nonlinear_arith)
            requires r == nrows - 1;
        assert(r * (cols + 1) + cols + (cols + 1) < (nrows + 1) * (cols + 1)) by (nonlinear_arith)
            requires r == nrows - 1, cols >= 1;
        assert((r + 1) * (cols + 1) <= (nrows + 1) * (cols + 1)) by (nonlinear_arith)
            requires r == nrows - 1;
        assert(0 <= r * (cols + 1)) by (nonlinear_arith);
        assert forall|k: int| 0 <= k < 6 * nrows * cols implies base <= #[trigger] (a + b)[k] < base
            + (nrows + 1) * (cols + 1) by {
            if k >= a.len() {
                assert((a + b)[k] == b[k - a.len()]);
            }
        }
    }
}

/// Appends the vertices of wall `edge`: `rows + 1` rows of `cols + 1` vertices.
fn push_wall_vertices(vertices: &mut Vec<GridVertex>, edge: usize, rows: u32, cols: u32)
    ensures
        final(vertices)@ == old(vertices)@ + grid_vertices(edge, cols as nat, rows as nat + 1),
{
    let mut r: u64 = 0;
    while r <= rows as u64
        invariant
            r <= rows as u64 + 1,
            vertices@ == old(vertices)@ + grid_vertices(edge, cols as nat, r as nat),
        decreases rows as u64 + 1 - r,
    {
        let ghost before = vertices@;
        let mut c: u64 = 0;
        while c <= cols as u64
            invariant
                c <= cols as u64 + 1,
                r <= rows as u64,
                vertices@ == before + row_vertices(edge, r as nat, cols as nat, c as nat),
            decreases cols as u64 + 1 - c,
        {
            vertices.push(GridVertex { edge, row: r as u32, col: c as u32, cols });
            proof {
                assert(row_vertices(edge, r as nat, cols as nat, (c + 1) as nat) == row_vertices(
                    edge,
                    r as nat,
                    cols as nat,
                    c as nat,
                ).push(GridVertex { edge, row: r as u32, col: c as u32, cols }));
            }
            c += 1;
        }
        assert(grid_vertices(edge, cols as nat, (r + 1) as nat) == grid_vertices(
            edge,
            cols as nat,
            r as nat,
        ) + row_vertices(edge, r as nat, cols as nat, cols as nat + 1));
        r += 1;
    }
}

/// Appends the two triangles of the cell with top-left vertex `tl`.
fn push_quad(indices: &mut Vec<u32>, tl: u32, stride: u32)
    requires
        tl + stride + 1 <= u32::MAX,
    ensures
        index_values(final(indices)@) == index_values(old(indices)@) + quad(tl as int, stride as int),
{
    let bl = tl + stride;
    indices.push(tl);
    indices.push(bl);
    indices.push(bl + 1);
    indices.push(tl);
    indices.push(bl + 1);
    indices.push(tl + 1);
    assert(index_values(indices@) =~= index_values(old(indices)@) + quad(tl as int, stride as int));
}

/// Appends the triangles of a wall of `rows` by `cols` cells whose vertices start at `base`.
fn push_wall_indices(indices: &mut Vec<u32>, base: u64, rows: u32, cols: u32)
    requires
        cols >= 1,
        base + (rows + 1) * (cols + 1) <= max_vertices(),
    ensures
        index_values(final(indices)@) == index_values(old(indices)@) + grid_quads(
            base as int,
            cols as nat,
            rows as nat,
        ),
{
    let stride: u64 = cols as u64 + 1;
    let mut r: u64 = 0;
    while r < rows as u64
        invariant
            r <= rows,
            stride == cols + 1,
            cols >= 1,
            base + (rows + 1) * (cols + 1) <= max_vertices(),
            index_values(indices@) == index_values(old(indices)@) + grid_quads(
                base as int,
                cols as nat,
                r as nat,
            ),
        decreases rows - r,
    {
        let ghost before = index_values(indices@);
        let mut c: u64 = 0;
        while c < cols as u64
            invariant
                c <= cols,
                r < rows,
                stride == cols + 1,
                base + (rows + 1) * (cols + 1) <= max_vertices(),
                index_values(indices@) == before + row_quads(
                    base as int,
                    stride as int,
                    r as int,
                    c as nat,
                ),
            decreases cols - c,
        {
            assert(r * stride + c + stride + 1 < (rows + 1) * (cols + 1)) by (nonlinear_arith)
                requires
                    r < rows,
                    c < cols,
                    stride == cols + 1,
            ;
            assert(0 <= r * stride) by (nonlinear_arith);
            let tl = base + r * stride + c;
            push_quad(indices, tl as u32, stride as u32);
            proof {
                assert(row_quads(base as int, stride as int, r as int, (c + 1) as nat) == row_quads(
                    base as int,
                    stride as int,
                    r as int,
                    c as nat,
                ) + quad(tl as int, stride as int));
                assert(index_values(indices@) == before + row_quads(
                    base as int,
                    stride as int,
                    r as int,
                    (c + 1) as nat,
                ));
            }
            c += 1;
        }
        assert(grid_quads(base as int, cols as nat, (r + 1) as nat) == grid_quads(
            base as int,
            cols as nat,
            r as nat,
        ) + row_quads(base as int, stride as int, r as int, cols as nat));
        r += 1;
    }
}

proof fn lemma_walls_monotone(edges: Seq<Option<u32>>, rows: nat, i: nat, n: nat)
    requires
        i <= n,
    ensures
        walls_upto(edges, rows, i).0.len() <= walls_upto(edges, rows, n).0.len(),
    decreases n,
{
    if i < n {
        lemma_walls_monotone(edges, rows, i, (n - 1) as nat);
    }
}

/// Lays out the wall grid of a boundary polygon.
///
/// `edge_cols[i]` describes the wall from point `i` to the next one: `None`
/// when the edge is too short to carry a wall, else its number of grid
/// columns (at least one is used). `rows` is the number of grid rows (at least
/// one is used). A polygon of fewer than three edges has an empty mesh. Each
/// wall contributes `rows + 1` rows of `cols + 1` vertices, row by row, and two
/// triangles per cell. The result is `None` when the vertices would not all be
/// addressable by 32-bit indices.
pub fn build_mesh_layout(edge_cols: &Vec<Option<u32>>, rows: u32) -> (res: Option<MeshLayout>)
    ensures
        match res {
            Some(layout) => {
                &&& mesh_layout(edge_cols@, rows).0.len() <= max_vertices()
                &&& layout.vertices@ == mesh_layout(edge_cols@, rows).0
                &&& index_values(layout.indices@) == mesh_layout(edge_cols@, rows).1
            },
            None => mesh_layout(edge_cols@, rows).0.len() > max_vertices(),
        },
        edge_cols@.len() < 3 ==> (res matches Some(l) && l.vertices@.len() == 0 && l.indices@.len() == 0),
        res matches Some(l) ==> {
            &&& indices_in_range(l.vertices@, index_values(l.indices@))
            &&& triangles_in_cells(l.vertices@, index_values(l.indices@))
            &&& blocks_are_cells(l.vertices@, index_values(l.indices@))
        },
        res matches Some(l) ==> (edge_cols@.len() >= 3 ==> {
            &&& l.vertices@.len() == vertex_count(edge_cols@, at_least_one(rows), edge_cols@.len())
            &&& l.indices@.len() == 6 * cell_count(edge_cols@, at_least_one(rows), edge_cols@.len())
        }),
{
    proof {
        lemma_mesh_well_formed(edge_cols@, rows);
        lemma_mesh_blocks_are_cells(edge_cols@, rows);
        if edge_cols@.len() >= 3 {
            lemma_mesh_counts(edge_cols@, rows);
        }
    }
    let n = edge_cols.len();
    let mut vertices: Vec<GridVertex> = Vec::new();
    let mut indices: Vec<u32> = Vec::new();
    if n < 3 {
        assert(index_values(indices@) =~= Seq::<int>::empty());
        return Some(MeshLayout { vertices, indices });
    }
    let rows_e: u32 = if rows == 0 {
        1
    } else {
        rows
    };
    assert(index_values(indices@) =~= Seq::<int>::empty());
    let mut i: usize = 0;
    while i < n
        invariant
            n == edge_cols@.len(),
            i <= n,
            n >= 3,
            rows_e as nat == at_least_one(rows),
            rows_e >= 1,
            vertices@ == walls_upto(edge_cols@, rows_e as nat, i as nat).0,
            index_values(indices@) == walls_upto(edge_cols@, rows_e as nat, i as nat).1,
            vertices@.len() <= max_vertices(),
        decreases n - i,
    {
        match edge_cols[i] {
            None => {},
            Some(c) => {
                let cols: u32 = if c == 0 {
                    1
                } else {
                    c
                };
                let base: u64 = vertices.len() as u64;
                assert((rows_e + 1) * (cols + 1) <= 0x1_0000_0000 * 0x1_0000_0000) by (nonlinear_arith)
                    requires
                        rows_e <= u32::MAX,
                        cols <= u32::MAX,
                ;
                let block: u128 = (rows_e as u128 + 1) * (cols as u128 + 1);
                proof {
                    lemma_grid_vertices(i, cols as nat, rows_e as nat + 1);
                }
                if base as u128 + block > 0x1_0000_0000u128 {
                    proof {
                        lemma_walls_monotone(edge_cols@, rows_e as nat, (i + 1) as nat, n as nat);
                    }
                    return None;
                }
                push_wall_indices(&mut indices, base, rows_e, cols);
                push_wall_vertices(&mut vertices, i, rows_e, cols);
            },
        }
        i += 1;
    }
    Some(MeshLayout { vertices, indices })
}

/// Every index names one of the vertices.
pub open spec fn indices_in_range(vertices: Seq<GridVertex>, indices: Seq<int>) -> bool {
    forall|k: int| 0 <= k < indices.len() ==> 0 <= #[trigger] indices[k] < vertices.len()
}

/// Two grid vertices on the same wall, at most one row and one column apart.
pub open spec fn neighbours(a: GridVertex, b: GridVertex) -> bool {
    &&& a.edge == b.edge
    &&& -1 <= a.row - b.row <= 1
    &&& -1 <= a.col - b.col <= 1
}

/// Triangle `t` has three distinct corners within one grid cell of one wall.
pub open spec fn triangle_in_cell(vertices: Seq<GridVertex>, indices: Seq<int>, t: int) -> bool {
    let i = indices[3 * t];
    let j = indices[3 * t + 1];
    let k = indices[3 * t + 2];
    &&& i != j && j != k && i != k
    &&& neighbours(vertices[i], vertices[j])
    &&& neighbours(vertices[j], vertices[k])
    &&& neighbours(vertices[i], vertices[k])
}

/// The index list is a list of whole triangles, each within one grid cell of one wall.
pub open spec fn triangles_in_cells(vertices: Seq<GridVertex>, indices: Seq<int>) -> bool {
    &&& indices.len() % 3 == 0
    &&& forall|t: int|
        0 <= t < indices.len() / 3 ==> #[trigger] triangle_in_cell(vertices, indices, t)
}

/// The vertex in row `r`, column `c` of a grid of `cols + 1` columns placed at `base`.
pub open spec fn vertex_at(vertices: Seq<GridVertex>, base: int, cols: nat, r: int, c: int) -> GridVertex {
    vertices[base + r * (cols + 1) + c]
}

/// The `nrows` rows of the grid of wall `edge` lie in `vertices` from `base` on.
pub open spec fn grid_placed(vertices: Seq<GridVertex>, base: int, edge: usize, cols: nat, nrows: nat) -> bool {
    forall|r: int, c: int|
        0 <= r < nrows && 0 <= c <= cols ==> #[trigger] vertex_at(vertices, base, cols, r, c) == (
        GridVertex { edge, row: r as u32, col: c as u32, cols: cols as u32 })
}

proof fn lemma_grid_vertex_at(edge: usize, cols: nat, nrows: nat, r: int, c: int)
    requires
        0 <= r < nrows,
        0 <= c <= cols,
    ensures
        0 <= r * (cols + 1) + c < grid_vertices(edge, cols, nrows).len(),
        grid_vertices(edge, cols, nrows)[r * (cols + 1) + c] == (GridVertex {
            edge,
            row: r as u32,
            col: c as u32,
            cols: cols as u32,
        }),
    decreases nrows,
{
    let last = (nrows - 1) as nat;
    lemma_grid_vertices(edge, cols, last);
    lemma_grid_vertices(edge, cols, nrows);
    lemma_row_vertices(edge, last, cols, cols + 1);
    let a = grid_vertices(edge, cols, last);
    let b = row_vertices(edge, last, cols, cols + 1);
    assert(grid_vertices(edge, cols, nrows) == a + b);
    assert(0 <= r * (cols + 1)) by (nonlinear_arith)
        requires r >= 0;
    if r == last {
        assert(r * (cols + 1) + c == a.len() + c);
        assert((a + b)[r * (cols + 1) + c] == b[c]);
    } else {
        lemma_grid_vertex_at(edge, cols, last, r, c);
        assert(r * (cols + 1) + c < a.len()) by (nonlinear_arith)
            requires
                0 <= r < last,
                0 <= c <= cols,
                a.len() == last * (cols + 1),
        ;
    }
}

proof fn lemma_quad_in_cell(
    v: Seq<GridVertex>,
    base: int,
    edge: usize,
    cols: nat,
    nrows: nat,
    r: int,
    c: int,
)
    requires
        grid_placed(v, base, edge, cols, nrows),
        0 <= r,
        r + 1 < nrows,
        0 <= c < cols,
        nrows <= u32::MAX + 1,
        cols <= u32::MAX,
    ensures
        triangle_in_cell(v, quad(base + r * (cols + 1) + c, (cols + 1) as int), 0),
        triangle_in_cell(v, quad(base + r * (cols + 1) + c, (cols + 1) as int), 1),
{
    let s = (cols + 1) as int;
    let q = quad(base + r * s + c, s);
    assert(base + r * s + c + s == base + (r + 1) * s + c) by (nonlinear_arith);
    assert(vertex_at(v, base, cols, r, c) == v[q[0]]);
    assert(vertex_at(v, base, cols, r + 1, c) == v[q[1]]);
    assert(vertex_at(v, base, cols, r + 1, c + 1) == v[q[2]]);
    assert(vertex_at(v, base, cols, r, c + 1) == v[q[5]]);
    assert(q[3] == q[0] && q[4] == q[2]);
}

proof fn lemma_row_quads_in_cells(
    v: Seq<GridVertex>,
    base: int,
    edge: usize,
    cols: nat,
    nrows: nat,
    r: int,
    ncols: nat,
)
    requires
        grid_placed(v, base, edge, cols, nrows),
        0 <= r,
        r + 1 < nrows,
        ncols <= cols,
        nrows <= u32::MAX + 1,
        cols <= u32::MAX,
    ensures
        forall|t: int|
            0 <= t < 2 * ncols ==> #[trigger] triangle_in_cell(
                v,
                row_quads(base, (cols + 1) as int, r, ncols),
                t,
            ),
    decreases ncols,
{
    if ncols > 0 {
        let s = (cols + 1) as int;
        lemma_row_quads_in_cells(v, base, edge, cols, nrows, r, (ncols - 1) as nat);
        lemma_row_quads(base, s, r, (ncols - 1) as nat);
        lemma_quad_in_cell(v, base, edge, cols, nrows, r, ncols - 1);
        let a = row_quads(base, s, r, (ncols - 1) as nat);
        let qq = quad(base + r * s + ncols - 1, s);
        assert(row_quads(base, s, r, ncols) == a + qq);
        assert forall|t: int| 0 <= t < 2 * ncols implies #[trigger] triangle_in_cell(v, a + qq, t) by {
            if t < 2 * (ncols - 1) {
                assert(triangle_in_cell(v, a, t));
                assert((a + qq)[3 * t] == a[3 * t]);
                assert((a + qq)[3 * t + 1] == a[3 * t + 1]);
                assert((a + qq)[3 * t + 2] == a[3 * t + 2]);
            } else {
                let m = t - 2 * (ncols - 1);
                assert(triangle_in_cell(v, qq, m));
                assert((a + qq)[3 * t] == qq[3 * m]);
                assert((a + qq)[3 * t + 1] == qq[3 * m + 1]);
                assert((a + qq)[3 * t + 2] == qq[3 * m + 2]);
            }
        }
    }
}

proof fn lemma_grid_quads_in_cells(v: Seq<GridVertex>, base: int, edge: usize, cols: nat, nrows: nat)
    requires
        grid_placed(v, base, edge, cols, nrows + 1),
        cols >= 1,
        nrows <= u32::MAX,
        cols <= u32::MAX,
    ensures
        forall|t: int|
            0 <= t < 2 * nrows * cols ==> #[trigger] triangle_in_cell(v, grid_quads(base, cols, nrows), t),
    decreases nrows,
{
    if nrows == 0 {
        assert(2 * nrows * cols == 0) by (nonlinear_arith)
            requires nrows == 0;
    } else {
        let r = (nrows - 1) as nat;
        let s = (cols + 1) as int;
        assert forall|rr: int, c: int| 0 <= rr < r + 1 && 0 <= c <= cols implies #[trigger] vertex_at(
            v,
            base,
            cols,
            rr,
            c,
        ) == (GridVertex { edge, row: rr as u32, col: c as u32, cols: cols as u32 }) by {
            assert(vertex_at(v, base, cols, rr, c) == vertex_at(v, base, cols, rr, c));
        }
        lemma_grid_quads_in_cells(v, base, edge, cols, r);
        lemma_grid_quads(base, cols, r);
        lemma_row_quads_in_cells(v, base, edge, cols, nrows + 1, r as int, cols);
        lemma_row_quads(base, s, r as int, cols);
        let a = grid_quads(base, cols, r);
        let b = row_quads(base, s, r as int, cols);
        assert(grid_quads(base, cols, nrows) == a + b);
        assert(2 * nrows * cols == 2 * r * cols + 2 * cols) by (nonlinear_arith)
            requires r == nrows - 1;
        assert(6 * r * cols == 3 * (2 * r * cols)) by (nonlinear_arith);
        assert forall|t: int| 0 <= t < 2 * nrows * cols implies #[trigger] triangle_in_cell(v, a + b, t) by {
            if t < 2 * r * cols {
                assert(triangle_in_cell(v, a, t));
                assert((a + b)[3 * t] == a[3 * t]);
                assert((a + b)[3 * t + 1] == a[3 * t + 1]);
                assert((a + b)[3 * t + 2] == a[3 * t + 2]);
            } else {
                let m = t - 2 * r * cols;
                assert(triangle_in_cell(v, b, m));
                assert((a + b)[3 * t] == b[3 * m]);
                assert((a + b)[3 * t + 1] == b[3 * m + 1]);
                assert((a + b)[3 * t + 2] == b[3 * m + 2]);
            }
        }
    }
}

/// The number of grid cells on the walls of the first `n` edges.
pub open spec fn cell_count(edges: Seq<Option<u32>>, rows: nat, n: nat) -> nat
    decreases n,
{
    if n == 0 {
        0
    } else {
        cell_count(edges, rows, (n - 1) as nat) + match edges[n - 1] {
            None => 0,
            Some(c) => rows * at_least_one(c),
        }
    }
}

/// The number of grid vertices on the walls of the first `n` edges.
pub open spec fn vertex_count(edges: Seq<Option<u32>>, rows: nat, n: nat) -> nat
    decreases n,
{
    if n == 0 {
        0
    } else {
        vertex_count(edges, rows, (n - 1) as nat) + match edges[n - 1] {
            None => 0,
            Some(c) => (rows + 1) * (at_least_one(c) + 1),
        }
    }
}

proof fn lemma_appended_grid_placed(v: Seq<GridVertex>, e: usize, cols: nat, nrows: nat)
    ensures
        grid_placed(v + grid_vertices(e, cols, nrows), v.len() as int, e, cols, nrows),
{
    let g = grid_vertices(e, cols, nrows);
    let v2 = v + g;
    let base = v.len() as int;
    assert forall|r: int, cc: int| 0 <= r < nrows && 0 <= cc <= cols implies #[trigger] vertex_at(
        v2,
        base,
        cols,
        r,
        cc,
    ) == (GridVertex { edge: e, row: r as u32, col: cc as u32, cols: cols as u32 }) by {
        lemma_grid_vertex_at(e, cols, nrows, r, cc);
        assert(v2[base + r * (cols + 1) + cc] == g[r * (cols + 1) + cc]);
    }
}

proof fn lemma_append_wall(v: Seq<GridVertex>, ix: Seq<int>, e: usize, cols: nat, rows: nat)
    requires
        indices_in_range(v, ix),
        triangles_in_cells(v, ix),
        1 <= cols <= u32::MAX,
        rows <= u32::MAX,
    ensures
        indices_in_range(v + grid_vertices(e, cols, rows + 1), ix + grid_quads(v.len() as int, cols, rows)),
        triangles_in_cells(v + grid_vertices(e, cols, rows + 1), ix + grid_quads(v.len() as int, cols, rows)),
{
    let g = grid_vertices(e, cols, rows + 1);
    let base = v.len() as int;
    let q = grid_quads(base, cols, rows);
    lemma_grid_vertices(e, cols, rows + 1);
    lemma_grid_quads(base, cols, rows);
    let v2 = v + g;
    let ix2 = ix + q;
    assert(6 * rows * cols == 3 * (2 * rows * cols)) by (nonlinear_arith);
    lemma_appended_grid_placed(v, e, cols, rows + 1);
    lemma_grid_quads_in_cells(v2, base, e, cols, rows);
    assert forall|k: int| 0 <= k < ix2.len() implies 0 <= #[trigger] ix2[k] < v2.len() by {
        if k >= ix.len() {
            assert(ix2[k] == q[k - ix.len()]);
        } else {
            assert(ix2[k] == ix[k]);
        }
    }
    assert forall|t: int| 0 <= t < ix2.len() / 3 implies #[trigger] triangle_in_cell(v2, ix2, t) by {
        if 3 * t < ix.len() {
            assert(triangle_in_cell(v, ix, t));
            assert(ix2[3 * t] == ix[3 * t]);
            assert(ix2[3 * t + 1] == ix[3 * t + 1]);
            assert(ix2[3 * t + 2] == ix[3 * t + 2]);
            assert(v2[ix[3 * t]] == v[ix[3 * t]]);
            assert(v2[ix[3 * t + 1]] == v[ix[3 * t + 1]]);
            assert(v2[ix[3 * t + 2]] == v[ix[3 * t + 2]]);
        } else {
            let m = t - ix.len() / 3;
            assert(triangle_in_cell(v2, q, m));
            assert(ix2[3 * t] == q[3 * m]);
            assert(ix2[3 * t + 1] == q[3 * m + 1]);
            assert(ix2[3 * t + 2] == q[3 * m + 2]);
        }
    }
}

proof fn lemma_walls_well_formed(edges: Seq<Option<u32>>, rows: nat, n: nat)
    requires
        n <= edges.len(),
        rows <= u32::MAX,
    ensures
        indices_in_range(walls_upto(edges, rows, n).0, walls_upto(edges, rows, n).1),
        triangles_in_cells(walls_upto(edges, rows, n).0, walls_upto(edges, rows, n).1),
        walls_upto(edges, rows, n).0.len() == vertex_count(edges, rows, n),
        walls_upto(edges, rows, n).1.len() == 6 * cell_count(edges, rows, n),
    decreases n,
{
    if n > 0 {
        lemma_walls_well_formed(edges, rows, (n - 1) as nat);
        let (v, ix) = walls_upto(edges, rows, (n - 1) as nat);
        match edges[n - 1] {
            None => {},
            Some(c) => {
                let cols = at_least_one(c);
                let e = (n - 1) as usize;
                lemma_grid_vertices(e, cols, rows + 1);
                lemma_grid_quads(v.len() as int, cols, rows);
                assert(6 * rows * cols == 6 * (rows * cols)) by (nonlinear_arith);
                lemma_append_wall(v, ix, e, cols, rows);
            },
        }
    }
}

/// Every index of the mesh names one of its vertices, and every triangle has
/// three distinct corners within one grid cell of one wall.
pub proof fn lemma_mesh_well_formed(edges: Seq<Option<u32>>, rows: u32)
    ensures
        indices_in_range(mesh_layout(edges, rows).0, mesh_layout(edges, rows).1),
        triangles_in_cells(mesh_layout(edges, rows).0, mesh_layout(edges, rows).1),
{
    if edges.len() >= 3 {
        lemma_walls_well_formed(edges, at_least_one(rows), edges.len());
    }
}

/// A mesh of at least three edges has `rows + 1` rows of `cols + 1` vertices
/// per wall and two triangles per grid cell.
pub proof fn lemma_mesh_counts(edges: Seq<Option<u32>>, rows: u32)
    requires
        edges.len() >= 3,
    ensures
        mesh_layout(edges, rows).0.len() == vertex_count(edges, at_least_one(rows), edges.len()),
        mesh_layout(edges, rows).1.len() == 6 * cell_count(edges, at_least_one(rows), edges.len()),
{
    lemma_walls_well_formed(edges, at_least_one(rows), edges.len());
}

/// A polygon of fewer than three points has an empty mesh.
pub proof fn lemma_short_polygon_has_no_mesh(edges: Seq<Option<u32>>, rows: u32)
    requires
        edges.len() < 3,
    ensures
        mesh_layout(edges, rows).0.len() == 0,
        mesh_layout(edges, rows).1.len() == 0,
{
}

/// Index block `b` (indices `6 * b` to `6 * b + 5`) is the two triangles of one
/// grid cell: with `tl` its top-left vertex and `s` the number of vertices per
/// row of its wall, the block is `[tl, tl + s, tl + s + 1, tl, tl + s + 1, tl + 1]`,
/// and those four vertices are the corners (row, col), (row + 1, col),
/// (row + 1, col + 1) and (row, col + 1) of one cell of one wall.
pub open spec fn block_is_cell(vertices: Seq<GridVertex>, indices: Seq<int>, b: int) -> bool {
    let tl = indices[6 * b];
    let a = vertices[tl];
    let s = a.cols + 1;
    &&& 0 <= tl
    &&& tl + s + 1 < vertices.len()
    &&& a.col < a.cols
    &&& indices[6 * b + 1] == tl + s
    &&& indices[6 * b + 2] == tl + s + 1
    &&& indices[6 * b + 3] == tl
    &&& indices[6 * b + 4] == tl + s + 1
    &&& indices[6 * b + 5] == tl + 1
    &&& vertices[tl + 1] == GridVertex { edge: a.edge, row: a.row, col: (a.col + 1) as u32, cols: a.cols }
    &&& vertices[tl + s] == GridVertex { edge: a.edge, row: (a.row + 1) as u32, col: a.col, cols: a.cols }
    &&& vertices[tl + s + 1] == GridVertex {
        edge: a.edge,
        row: (a.row + 1) as u32,
        col: (a.col + 1) as u32,
        cols: a.cols,
    }
}

/// The index list is a list of six-index blocks, each the two triangles of one grid cell.
pub open spec fn blocks_are_cells(vertices: Seq<GridVertex>, indices: Seq<int>) -> bool {
    &&& indices.len() % 6 == 0
    &&& forall|b: int| 0 <= b < indices.len() / 6 ==> #[trigger] block_is_cell(vertices, indices, b)
}

/// Block `b` of `x` and block `b2` of `y` hold the same six indices.
pub open spec fn same_block(x: Seq<int>, b: int, y: Seq<int>, b2: int) -> bool {
    forall|j: int| 0 <= j < 6 ==> #[trigger] x[6 * b + j] == y[6 * b2 + j]
}

proof fn lemma_same_block_cell(v: Seq<GridVertex>, x: Seq<int>, b: int, y: Seq<int>, b2: int)
    requires
        same_block(x, b, y, b2),
        block_is_cell(v, y, b2),
    ensures
        block_is_cell(v, x, b),
{
    assert(x[6 * b + 0] == y[6 * b2 + 0]);
    assert(x[6 * b + 1] == y[6 * b2 + 1]);
    assert(x[6 * b + 2] == y[6 * b2 + 2]);
    assert(x[6 * b + 3] == y[6 * b2 + 3]);
    assert(x[6 * b + 4] == y[6 * b2 + 4]);
    assert(x[6 * b + 5] == y[6 * b2 + 5]);
}

proof fn lemma_quad_block(
    v: Seq<GridVertex>,
    base: int,
    edge: usize,
    cols: nat,
    nrows: nat,
    r: int,
    c: int,
)
    requires
        grid_placed(v, base, edge, cols, nrows),
        base + nrows * (cols + 1) <= v.len(),
        0 <= base,
        0 <= r,
        r + 1 < nrows,
        0 <= c < cols,
        nrows <= u32::MAX + 1,
        cols <= u32::MAX,
    ensures
        block_is_cell(v, quad(base + r * (cols + 1) + c, (cols + 1) as int), 0),
{
    let s = (cols + 1) as int;
    let tl = base + r * s + c;
    let q = quad(tl, s);
    assert(tl + s == base + (r + 1) * s + c) by (nonlinear_arith)
        requires tl == base + r * s + c;
    assert(base + (r + 1) * s + c + 1 < base + nrows * s) by (nonlinear_arith)
        requires
            r + 1 < nrows,
            c < cols,
            s == cols + 1,
    ;
    assert(0 <= r * s) by (nonlinear_arith)
        requires r >= 0, s >= 1;
    assert(vertex_at(v, base, cols, r, c) == v[tl]);
    assert(vertex_at(v, base, cols, r, c + 1) == v[tl + 1]);
    assert(vertex_at(v, base, cols, r + 1, c) == v[tl + s]);
    assert(vertex_at(v, base, cols, r + 1, c + 1) == v[tl + s + 1]);
    assert(q[0] == tl);
}

proof fn lemma_row_quads_blocks(
    v: Seq<GridVertex>,
    base: int,
    edge: usize,
    cols: nat,
    nrows: nat,
    r: int,
    ncols: nat,
)
    requires
        grid_placed(v, base, edge, cols, nrows),
        base + nrows * (cols + 1) <= v.len(),
        0 <= base,
        0 <= r,
        r + 1 < nrows,
        ncols <= cols,
        nrows <= u32::MAX + 1,
        cols <= u32::MAX,
    ensures
        forall|b: int|
            0 <= b < ncols ==> #[trigger] block_is_cell(v, row_quads(base, (cols + 1) as int, r, ncols), b),
    decreases ncols,
{
    if ncols > 0 {
        let s = (cols + 1) as int;
        lemma_row_quads_blocks(v, base, edge, cols, nrows, r, (ncols - 1) as nat);
        lemma_row_quads(base, s, r, (ncols - 1) as nat);
        lemma_quad_block(v, base, edge, cols, nrows, r, ncols - 1);
        let a = row_quads(base, s, r, (ncols - 1) as nat);
        let qq = quad(base + r * s + ncols - 1, s);
        assert(row_quads(base, s, r, ncols) == a + qq);
        assert forall|b: int| 0 <= b < ncols implies #[trigger] block_is_cell(v, a + qq, b) by {
            if b < ncols - 1 {
                assert(same_block(a + qq, b, a, b));
                lemma_same_block_cell(v, a + qq, b, a, b);
            } else {
                assert(same_block(a + qq, b, qq, 0));
                lemma_same_block_cell(v, a + qq, b, qq, 0);
            }
        }
    }
}

proof fn lemma_grid_quads_blocks(v: Seq<GridVertex>, base: int, edge: usize, cols: nat, nrows: nat)
    requires
        grid_placed(v, base, edge, cols, nrows + 1),
        base + (nrows + 1) * (cols + 1) <= v.len(),
        0 <= base,
        cols >= 1,
        nrows <= u32::MAX,
        cols <= u32::MAX,
    ensures
        forall|b: int| 0 <= b < nrows * cols ==> #[trigger] block_is_cell(v, grid_quads(base, cols, nrows), b),
    decreases nrows,
{
    if nrows == 0 {
        assert(nrows * cols == 0) by (nonlinear_arith)
            requires nrows == 0;
    } else {
        let r = (nrows - 1) as nat;
        let s = (cols + 1) as int;
        assert forall|rr: int, c: int| 0 <= rr < r + 1 && 0 <= c <= cols implies #[trigger] vertex_at(
            v,
            base,
            cols,
            rr,
            c,
        ) == (GridVertex { edge, row: rr as u32, col: c as u32, cols: cols as u32 }) by {
            assert(vertex_at(v, base, cols, rr, c) == vertex_at(v, base, cols, rr, c));
        }
        assert(base + (r + 1) * s <= base + (nrows + 1) * s) by (nonlinear_arith)
            requires r == nrows - 1, s >= 1;
        lemma_grid_quads_blocks(v, base, edge, cols, r);
        lemma_grid_quads(base, cols, r);
        lemma_row_quads_blocks(v, base, edge, cols, nrows + 1, r as int, cols);
        lemma_row_quads(base, s, r as int, cols);
        let a = grid_quads(base, cols, r);
        let b2 = row_quads(base, s, r as int, cols);
        assert(grid_quads(base, cols, nrows) == a + b2);
        assert(nrows * cols == r * cols + cols) by (nonlinear_arith)
            requires r == nrows - 1;
        assert(6 * r * cols == 6 * (r * cols)) by (nonlinear_arith);
        assert forall|b: int| 0 <= b < nrows * cols implies #[trigger] block_is_cell(v, a + b2, b) by {
            if b < r * cols {
                assert(same_block(a + b2, b, a, b));
                lemma_same_block_cell(v, a + b2, b, a, b);
            } else {
                let m = b - r * cols;
                assert(same_block(a + b2, b, b2, m));
                lemma_same_block_cell(v, a + b2, b, b2, m);
            }
        }
    }
}

proof fn lemma_append_wall_blocks(v: Seq<GridVertex>, ix: Seq<int>, e: usize, cols: nat, rows: nat)
    requires
        blocks_are_cells(v, ix),
        1 <= cols <= u32::MAX,
        rows <= u32::MAX,
    ensures
        blocks_are_cells(v + grid_vertices(e, cols, rows + 1), ix + grid_quads(v.len() as int, cols, rows)),
{
    let g = grid_vertices(e, cols, rows + 1);
    let base = v.len() as int;
    let q = grid_quads(base, cols, rows);
    lemma_grid_vertices(e, cols, rows + 1);
    lemma_grid_quads(base, cols, rows);
    let v2 = v + g;
    let ix2 = ix + q;
    assert(6 * rows * cols == 6 * (rows * cols)) by (nonlinear_arith);
    lemma_appended_grid_placed(v, e, cols, rows + 1);
    lemma_grid_quads_blocks(v2, base, e, cols, rows);
    assert forall|b: int| 0 <= b < ix2.len() / 6 implies #[trigger] block_is_cell(v2, ix2, b) by {
        if b < ix.len() / 6 {
            let tl = ix[6 * b];
            assert(block_is_cell(v, ix, b));
            assert(same_block(ix2, b, ix, b));
            assert(v2[tl] == v[tl]);
            assert(v2[tl + 1] == v[tl + 1]);
            assert(v2[tl + v[tl].cols + 1] == v[tl + v[tl].cols + 1]);
            assert(v2[tl + v[tl].cols + 2] == v[tl + v[tl].cols + 2]);
            assert(block_is_cell(v2, ix, b));
            lemma_same_block_cell(v2, ix2, b, ix, b);
        } else {
            let m = b - ix.len() / 6;
            assert(same_block(ix2, b, q, m));
            lemma_same_block_cell(v2, ix2, b, q, m);
        }
    }
}

proof fn lemma_walls_blocks(edges: Seq<Option<u32>>, rows: nat, n: nat)
    requires
        n <= edges.len(),
        rows <= u32::MAX,
    ensures
        blocks_are_cells(walls_upto(edges, rows, n).0, walls_upto(edges, rows, n).1),
    decreases n,
{
    if n > 0 {
        lemma_walls_blocks(edges, rows, (n - 1) as nat);
        let (v, ix) = walls_upto(edges, rows, (n - 1) as nat);
        match edges[n - 1] {
            None => {},
            Some(c) => {
                lemma_append_wall_blocks(v, ix, (n - 1) as usize, at_least_one(c), rows);
            },
        }
    }
}

/// The mesh's index list is made of six-index blocks, each the two triangles
/// `[tl, tl + s, tl + s + 1, tl, tl + s + 1, tl + 1]` of one grid cell of one wall.
pub proof fn lemma_mesh_blocks_are_cells(edges: Seq<Option<u32>>, rows: u32)
    ensures
        blocks_are_cells(mesh_layout(edges, rows).0, mesh_layout(edges, rows).1),
{
    if edges.len() >= 3 {
        lemma_walls_blocks(edges, at_least_one(rows), edges.len());
    }
}

} // verus!

//! Derivation of a line list from a triangle list: the outline of a mesh is
//! made of the triangle sides that belong to exactly one triangle.

use vstd::prelude::*;

verus! {

/// Number of triangle sides in a triangle list: three for each complete
/// triangle. Indices after the last complete triangle are not looked at.
pub open spec fn side_count(index: Seq<u32>) -> int {
    index.len() - index.len() % 3
}

/// The `k`-th side of a triangle list. Triangle `k / 3` has the corners
/// `(a, b, c)`, and its sides are `(a, b)`, `(b, c)` and `(c, a)`.
pub open spec fn side(index: Seq<u32>, k: int) -> (u32, u32) {
    (index[k], index[k - k % 3 + (k + 1) % 3])
}

/// Two sides are the same edge when they join the same two vertices, in
/// either direction.
pub open spec fn same_edge(a: (u32, u32), b: (u32, u32)) -> bool {
    (a.0 == b.0 && a.1 == b.1) || (a.0 == b.1 && a.1 == b.0)
}

/// How many of the first `n` sides are the edge `edge`.
pub open spec fn occurrences(index: Seq<u32>, edge: (u32, u32), n: int) -> nat
    decreases n,
{
    if n <= 0 {
        0
    } else if same_edge(side(index, n - 1), edge) {
        occurrences(index, edge, n - 1) + 1
    } else {
        occurrences(index, edge, n - 1)
    }
}

/// Side `k` lies on the outline: no other side of the list is the same edge.
pub open spec fn on_outline(index: Seq<u32>, k: int) -> bool {
    occurrences(index, side(index, k), side_count(index)) == 1
}

/// The line list made of those of the first `n` sides that lie on the
/// outline, in the order of the triangle list, two indices for each.
pub open spec fn outline(index: Seq<u32>, n: int) -> Seq<u32>
    decreases n,
{
    if n <= 0 {
        Seq::empty()
    } else if on_outline(index, n - 1) {
        outline(index, n - 1).push(side(index, n - 1).0).push(side(index, n - 1).1)
    } else {
        outline(index, n - 1)
    }
}

/// The line list that draws a triangle list as a wireframe.
pub open spec fn wireframe(index: Seq<u32>) -> Seq<u32> {
    outline(index, side_count(index))
}

/// The line list `lines` holds a line between the vertices `u` and `v`.
pub open spec fn has_line(lines: Seq<u32>, u: u32, v: u32) -> bool {
    exists|k: int|
        0 <= k && 2 * k + 1 < lines.len() && same_edge(
            (#[trigger] lines[2 * k], lines[2 * k + 1]),
            (u, v),
        )
}

/// A wireframe has at most two indices for each side of the triangle list.
pub proof fn lemma_outline_len(index: Seq<u32>, n: int)
    ensures
        outline(index, n).len() % 2 == 0,
        outline(index, n).len() <= if n <= 0 { 0 } else { 2 * n },
    decreases n,
{
    if n > 0 {
        lemma_outline_len(index, n - 1);
    }
}

/// The lines of a wireframe are the sides on the outline and nothing else:
/// there is a line between two vertices exactly when a side that lies on the
/// outline joins them.
pub proof fn lemma_outline_lines(index: Seq<u32>, n: int, u: u32, v: u32)
    requires
        0 <= n <= side_count(index),
    ensures
        has_line(outline(index, n), u, v) <==> exists|k: int|
            0 <= k < n && same_edge(#[trigger] side(index, k), (u, v)) && on_outline(index, k),
    decreases n,
{
    if n > 0 {
        lemma_outline_lines(index, n - 1, u, v);
        lemma_outline_len(index, n - 1);
        let before = outline(index, n - 1);
        let after = outline(index, n);
        let half = before.len() as int / 2;
        if on_outline(index, n - 1) {
            assert(after.len() == before.len() + 2);
            assert(after[2 * half] == side(index, n - 1).0);
            assert(after[2 * half + 1] == side(index, n - 1).1);
        }
        if has_line(after, u, v) {
            let j = choose|j: int|
                0 <= j && 2 * j + 1 < after.len() && same_edge((#[trigger] after[2 * j], after[2 * j + 1]), (u, v));
            if 2 * j + 1 < before.len() {
                assert(same_edge((before[2 * j], before[2 * j + 1]), (u, v)));
                assert(has_line(before, u, v));
                let k = choose|k: int|
                    0 <= k < n - 1 && same_edge(#[trigger] side(index, k), (u, v)) && on_outline(index, k);
                assert(0 <= k < n && same_edge(side(index, k), (u, v)) && on_outline(index, k));
            } else {
                assert(j == half);
                assert(same_edge(side(index, n - 1), (u, v)) && on_outline(index, n - 1));
            }
        }
        if exists|k: int| 0 <= k < n && same_edge(#[trigger] side(index, k), (u, v)) && on_outline(index, k) {
            let k = choose|k: int|
                0 <= k < n && same_edge(#[trigger] side(index, k), (u, v)) && on_outline(index, k);
            if k < n - 1 {
                assert(has_line(before, u, v));
                let j = choose|j: int|
                    0 <= j && 2 * j + 1 < before.len() && same_edge(
                        (#[trigger] before[2 * j], before[2 * j + 1]),
                        (u, v),
                    );
                assert(after[2 * j] == before[2 * j] && after[2 * j + 1] == before[2 * j + 1]);
                assert(same_edge((after[2 * j], after[2 * j + 1]), (u, v)));
            } else {
                assert(same_edge((after[2 * half], after[2 * half + 1]), (u, v)));
            }
        }
    }
}

fn side_at(index: &Vec<u32>, k: usize) -> (edge: (u32, u32))
    requires
        k < side_count(index@),
    ensures
        edge == side(index@, k as int),
{
    assert(k < index.len());
    let first: usize = k - k % 3;
    (index[k], index[first + (k + 1) % 3])
}

fn count_occurrences(index: &Vec<u32>, edge: (u32, u32)) -> (count: usize)
    ensures
        count == occurrences(index@, edge, side_count(index@)),
{
    let sides: usize = index.len() - index.len() % 3;
    let mut count: usize = 0;
    let mut k: usize = 0;
    while k < sides
        invariant
            sides == side_count(index@),
            k <= sides,
            count == occurrences(index@, edge, k as int),
            count <= k,
        decreases sides - k,
    {
        let other = side_at(index, k);
        if (other.0 == edge.0 && other.1 == edge.1) || (other.0 == edge.1 && other.1 == edge.0) {
            count = count + 1;
        }
        k = k + 1;
    }
    count
}

/// Derives the line list that draws the triangle list `index` as a
/// wireframe: each side that belongs to one triangle only gives one line.
pub fn wireframe_indices(index: &Vec<u32>) -> (lines: Vec<u32>)
    ensures
        lines@ == wireframe(index@),
{
    let sides: usize = index.len() - index.len() % 3;
    let mut lines: Vec<u32> = Vec::new();
    let mut k: usize = 0;
    while k < sides
        invariant
            sides == side_count(index@),
            k <= sides,
            lines@ == outline(index@, k as int),
        decreases sides - k,
    {
        let edge = side_at(index, k);
        if count_occurrences(index, edge) == 1 {
            lines.push(edge.0);
            lines.push(edge.1);
        }
        k = k + 1;
    }
    lines
}

} // verus!

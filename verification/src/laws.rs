//! Laws of the renderer that span several functions: how many hex byte
//! cells a render pass emits, and what text rendering does to bytes that
//! are already printable.

use vstd::prelude::*;

use crate::numfmt::allow_listed;
use crate::numfmt::make_ascii;
use crate::render::ascii_mapped;
use crate::seg::Segment;

verus! {

/// The number of hex byte cells the renderer emits for one leaf covering
/// a slice of `len` bytes: each row shows one chunk of at most 32 bytes,
/// one cell per byte, exactly as `rows` splits the slice.
pub open spec fn leaf_hex_cells(len: nat) -> nat
    decreases len,
{
    if len <= 32 {
        len
    } else {
        32 + leaf_hex_cells((len - 32) as nat)
    }
}

/// Chunking loses nothing: the hex byte cells across a leaf's rows total
/// exactly the length of the slice it covers.
pub proof fn lemma_leaf_hex_cells(len: nat)
    ensures
        leaf_hex_cells(len) == len,
    decreases len,
{
    if len > 32 {
        lemma_leaf_hex_cells((len - 32) as nat);
    }
}

/// The children exactly tile `[0, len)`: the first range starts at 0, each
/// range begins where the previous one ended, and the last ends at `len`.
/// This is the shape a tree takes when it is built purely from `line` and
/// `line_until` calls that together cover the whole slice.
pub open spec fn tiles(cs: Seq<((usize, usize), Segment)>, len: nat) -> bool {
    &&& (cs.len() == 0 ==> len == 0)
    &&& (cs.len() > 0 ==> cs[0].0.0 == 0 && cs[cs.len() - 1].0.1 == len)
    &&& forall|i: int| 0 < i < cs.len() ==> (#[trigger] cs[i].0).0 == cs[i - 1].0.1
    &&& forall|i: int| 0 <= i < cs.len() ==> (#[trigger] cs[i].0).0 <= cs[i].0.1
}

/// The hex byte cells emitted by the leaf renders of the children from
/// position `i` on.
pub open spec fn childs_hex_cells(cs: Seq<((usize, usize), Segment)>, i: int) -> nat
    decreases cs.len() - i,
{
    if 0 <= i < cs.len() {
        leaf_hex_cells((cs[i].0.1 - cs[i].0.0) as nat) + childs_hex_cells(cs, i + 1)
    } else {
        0
    }
}

/// The cell count of the tail of a tiling: everything from child `i` on
/// covers `[cs[i].begin, len)`.
proof fn lemma_tiling_cells_from(cs: Seq<((usize, usize), Segment)>, len: nat, i: int)
    requires
        tiles(cs, len),
        0 <= i < cs.len(),
    ensures
        childs_hex_cells(cs, i) == len - cs[i].0.0,
    decreases cs.len() - i,
{
    lemma_leaf_hex_cells((cs[i].0.1 - cs[i].0.0) as nat);
    assert(cs[i].0.0 <= cs[i].0.1);
    if i == cs.len() - 1 {
        assert(childs_hex_cells(cs, i + 1) == 0);
        assert(cs[i].0.1 == len);
    } else {
        lemma_tiling_cells_from(cs, len, i + 1);
        assert(cs[i + 1].0.0 == cs[i].0.1);
    }
}

/// For a tree whose leaf children exactly tile `[0, len)` — as one built
/// purely from `line` and `line_until` calls with no gaps and no overlaps
/// is — the hex byte cells emitted across all leaf renders total exactly
/// `len`.
pub proof fn lemma_tiling_hex_cells(cs: Seq<((usize, usize), Segment)>, len: nat)
    requires
        tiles(cs, len),
    ensures
        childs_hex_cells(cs, 0) == len,
{
    if cs.len() > 0 {
        lemma_tiling_cells_from(cs, len, 0);
    }
}

/// Every range of a tiling lies within `[0, len)`.
proof fn lemma_tiling_ends(cs: Seq<((usize, usize), Segment)>, len: nat, i: int)
    requires
        tiles(cs, len),
        0 <= i < cs.len(),
    ensures
        cs[i].0.1 <= len,
    decreases cs.len() - i,
{
    if i < cs.len() - 1 {
        lemma_tiling_ends(cs, len, i + 1);
        assert(cs[i + 1].0.0 == cs[i].0.1);
        assert(cs[i + 1].0.0 <= cs[i + 1].0.1);
    }
}

/// A sequential operation extends a tiling: placing a child at
/// `[cursor, end)` in a child list that tiles `[0, cursor)` leaves a list
/// that tiles `[0, end)`.  A styler that uses only `line` and `line_until`
/// therefore always builds an exact tiling of what its cursor has passed,
/// with no gaps and no overlaps.
pub proof fn lemma_line_extends_tiling(
    pre: Seq<((usize, usize), Segment)>,
    post: Seq<((usize, usize), Segment)>,
    idx: usize,
    end: usize,
)
    requires
        idx <= end,
        crate::seg::childs_sorted(pre),
        tiles(pre, idx as nat),
        crate::seg::child_placed(pre, post, (idx, end)),
    ensures
        tiles(post, end as nat),
{
    let k = (idx, end);
    let p = crate::seg::insert_pos(pre, k);
    assert forall|i: int| 0 <= i < pre.len() implies crate::seg::key_lt(
        (#[trigger] pre[i]).0,
        k,
    ) || pre[i].0 == k by {
        lemma_tiling_ends(pre, idx as nat, i);
        assert(pre[i].0.0 <= pre[i].0.1 <= idx);
    }
    if crate::seg::has_key(pre, k) {
        crate::seg::lemma_insert_pos_props(pre, k);
        lemma_tiling_ends(pre, idx as nat, p);
        // the key's end lies at the cursor, so the placement is in place
        assert(end == idx);
        assert(post =~= pre.update(p, post[p]));
        assert forall|i: int| 0 <= i < post.len() implies (#[trigger] post[i]).0 == pre[i].0
        by {}
        assert(tiles(post, end as nat));
    } else {
        assert forall|i: int| 0 <= i < pre.len() implies crate::seg::key_lt(
            (#[trigger] pre[i]).0,
            k,
        ) by {
            if pre[i].0 == k {
                assert(crate::seg::has_key(pre, k));
            }
        }
        crate::seg::lemma_insert_pos_at(pre, k, pre.len() as int);
        assert(p == pre.len());
        assert(post =~= pre.insert(p, post[p]));
        assert forall|i: int| 0 <= i < pre.len() implies #[trigger] post[i] == pre[i] by {
            assert(post[i] == pre.insert(p, post[p])[i]);
        }
        if pre.len() == 0 {
            assert(idx as nat == 0);
            assert(post[0].0 == k);
            assert(tiles(post, end as nat));
        } else {
            assert(post[post.len() - 1].0 == k);
            assert(post[0] == pre[0]);
            assert(post[post.len() - 1].0.0 == idx == pre[pre.len() - 1].0.1);
            assert(tiles(post, end as nat));
        }
    }
}

/// A permitted sequential line is placed whole, never clipped: under
/// `line`'s contract the placed child covers exactly the requested range
/// `[cursor, cursor + len)`, which ends within the slice.  A request whose
/// length would run past the remaining bytes of the slice is refused by
/// the precondition itself — a fatal error of the caller, never a
/// truncated render.
pub proof fn lemma_line_never_truncated(
    pre: Seq<((usize, usize), Segment)>,
    post: Seq<((usize, usize), Segment)>,
    idx: usize,
    len: usize,
    slice_len: nat,
)
    requires
        slice_len <= usize::MAX,
        idx + len <= slice_len,
        crate::seg::child_placed(pre, post, (idx, (idx + len) as usize)),
    ensures
        ({
            let p = crate::seg::insert_pos(pre, (idx, (idx + len) as usize));
            &&& post[p].0.0 == idx
            &&& post[p].0.1 == idx + len
            &&& post[p].0.1 - post[p].0.0 == len
            &&& post[p].0.1 <= slice_len
        }),
{
}

/// Text rendering is the identity on its allow-listed characters: a chunk
/// of only allow-listed bytes reappears unchanged in the text field, byte
/// for byte, apart from the fixed padding and grouping spaces.
pub proof fn lemma_ascii_idempotent(chunk: Seq<u8>)
    requires
        forall|i: int| 0 <= i < chunk.len() ==> allow_listed((#[trigger] chunk[i]) as char),
        chunk.len() <= 32,
    ensures
        forall|i: int| 0 <= i < chunk.len() ==> ascii_mapped(chunk)[i] == chunk[i] as char,
{
    assert forall|i: int| 0 <= i < chunk.len() implies ascii_mapped(chunk)[i] == chunk[i]
        as char by {
        assert(make_ascii(chunk[i] as char) == chunk[i] as char);
    }
}

} // verus!



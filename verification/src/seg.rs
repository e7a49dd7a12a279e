//! The segment tree: a recursive decomposition of a byte buffer into
//! labeled, typed, colored ranges.
//!
//! Every node owns its children by value.  A child is keyed by a half-open
//! byte range `[begin, end)` relative to the parent's own slice of the
//! buffer.  The children are kept strictly sorted by key, so the key set is
//! unique and the render order (ascending by range start) is fixed by
//! construction; inserting at an existing key replaces the previous child
//! (last write wins).

use vstd::prelude::*;

verus! {

/// Display color for a rendered line, drawn from a fixed palette.
#[derive(Copy, Clone, PartialEq, Eq, Structural, Debug)]
pub enum Color {
    Blue,
    Cyan,
    Green,
    Magenta,
    Red,
    Yellow,
    White,
}

/// How a leaf's raw bytes are decoded for display.
#[derive(Debug)]
pub enum Ty {
    /// Printable text; each byte becomes one display character.
    Ascii,
    /// Opaque bytes; the hex column alone is shown.
    Binary,
    /// Big-endian unsigned integer of 1, 2, 4 or 8 bytes.
    BeNum,
    /// Little-endian unsigned integer of 1, 2, 4 or 8 bytes.
    LeNum,
    /// Four bytes shown as a dotted-decimal address.
    Ip4,
    /// A free-form annotation label, with a best-effort little-endian
    /// decode when the chunk is 1, 2, 4 or 8 bytes long.
    Custom(String),
}

impl Ty {
    /// Builds a free-form annotation type from a borrowed label.
    pub fn custom(s: &str) -> (t: Ty)
        ensures
            t matches Ty::Custom(l) && l@ == s@,
    {
        Ty::Custom(s.to_owned())
    }
}

/// Structural role of a segment within the tree.
#[derive(Debug)]
pub enum SegmentKind {
    /// The apex of the tree; never rendered as a line boundary and never
    /// valid anywhere below the apex.
    Main,
    /// A structural grouping, conventionally the first fixed-format region
    /// of a buffer; a blank line follows its rendering.
    Header,
    /// A structural grouping, conventionally a repeating unit; a blank line
    /// follows its rendering.
    Block,
    /// One labeled range, rendered in the color that was ambient when it
    /// was created.
    Line { tag: String, color: Color },
}

/// One node of the annotation tree.
pub struct Segment {
    pub ty: Ty,
    pub kind: SegmentKind,
    pub childs: Vec<((usize, usize), Segment)>,
}

/// Strict order on child keys: by range start, then by range end.
pub open spec fn key_lt(a: (usize, usize), b: (usize, usize)) -> bool {
    a.0 < b.0 || (a.0 == b.0 && a.1 < b.1)
}

/// The children of a node are strictly sorted by key, so keys are unique.
pub open spec fn childs_sorted(cs: Seq<((usize, usize), Segment)>) -> bool {
    forall|i: int, j: int|
        0 <= i < j < cs.len() ==> key_lt(#[trigger] cs[i].0, #[trigger] cs[j].0)
}

/// Number of children whose key is strictly below `k`: the position where
/// a child keyed `k` stands in the sorted order.
pub open spec fn insert_pos(cs: Seq<((usize, usize), Segment)>, k: (usize, usize)) -> int
    decreases cs.len(),
{
    if cs.len() == 0 {
        0
    } else if key_lt(cs[0].0, k) {
        1 + insert_pos(cs.drop_first(), k)
    } else {
        0
    }
}

/// Whether some child already carries the key `k`.
pub open spec fn has_key(cs: Seq<((usize, usize), Segment)>, k: (usize, usize)) -> bool {
    exists|i: int| 0 <= i < cs.len() && (#[trigger] cs[i].0) == k
}

/// `post` is `pre` with one child placed at key `k`: replaced in place if
/// the key was present (last write wins), inserted at its sorted position
/// otherwise.  The placed child itself is `post[insert_pos(pre, k)].1`.
pub open spec fn child_placed(
    pre: Seq<((usize, usize), Segment)>,
    post: Seq<((usize, usize), Segment)>,
    k: (usize, usize),
) -> bool {
    let p = insert_pos(pre, k);
    &&& 0 <= p < post.len()
    &&& post[p].0 == k
    &&& if has_key(pre, k) {
        post =~= pre.update(p, post[p])
    } else {
        post =~= pre.insert(p, post[p])
    }
}

/// Well-formedness of one keyed child relative to a parent slice of `len`
/// bytes: the range lies within the parent's slice, the child is not of
/// `Main` kind, and it is itself well formed over its own sub-slice.
pub open spec fn child_wf(c: ((usize, usize), Segment), len: nat) -> bool
    decreases c,
{
    &&& c.0.0 <= c.0.1 <= len
    &&& !(c.1.kind is Main)
    &&& seg_wf(c.1, (c.0.1 - c.0.0) as nat)
}

/// Well-formedness of a child list of a node covering `len` bytes.
pub open spec fn childs_wf(cs: Seq<((usize, usize), Segment)>, len: nat) -> bool
    decreases cs,
{
    &&& childs_sorted(cs)
    &&& forall|i: int| 0 <= i < cs.len() ==> child_wf(#[trigger] cs[i], len)
}

/// Structural well-formedness of a node covering a slice of `len` bytes.
pub open spec fn seg_wf(seg: Segment, len: nat) -> bool
    decreases seg,
{
    childs_wf(seg.childs@, len)
}

/// In a sorted child list, `insert_pos` never runs past the end, and lands
/// exactly on the key when the key is present.
pub proof fn lemma_insert_pos_props(cs: Seq<((usize, usize), Segment)>, k: (usize, usize))
    requires
        childs_sorted(cs),
    ensures
        0 <= insert_pos(cs, k) <= cs.len(),
        has_key(cs, k) <==> (insert_pos(cs, k) < cs.len() && cs[insert_pos(cs, k)].0 == k),
    decreases cs.len(),
{
    if cs.len() > 0 {
        let rest = cs.drop_first();
        assert forall|p: int, q: int| 0 <= p < q < rest.len() implies key_lt(
            #[trigger] rest[p].0,
            #[trigger] rest[q].0,
        ) by {
            assert(rest[p] == cs[p + 1]);
            assert(rest[q] == cs[q + 1]);
        }
        lemma_insert_pos_props(rest, k);
        if key_lt(cs[0].0, k) {
            let p = 1 + insert_pos(rest, k);
            assert(insert_pos(cs, k) == p);
            if p < cs.len() {
                assert(cs[p] == rest[p - 1]);
            }
            if has_key(cs, k) {
                let w = choose|w: int| 0 <= w < cs.len() && (#[trigger] cs[w].0) == k;
                assert(w != 0);
                assert(rest[w - 1] == cs[w]);
                assert(has_key(rest, k));
            }
            if has_key(rest, k) {
                let w = choose|w: int| 0 <= w < rest.len() && (#[trigger] rest[w].0) == k;
                assert(cs[w + 1] == rest[w]);
                assert(has_key(cs, k));
            }
        } else {
            if has_key(cs, k) {
                let w = choose|w: int| 0 <= w < cs.len() && (#[trigger] cs[w].0) == k;
                if w > 0 {
                    assert(key_lt(cs[0].0, cs[w].0));
                }
                assert(cs[0].0 == k);
            }
        }
    }
}

/// How the rest of a sorted child list relates across one placement: every
/// child other than the placed one is carried over, shifted one place up
/// beyond the insertion point when the key was new.
pub proof fn lemma_placed_frame(
    pre: Seq<((usize, usize), Segment)>,
    post: Seq<((usize, usize), Segment)>,
    k: (usize, usize),
)
    requires
        childs_sorted(pre),
        child_placed(pre, post, k),
    ensures
        forall|i: int| 0 <= i < insert_pos(pre, k) ==> post[i] == pre[i],
        has_key(pre, k) ==> post.len() == pre.len() && forall|i: int|
            insert_pos(pre, k) < i < post.len() ==> post[i] == pre[i],
        !has_key(pre, k) ==> post.len() == pre.len() + 1 && forall|i: int|
            insert_pos(pre, k) < i < post.len() ==> post[i] == pre[i - 1],
{
    lemma_insert_pos_props(pre, k);
}

/// Placing a well-formed child in a well-formed child list keeps the list
/// well formed.
pub proof fn lemma_place_preserves_wf(
    pre: Seq<((usize, usize), Segment)>,
    post: Seq<((usize, usize), Segment)>,
    k: (usize, usize),
    len: nat,
)
    requires
        childs_wf(pre, len),
        childs_sorted(post),
        child_placed(pre, post, k),
        child_wf(post[insert_pos(pre, k)], len),
    ensures
        childs_wf(post, len),
{
    lemma_placed_frame(pre, post, k);
    let p = insert_pos(pre, k);
    assert forall|i: int| 0 <= i < post.len() implies child_wf(#[trigger] post[i], len) by {
        if i < p {
            assert(post[i] == pre[i]);
        } else if i > p {
            if has_key(pre, k) {
                assert(post[i] == pre[i]);
            } else {
                assert(post[i] == pre[i - 1]);
            }
        }
    }
}

/// Orderedness of every adjacent pair carries to every pair.
proof fn lemma_key_lt_span(cs: Seq<((usize, usize), Segment)>, i: int, j: int)
    requires
        forall|q: int| 0 < q < cs.len() ==> key_lt(cs[q - 1].0, #[trigger] cs[q].0),
        0 <= i < j < cs.len(),
    ensures
        key_lt(cs[i].0, cs[j].0),
    decreases j - i,
{
    if j > i + 1 {
        lemma_key_lt_span(cs, i, j - 1);
        assert(key_lt(cs[j - 1].0, cs[j].0));
    }
}

/// A child list whose every adjacent pair is ordered is sorted throughout.
pub proof fn lemma_adjacent_sorted(cs: Seq<((usize, usize), Segment)>)
    requires
        forall|q: int| 0 < q < cs.len() ==> key_lt(cs[q - 1].0, #[trigger] cs[q].0),
    ensures
        childs_sorted(cs),
{
    assert forall|i: int, j: int| 0 <= i < j < cs.len() implies key_lt(
        #[trigger] cs[i].0,
        #[trigger] cs[j].0,
    ) by {
        lemma_key_lt_span(cs, i, j);
    }
}

/// In a sorted child list, `insert_pos` is exactly the count of leading
/// keys below `k`; it locates `k` itself when the key is present.
pub(crate) proof fn lemma_insert_pos_at(
    cs: Seq<((usize, usize), Segment)>,
    k: (usize, usize),
    i: int,
)
    requires
        childs_sorted(cs),
        0 <= i <= cs.len(),
        forall|j: int| 0 <= j < i ==> key_lt(#[trigger] cs[j].0, k),
        i < cs.len() ==> !key_lt(cs[i].0, k),
    ensures
        insert_pos(cs, k) == i,
        has_key(cs, k) <==> (i < cs.len() && cs[i].0 == k),
    decreases cs.len(),
{
    if i == 0 {
        if cs.len() > 0 && cs[0].0 != k {
            assert forall|j: int| 0 <= j < cs.len() implies (#[trigger] cs[j].0) != k by {
                if j > 0 {
                    assert(key_lt(cs[0].0, cs[j].0));
                }
            }
        }
    } else {
        let rest = cs.drop_first();
        assert(key_lt(cs[0].0, k));
        assert forall|p: int, q: int| 0 <= p < q < rest.len() implies key_lt(
            #[trigger] rest[p].0,
            #[trigger] rest[q].0,
        ) by {
            assert(rest[p] == cs[p + 1]);
            assert(rest[q] == cs[q + 1]);
        }
        assert forall|j: int| 0 <= j < i - 1 implies key_lt(#[trigger] rest[j].0, k) by {
            assert(rest[j] == cs[j + 1]);
        }
        if i - 1 < rest.len() {
            assert(rest[i - 1] == cs[i]);
        }
        lemma_insert_pos_at(rest, k, i - 1);
        if has_key(rest, k) {
            let w = choose|w: int| 0 <= w < rest.len() && (#[trigger] rest[w].0) == k;
            assert(cs[w + 1].0 == k);
        }
        if has_key(cs, k) {
            let w = choose|w: int| 0 <= w < cs.len() && (#[trigger] cs[w].0) == k;
            assert(w != 0);
            assert(rest[w - 1].0 == k);
        }
    }
}

/// Places `seg` at key `key` in a sorted child list: replaces the child at
/// that key if one exists, inserts at the sorted position otherwise.
pub(crate) fn place_child(
    childs: &mut Vec<((usize, usize), Segment)>,
    key: (usize, usize),
    seg: Segment,
)
    requires
        childs_sorted(old(childs)@),
    ensures
        childs_sorted(final(childs)@),
        child_placed(old(childs)@, final(childs)@, key),
        final(childs)@[insert_pos(old(childs)@, key)].1 == seg,
{
    let ghost cs = childs@;
    let mut i: usize = 0;
    while i < childs.len() && (childs[i].0.0 < key.0 || (childs[i].0.0 == key.0
        && childs[i].0.1 < key.1))
        invariant
            childs@ == cs,
            0 <= i <= cs.len(),
            forall|j: int| 0 <= j < i ==> key_lt(#[trigger] cs[j].0, key),
        decreases cs.len() - i,
    {
        i = i + 1;
    }
    proof {
        lemma_insert_pos_at(cs, key, i as int);
    }
    if i < childs.len() && childs[i].0.0 == key.0 && childs[i].0.1 == key.1 {
        childs.remove(i);
        childs.insert(i, (key, seg));
        proof {
            assert(childs@ =~= cs.update(i as int, (key, seg)));
            assert forall|p: int, q: int| 0 <= p < q < childs@.len() implies key_lt(
                #[trigger] childs@[p].0,
                #[trigger] childs@[q].0,
            ) by {
                assert(childs@[p].0 == cs[p].0);
                assert(childs@[q].0 == cs[q].0);
            }
        }
    } else {
        childs.insert(i, (key, seg));
        proof {
            let n = childs@;
            assert forall|p: int, q: int| 0 <= p < q < n.len() implies key_lt(
                #[trigger] n[p].0,
                #[trigger] n[q].0,
            ) by {
                if q < i {
                    assert(n[p] == cs[p] && n[q] == cs[q]);
                } else if p < i && q == i {
                    assert(n[p] == cs[p]);
                } else if p < i && q > i {
                    assert(n[p] == cs[p] && n[q] == cs[q - 1]);
                } else if p == i {
                    // key itself stands below every key at or past the scan stop
                    assert(n[q] == cs[q - 1]);
                    if i < cs.len() {
                        assert(!key_lt(cs[i as int].0, key));
                        assert(cs[i as int].0 != key);
                        if q - 1 > i {
                            assert(key_lt(cs[i as int].0, cs[q - 1].0));
                        }
                    }
                } else {
                    assert(n[p] == cs[p - 1] && n[q] == cs[q - 1]);
                }
            }
        }
    }
}

} // verus!

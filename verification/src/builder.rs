//! The cursor builder: a stateful, position-aware façade over one tree
//! node's children.  A styler appends segments sequentially by length
//! (`line`, `line_until`) or by absolute bounds (`header`, `block`), and
//! sets ambient color state that new line segments inherit.
//!
//! Each builder carries its state by value.  `header` and `block` return a
//! fresh nested builder scoped to the sub-range, with the ambient color and
//! the cursor reset to their defaults; the finished nested builder is
//! handed back to the parent with [`StyleBuilder::attach`], which installs
//! its segment among the parent's children.

use vstd::prelude::*;
use vstd::slice::slice_subrange;
use vstd::slice::slice_to_vec;

use crate::seg::Color;
use crate::seg::Segment;
use crate::seg::SegmentKind;
use crate::seg::Ty;
use crate::seg::child_placed;
use crate::seg::child_wf;
use crate::seg::childs_wf;
use crate::seg::insert_pos;
use crate::seg::lemma_place_preserves_wf;
use crate::seg::place_child;
use crate::seg::seg_wf;

verus! {

/// A builder over one node's children.
///
/// `buf` is the slice of the buffer this builder's node covers, `begin`
/// and `end` are that range relative to the parent's slice, `part_color`
/// is the ambient color new lines inherit, and `index` is the running
/// cursor used by the sequential operations.
pub struct StyleBuilder {
    pub buf: Vec<u8>,
    pub childs: Vec<((usize, usize), Segment)>,
    pub part_color: Color,
    pub index: usize,
    pub begin: usize,
    pub end: usize,
    pub kind: SegmentKind,
    pub ty: Ty,
}

/// The placed segment satisfies the shape of a freshly created line: the
/// declared type, a `Line` kind carrying the given tag and color, and no
/// children.
pub open spec fn line_seg(s: Segment, ty: Ty, tag: Seq<char>, color: Color) -> bool {
    &&& s.ty == ty
    &&& s.kind matches SegmentKind::Line { tag: t, color: c } && t@ == tag && c == color
    &&& s.childs@ == Seq::<((usize, usize), Segment)>::empty()
}

impl StyleBuilder {
    /// The segment this builder is assembling.
    pub open spec fn seg(self) -> Segment {
        Segment { ty: self.ty, kind: self.kind, childs: self.childs }
    }

    /// Well-formedness: the range matches the slice, the assembled segment
    /// is structurally sound, and the kind is a structural one.
    pub open spec fn wf(self) -> bool {
        &&& self.begin <= self.end
        &&& self.end - self.begin == self.buf@.len()
        &&& childs_wf(self.childs@, self.buf@.len() as nat)
        &&& (self.kind is Main || self.kind is Header || self.kind is Block)
    }

    /// All state of the builder except its children and cursor: what
    /// `line` and `line_until` leave untouched.
    pub open spec fn same_frame(self, other: StyleBuilder) -> bool {
        &&& self.buf == other.buf
        &&& self.part_color == other.part_color
        &&& self.begin == other.begin
        &&& self.end == other.end
        &&& self.kind == other.kind
        &&& self.ty == other.ty
    }

    /// Sets the ambient color for subsequently created lines; already
    /// created children keep the color they were born with.
    pub fn set_color(&mut self, color: Color)
        ensures
            *final(self) == (StyleBuilder { part_color: color, ..*old(self) }),
    {
        self.part_color = color;
    }

    /// The running cursor of the sequential operations.
    pub fn index(&self) -> (i: usize)
        ensures
            i == self.index,
    {
        self.index
    }

    /// Starts a nested `Header` segment over `[begin, end)` of this
    /// builder's slice.  The returned builder is scoped to that sub-range,
    /// with the ambient color and the cursor reset to their defaults; hand
    /// it back with [`StyleBuilder::attach`] once populated.
    pub fn header(&self, begin: usize, end: usize, ty: Ty) -> (b: StyleBuilder)
        requires
            begin <= end <= self.buf@.len(),
        ensures
            b.wf(),
            b.buf@ == self.buf@.subrange(begin as int, end as int),
            b.childs@ == Seq::<((usize, usize), Segment)>::empty(),
            b.part_color == Color::White,
            b.index == 0,
            b.begin == begin,
            b.end == end,
            b.kind is Header,
            b.ty == ty,
    {
        StyleBuilder {
            buf: slice_to_vec(slice_subrange(self.buf.as_slice(), begin, end)),
            childs: Vec::new(),
            part_color: Color::White,
            index: 0,
            begin,
            end,
            kind: SegmentKind::Header,
            ty,
        }
    }

    /// Starts a nested `Block` segment over `[begin, end)` of this
    /// builder's slice, exactly as [`StyleBuilder::header`] does.
    pub fn block(&self, begin: usize, end: usize, ty: Ty) -> (b: StyleBuilder)
        requires
            begin <= end <= self.buf@.len(),
        ensures
            b.wf(),
            b.buf@ == self.buf@.subrange(begin as int, end as int),
            b.childs@ == Seq::<((usize, usize), Segment)>::empty(),
            b.part_color == Color::White,
            b.index == 0,
            b.begin == begin,
            b.end == end,
            b.kind is Block,
            b.ty == ty,
    {
        StyleBuilder {
            buf: slice_to_vec(slice_subrange(self.buf.as_slice(), begin, end)),
            childs: Vec::new(),
            part_color: Color::White,
            index: 0,
            begin,
            end,
            kind: SegmentKind::Block,
            ty,
        }
    }

    /// Installs a populated nested builder's segment among this builder's
    /// children, at the key `[child.begin, child.end)`; a previous child at
    /// that exact range is replaced.
    pub fn attach(&mut self, child: StyleBuilder)
        requires
            old(self).wf(),
            child.wf(),
            child.kind is Header || child.kind is Block,
            child.end <= old(self).buf@.len(),
        ensures
            final(self).wf(),
            old(self).same_frame(*final(self)),
            final(self).index == old(self).index,
            child_placed(old(self).childs@, final(self).childs@, (child.begin, child.end)),
            final(self).childs@[insert_pos(old(self).childs@, (child.begin, child.end))].1
                == child.seg(),
    {
        let ghost oldc = self.childs@;
        let ghost key = (child.begin, child.end);
        let StyleBuilder { buf: _, childs, part_color: _, index: _, begin, end, kind, ty } =
            child;
        let seg = Segment { ty, kind, childs };
        place_child(&mut self.childs, (begin, end), seg);
        proof {
            let p = insert_pos(oldc, key);
            assert(seg_wf(seg, (end - begin) as nat));
            assert(child_wf(self.childs@[p], self.buf@.len() as nat));
            lemma_place_preserves_wf(oldc, self.childs@, key, self.buf@.len() as nat);
        }
    }

    /// Appends a `Line` child covering `len` bytes from the cursor, in the
    /// ambient color, and advances the cursor past it.  The line must not
    /// run past the end of this builder's slice.
    pub fn line(&mut self, len: usize, ty: Ty, tag: &str)
        requires
            old(self).wf(),
            old(self).index + len <= old(self).buf@.len(),
        ensures
            final(self).wf(),
            old(self).same_frame(*final(self)),
            final(self).index == old(self).index + len,
            child_placed(
                old(self).childs@,
                final(self).childs@,
                (old(self).index, (old(self).index + len) as usize),
            ),
            line_seg(
                final(self).childs@[insert_pos(
                    old(self).childs@,
                    (old(self).index, (old(self).index + len) as usize),
                )].1,
                ty,
                tag@,
                old(self).part_color,
            ),
    {
        let ghost oldc = self.childs@;
        let end = self.index + len;
        let seg = Segment {
            ty,
            kind: SegmentKind::Line { tag: tag.to_owned(), color: self.part_color },
            childs: Vec::new(),
        };
        place_child(&mut self.childs, (self.index, end), seg);
        self.index = end;
        proof {
            let key = (old(self).index, end);
            let p = insert_pos(oldc, key);
            assert(child_wf(self.childs@[p], self.buf@.len() as nat));
            lemma_place_preserves_wf(oldc, self.childs@, key, self.buf@.len() as nat);
        }
    }

    /// Appends a `Line` child covering the bytes from the cursor up to the
    /// absolute offset `end` of this builder's slice, then moves the cursor
    /// to `end`.  The cursor must not already stand past `end`.
    pub fn line_until(&mut self, end: usize, ty: Ty, tag: &str)
        requires
            old(self).wf(),
            old(self).index <= end <= old(self).buf@.len(),
        ensures
            final(self).wf(),
            old(self).same_frame(*final(self)),
            final(self).index == end,
            child_placed(old(self).childs@, final(self).childs@, (old(self).index, end)),
            line_seg(
                final(self).childs@[insert_pos(old(self).childs@, (old(self).index, end))].1,
                ty,
                tag@,
                old(self).part_color,
            ),
    {
        let ghost oldc = self.childs@;
        let seg = Segment {
            ty,
            kind: SegmentKind::Line { tag: tag.to_owned(), color: self.part_color },
            childs: Vec::new(),
        };
        place_child(&mut self.childs, (self.index, end), seg);
        self.index = end;
        proof {
            let key = (old(self).index, end);
            let p = insert_pos(oldc, key);
            assert(child_wf(self.childs@[p], self.buf@.len() as nat));
            lemma_place_preserves_wf(oldc, self.childs@, key, self.buf@.len() as nat);
        }
    }
}

} // verus!

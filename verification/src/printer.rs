//! The terminal printer: owns the byte buffer and the root of the
//! annotation tree, hands out a root builder, and renders the completed
//! tree into the colorized hex-dump text.

use vstd::prelude::*;
use vstd::slice::slice_to_vec;

use crate::builder::StyleBuilder;
use crate::render::child_renderable;
use crate::render::render_node;
use crate::render::render_seg;
use crate::render::renderable;
use crate::render::ty_fits;
use crate::seg::Color;
use crate::seg::Segment;
use crate::seg::SegmentKind;
use crate::seg::Ty;
use crate::seg::child_wf;
use crate::seg::childs_sorted;
use crate::seg::childs_wf;
use crate::seg::key_lt;
use crate::seg::seg_wf;

verus! {

/// Owns one buffer and the annotation tree built over it.
pub struct TermPrinter {
    pub buf: Vec<u8>,
    pub main: Segment,
}

impl TermPrinter {
    /// A printer over `buf` with an empty tree: one `Main` node covering
    /// the whole buffer.
    pub fn new(buf: Vec<u8>) -> (p: TermPrinter)
        ensures
            p.buf == buf,
            p.main.ty is Ascii,
            p.main.kind is Main,
            p.main.childs@ == Seq::<((usize, usize), Segment)>::empty(),
    {
        TermPrinter {
            buf,
            main: Segment { ty: Ty::Ascii, kind: SegmentKind::Main, childs: Vec::new() },
        }
    }

    /// A fresh root builder over this printer's buffer, with default
    /// ambient state.  Populate it, then hand it back with
    /// [`TermPrinter::finish`].
    pub fn style_builder(&self) -> (b: StyleBuilder)
        ensures
            b.wf(),
            b.buf@ == self.buf@,
            b.childs@ == Seq::<((usize, usize), Segment)>::empty(),
            b.part_color == Color::White,
            b.index == 0,
            b.begin == 0,
            b.end == self.buf@.len(),
            b.kind is Main,
    {
        StyleBuilder {
            buf: slice_to_vec(self.buf.as_slice()),
            childs: Vec::new(),
            part_color: Color::White,
            index: 0,
            begin: 0,
            end: self.buf.len(),
            kind: SegmentKind::Main,
            ty: Ty::Ascii,
        }
    }

    /// Installs a populated root builder's children as the tree's
    /// children; whatever tree stood before is replaced.
    pub fn finish(&mut self, b: StyleBuilder)
        requires
            b.wf(),
            b.buf@.len() == old(self).buf@.len(),
        ensures
            final(self).buf == old(self).buf,
            final(self).main.ty == old(self).main.ty,
            final(self).main.kind == old(self).main.kind,
            final(self).main.childs == b.childs,
            seg_wf(final(self).main, final(self).buf@.len() as nat),
    {
        let StyleBuilder {
            buf: _,
            childs,
            part_color: _,
            index: _,
            begin: _,
            end: _,
            kind: _,
            ty: _,
        } = b;
        self.main.childs = childs;
    }

    /// Renders the whole buffer against the completed tree in one
    /// top-to-bottom pass, consuming the printer.  Every leaf must meet
    /// its declared type's length demand; [`TermPrinter::render_ok`]
    /// tests exactly that.
    pub fn print(self) -> (out: String)
        requires
            seg_wf(self.main, self.buf@.len() as nat),
            renderable(self.main, self.buf@.len() as nat),
        ensures
            out@ == render_node(self.buf@, self.main),
    {
        let TermPrinter { buf, main } = self;
        let mut out = String::new();
        render_seg(&mut out, buf.as_slice(), &main);
        proof {
            assert(out@ =~= render_node(buf@, main));
        }
        out
    }

    /// Whether the tree is structurally sound and every leaf meets its
    /// type's length demand, so that [`TermPrinter::print`] may run.
    pub fn render_ok(&self) -> (r: bool)
        ensures
            r == (seg_wf(self.main, self.buf@.len() as nat) && renderable(
                self.main,
                self.buf@.len() as nat,
            )),
    {
        check_seg(&self.main, self.buf.len())
    }
}

/// Whether a leaf type accepts a slice of this length.
fn check_ty_fits(ty: &Ty, len: usize) -> (r: bool)
    ensures
        r == ty_fits(*ty, len as nat),
{
    match ty {
        Ty::BeNum | Ty::LeNum => len == 0 || len == 1 || len == 2 || len == 4 || len == 8,
        Ty::Ip4 => len == 0 || len == 4,
        _ => true,
    }
}

/// Tests structural well-formedness and renderability of a node covering
/// `len` bytes, exactly as the specs state them.
pub fn check_seg(seg: &Segment, len: usize) -> (r: bool)
    ensures
        r == (seg_wf(*seg, len as nat) && renderable(*seg, len as nat)),
    decreases *seg,
{
    if seg.childs.len() == 0 {
        proof {
            assert(childs_wf(seg.childs@, len as nat));
        }
        check_ty_fits(&seg.ty, len)
    } else {
        let mut i: usize = 0;
        let mut good = true;
        while i < seg.childs.len() && good
            invariant
                0 <= i <= seg.childs@.len(),
                good ==> forall|j: int|
                    0 <= j < i ==> child_wf(#[trigger] seg.childs@[j], len as nat)
                        && child_renderable(seg.childs@[j]),
                good ==> forall|j: int|
                    0 < j < i ==> key_lt(seg.childs@[j - 1].0, #[trigger] seg.childs@[j].0),
                !good ==> !(seg_wf(*seg, len as nat) && renderable(*seg, len as nat)),
            decreases seg.childs@.len() - i,
        {
            proof {
                assert(decreases_to!(*seg => seg.childs));
                assert(decreases_to!(seg.childs => seg.childs@));
                assert(decreases_to!(seg.childs@ => seg.childs@[i as int]));
                assert(decreases_to!(seg.childs@[i as int] => seg.childs@[i as int].1));
            }
            let c = &seg.childs[i];
            let range_ok = c.0.0 <= c.0.1 && c.0.1 <= len;
            let kind_ok = match &c.1.kind {
                SegmentKind::Main => false,
                _ => true,
            };
            let order_ok = if i == 0 {
                true
            } else {
                let p = &seg.childs[i - 1];
                p.0.0 < c.0.0 || (p.0.0 == c.0.0 && p.0.1 < c.0.1)
            };
            if !(range_ok && kind_ok && order_ok) {
                proof {
                    if !order_ok {
                        assert(!key_lt(seg.childs@[i - 1].0, seg.childs@[i as int].0));
                        assert(!childs_sorted(seg.childs@));
                    } else {
                        assert(!child_wf(seg.childs@[i as int], len as nat));
                    }
                }
                good = false;
            } else {
                let sub_ok = check_seg(&c.1, c.0.1 - c.0.0);
                if !sub_ok {
                    proof {
                        if !seg_wf(c.1, (c.0.1 - c.0.0) as nat) {
                            assert(!child_wf(seg.childs@[i as int], len as nat));
                        } else {
                            assert(!child_renderable(seg.childs@[i as int]));
                        }
                    }
                    good = false;
                }
            }
            i = i + 1;
        }
        proof {
            if good {
                crate::seg::lemma_adjacent_sorted(seg.childs@);
            }
        }
        good
    }
}

} // verus!

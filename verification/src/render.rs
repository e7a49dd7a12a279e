//! The renderer: a pure function of (buffer, tree) that walks the tree
//! depth first, slices the buffer per node, and emits one fixed-width
//! hex-dump line per chunk of at most 32 bytes, with a type-specific
//! decoded annotation.
//!
//! The spec functions here state, character by character, the text that
//! rendering a tree produces; the executable renderer is proved to emit
//! exactly that text.

use vstd::prelude::*;
use vstd::string::StrSliceExecFns;
use vstd::string::StringExecFns;

use crate::ext;
use crate::numfmt::be_val;
use crate::numfmt::push_hex_byte;
use crate::numfmt::dec_str;
use crate::numfmt::hex_byte_chars;
use crate::numfmt::le_val;
use crate::numfmt::make_ascii;
use crate::seg::Color;
use crate::seg::Segment;
use crate::seg::SegmentKind;
use crate::seg::Ty;

verus! {

/// `n` spaces (none when `n` is not positive).
pub open spec fn spaces(n: int) -> Seq<char>
    decreases n,
{
    if n <= 0 {
        Seq::empty()
    } else {
        spaces(n - 1).push(' ')
    }
}

/// The ANSI escape that sets the foreground to the given palette color.
pub open spec fn fg_escape(c: Color) -> Seq<char> {
    match c {
        Color::Blue => seq!['\u{1b}', '[', '3', '8', ';', '5', ';', '4', 'm'],
        Color::Cyan => seq!['\u{1b}', '[', '3', '8', ';', '5', ';', '6', 'm'],
        Color::Green => seq!['\u{1b}', '[', '3', '8', ';', '5', ';', '2', 'm'],
        Color::Magenta => seq!['\u{1b}', '[', '3', '8', ';', '5', ';', '5', 'm'],
        Color::Red => seq!['\u{1b}', '[', '3', '8', ';', '5', ';', '1', 'm'],
        Color::Yellow => seq!['\u{1b}', '[', '3', '8', ';', '5', ';', '3', 'm'],
        Color::White => seq!['\u{1b}', '[', '3', '8', ';', '5', ';', '7', 'm'],
    }
}

/// The ANSI escape that restores the default foreground color.
pub open spec fn reset_escape() -> Seq<char> {
    seq!['\u{1b}', '[', '3', '9', 'm']
}

/// The single space that groups hex cells into columns of eight.
pub open spec fn group_sp(num: int) -> Seq<char> {
    if num % 8 == 0 {
        seq![' ']
    } else {
        Seq::empty()
    }
}

/// The hex cells of a chunk's bytes from position `num` on: each byte two
/// uppercase digits and a trailing space, with a column space before
/// positions 0, 8, 16 and 24.
pub open spec fn hex_bytes_from(chunk: Seq<u8>, num: int) -> Seq<char>
    decreases chunk.len() - num,
{
    if 0 <= num < chunk.len() {
        group_sp(num) + hex_byte_chars(chunk[num]) + seq![' '] + hex_bytes_from(chunk, num + 1)
    } else {
        Seq::empty()
    }
}

/// The placeholder cells that pad a short chunk's hex column, from
/// position `num` up to the next grouping boundary at 16, 24 or 32.
pub open spec fn hex_pad_from(num: int) -> Seq<char>
    decreases 32 - num,
{
    if 0 <= num < 32 && num != 16 && num != 24 {
        group_sp(num) + seq!['.', '.', ' '] + hex_pad_from(num + 1)
    } else {
        Seq::empty()
    }
}

/// The full hex column of one chunk: its bytes' cells, then placeholder
/// cells up to the next grouping boundary.
pub open spec fn hex_line(chunk: Seq<u8>) -> Seq<char> {
    hex_bytes_from(chunk, 0) + hex_pad_from(chunk.len() as int)
}

/// A chunk's bytes as display characters, padded with `'.'` to exactly 32.
pub open spec fn ascii_mapped(chunk: Seq<u8>) -> Seq<char> {
    Seq::new(
        32,
        |i: int|
            if i < chunk.len() {
                make_ascii(chunk[i] as char)
            } else {
                '.'
            },
    )
}

/// The display characters regrouped from position `i` on: a space follows
/// every eighth character, and the sixteenth character once more.
pub open spec fn ascii_grouped(t: Seq<char>, i: int) -> Seq<char>
    decreases t.len() - i,
{
    if 0 <= i < t.len() {
        seq![t[i]] + (if (i + 1) % 8 == 0 {
            seq![' ']
        } else {
            Seq::<char>::empty()
        }) + (if i == 15 {
            seq![' ']
        } else {
            Seq::<char>::empty()
        }) + ascii_grouped(t, i + 1)
    } else {
        Seq::empty()
    }
}

/// The bracketed text field of an `Ascii` chunk.
pub open spec fn ascii_field(chunk: Seq<u8>) -> Seq<char> {
    seq!['|', ' '] + ascii_grouped(ascii_mapped(chunk), 0) + seq!['|']
}

/// Whether a chunk of this length decodes as a fixed-width number.
pub open spec fn num_fits(len: nat) -> bool {
    len == 1 || len == 2 || len == 4 || len == 8
}

/// The type-specific decoded annotation of one chunk.
pub open spec fn extras_str(ty: Ty, chunk: Seq<u8>) -> Seq<char> {
    match ty {
        Ty::Ascii => ascii_field(chunk),
        Ty::Binary => Seq::empty(),
        Ty::BeNum => seq![':', ' '] + dec_str(be_val(chunk)),
        Ty::LeNum => seq![':', ' '] + dec_str(le_val(chunk)),
        Ty::Ip4 => dec_str(chunk[0] as nat) + seq!['.'] + dec_str(chunk[1] as nat) + seq!['.']
            + dec_str(chunk[2] as nat) + seq!['.'] + dec_str(chunk[3] as nat),
        Ty::Custom(l) => seq![';', ' '] + l@ + seq![' ', '('] + (if num_fits(chunk.len()) {
            dec_str(le_val(chunk))
        } else {
            Seq::<char>::empty()
        }) + seq![')'],
    }
}

/// A tag right-aligned in a field of twelve characters; a longer tag
/// stands as it is.
pub open spec fn pad_tag(t: Seq<char>) -> Seq<char> {
    if t.len() >= 12 {
        t
    } else {
        spaces(12 - t.len()) + t
    }
}

/// The tag field between the hex column and the annotation: the padded tag
/// for a line, blank padding of equivalent width otherwise.
pub open spec fn tag_field(kind: SegmentKind) -> Seq<char> {
    match kind {
        SegmentKind::Line { tag, color } => seq![' ', ' '] + pad_tag(tag@) + seq![' '],
        _ => spaces(15),
    }
}

/// The color escape that opens a row: only lines carry one.
pub open spec fn lead_escape(kind: SegmentKind) -> Seq<char> {
    match kind {
        SegmentKind::Line { tag, color } => fg_escape(color),
        _ => Seq::empty(),
    }
}

/// One full output row for one chunk of a leaf.
pub open spec fn row_str(ty: Ty, kind: SegmentKind, chunk: Seq<u8>) -> Seq<char> {
    lead_escape(kind) + hex_line(chunk) + tag_field(kind) + extras_str(ty, chunk)
        + reset_escape() + seq!['\n']
}

/// All output rows of a leaf: its slice split into consecutive chunks of
/// at most 32 bytes, one row each; an empty slice renders nothing.
pub open spec fn rows(ty: Ty, kind: SegmentKind, buf: Seq<u8>) -> Seq<char>
    decreases buf.len(),
{
    if buf.len() == 0 {
        Seq::empty()
    } else if buf.len() <= 32 {
        row_str(ty, kind, buf)
    } else {
        row_str(ty, kind, buf.take(32)) + rows(ty, kind, buf.skip(32))
    }
}

/// The blank line that follows a rendered `Header` or `Block` child.
pub open spec fn blank_after(kind: SegmentKind) -> Seq<char> {
    match kind {
        SegmentKind::Header | SegmentKind::Block => seq!['\n'],
        _ => Seq::empty(),
    }
}

/// The full rendering of a node against the slice of the buffer it
/// covers: a childless node is a leaf and renders its rows; otherwise the
/// children render in ascending key order, each against its sub-slice,
/// with a blank line after each structural child.
pub open spec fn render_node(buf: Seq<u8>, seg: Segment) -> Seq<char>
    decreases seg, 0int,
{
    if seg.childs@.len() == 0 {
        rows(seg.ty, seg.kind, buf)
    } else {
        render_childs(buf, seg.childs@, 0)
    }
}

/// The rendering of the children from position `i` on.
pub open spec fn render_childs(
    buf: Seq<u8>,
    cs: Seq<((usize, usize), Segment)>,
    i: int,
) -> Seq<char>
    decreases cs, cs.len() - i,
{
    if 0 <= i < cs.len() {
        render_node(buf.subrange(cs[i].0.0 as int, cs[i].0.1 as int), cs[i].1)
            + blank_after(cs[i].1.kind) + render_childs(buf, cs, i + 1)
    } else {
        Seq::empty()
    }
}

/// Whether a leaf of this type may cover a slice of this length without
/// the renderer meeting a wrong-sized numeric field.
pub open spec fn ty_fits(ty: Ty, len: nat) -> bool {
    match ty {
        Ty::BeNum | Ty::LeNum => len == 0 || num_fits(len),
        Ty::Ip4 => len == 0 || len == 4,
        _ => true,
    }
}

/// Whether every leaf of the tree satisfies its type's length demand, so
/// that the render pass cannot fail.
pub open spec fn renderable(seg: Segment, len: nat) -> bool
    decreases seg, 0int,
{
    if seg.childs@.len() == 0 {
        ty_fits(seg.ty, len)
    } else {
        forall|i: int|
            0 <= i < seg.childs@.len() ==> child_renderable(#[trigger] seg.childs@[i])
    }
}

/// Renderability of one keyed child over its own sub-slice.
pub open spec fn child_renderable(c: ((usize, usize), Segment)) -> bool
    decreases c, 0int,
{
    renderable(c.1, (c.0.1 - c.0.0) as nat)
}

/// The escape string of an ambient color.
pub fn color_escape(c: Color) -> (r: &'static str)
    ensures
        r@ == fg_escape(c),
{
    match c {
        Color::Blue => ext::fg_blue(),
        Color::Cyan => ext::fg_cyan(),
        Color::Green => ext::fg_green(),
        Color::Magenta => ext::fg_magenta(),
        Color::Red => ext::fg_red(),
        Color::Yellow => ext::fg_yellow(),
        Color::White => ext::fg_white(),
    }
}

/// The escape string that restores the default foreground color.
pub fn reset_str() -> (r: &'static str)
    ensures
        r@ == reset_escape(),
{
    ext::fg_reset()
}

/// Appends `n` spaces.
fn push_spaces(out: &mut String, n: usize)
    ensures
        final(out)@ == old(out)@ + spaces(n as int),
{
    let mut i: usize = 0;
    while i < n
        invariant
            0 <= i <= n,
            out@ == old(out)@ + spaces(i as int),
        decreases n - i,
    {
        out.push(' ');
        i = i + 1;
    }
}

/// Appends the tag field of one row: the padded tag of a line, blank
/// padding otherwise.
fn push_tag_field(out: &mut String, kind: &SegmentKind)
    ensures
        final(out)@ == old(out)@ + tag_field(*kind),
{
    match kind {
        SegmentKind::Line { tag, color: _ } => {
            out.push(' ');
            out.push(' ');
            let n = tag.as_str().unicode_len();
            if n < 12 {
                push_spaces(out, 12 - n);
            }
            out.append(tag.as_str());
            out.push(' ');
            proof {
                assert(out@ =~= old(out)@ + tag_field(*kind));
            }
        },
        _ => {
            push_spaces(out, 15);
            proof {
                assert(out@ =~= old(out)@ + tag_field(*kind));
            }
        },
    }
}

/// Appends the hex column of one chunk.
pub fn push_hex_cells(out: &mut String, chunk: &[u8])
    requires
        chunk@.len() <= 32,
    ensures
        final(out)@ == old(out)@ + hex_line(chunk@),
{
    let mut num: usize = 0;
    while num < chunk.len()
        invariant
            chunk@.len() <= 32,
            0 <= num <= chunk@.len(),
            out@ + hex_bytes_from(chunk@, num as int) == old(out)@ + hex_bytes_from(chunk@, 0),
        decreases chunk@.len() - num,
    {
        let ghost pre = out@;
        if num % 8 == 0 {
            out.push(' ');
        }
        push_hex_byte(out, chunk[num]);
        out.push(' ');
        proof {
            assert(out@ =~= pre + group_sp(num as int) + hex_byte_chars(chunk@[num as int])
                + seq![' ']);
            assert(out@ + hex_bytes_from(chunk@, num + 1) =~= pre + hex_bytes_from(
                chunk@,
                num as int,
            ));
        }
        num = num + 1;
    }
    while num < 32 && num != 16 && num != 24
        invariant
            0 <= num <= 32,
            out@ + hex_pad_from(num as int) == old(out)@ + hex_bytes_from(chunk@, 0)
                + hex_pad_from(chunk@.len() as int),
        decreases 32 - num,
    {
        let ghost pre = out@;
        if num % 8 == 0 {
            out.push(' ');
        }
        out.push('.');
        out.push('.');
        out.push(' ');
        proof {
            assert(out@ =~= pre + group_sp(num as int) + seq!['.', '.', ' ']);
            assert(out@ + hex_pad_from(num + 1) =~= pre + hex_pad_from(num as int));
        }
        num = num + 1;
    }
    proof {
        assert(out@ =~= old(out)@ + hex_line(chunk@));
    }
}

/// Appends the bracketed text field of an `Ascii` chunk.
pub fn push_ascii_field(out: &mut String, chunk: &[u8])
    requires
        chunk@.len() <= 32,
    ensures
        final(out)@ == old(out)@ + ascii_field(chunk@),
{
    let ghost t = ascii_mapped(chunk@);
    out.push('|');
    out.push(' ');
    let mut i: usize = 0;
    while i < 32
        invariant
            chunk@.len() <= 32,
            0 <= i <= 32,
            t == ascii_mapped(chunk@),
            out@ + ascii_grouped(t, i as int) == old(out)@ + seq!['|', ' '] + ascii_grouped(
                t,
                0,
            ),
        decreases 32 - i,
    {
        let ghost pre = out@;
        let c = if i < chunk.len() {
            crate::numfmt::make_ascii_exec(chunk[i] as char)
        } else {
            '.'
        };
        proof {
            assert(c == t[i as int]);
        }
        out.push(c);
        if (i + 1) % 8 == 0 {
            out.push(' ');
        }
        if i == 15 {
            out.push(' ');
        }
        proof {
            assert(out@ =~= pre + seq![t[i as int]] + (if (i + 1) % 8 == 0 {
                seq![' ']
            } else {
                Seq::<char>::empty()
            }) + (if i == 15 {
                seq![' ']
            } else {
                Seq::<char>::empty()
            }));
            assert(out@ + ascii_grouped(t, i + 1) =~= pre + ascii_grouped(t, i as int));
        }
        i = i + 1;
    }
    out.push('|');
    proof {
        assert(out@ =~= old(out)@ + ascii_field(chunk@));
    }
}

/// The big-endian value of a fixed-width numeric chunk.
pub fn read_num_be(chunk: &[u8]) -> (r: u64)
    requires
        num_fits(chunk@.len()),
    ensures
        r as nat == be_val(chunk@),
{
    if chunk.len() == 1 {
        let b = chunk[0];
        proof {
            assert(chunk@.drop_last() =~= Seq::<u8>::empty());
            assert(be_val(Seq::<u8>::empty()) == 0);
        }
        b as u64
    } else if chunk.len() == 2 {
        let r = ext::read_u16_be(chunk);
        proof {
            assert(chunk@.subrange(0, 2) =~= chunk@);
        }
        r as u64
    } else if chunk.len() == 4 {
        let r = ext::read_u32_be(chunk);
        proof {
            assert(chunk@.subrange(0, 4) =~= chunk@);
        }
        r as u64
    } else {
        let r = ext::read_u64_be(chunk);
        proof {
            assert(chunk@.subrange(0, 8) =~= chunk@);
        }
        r
    }
}

/// The little-endian value of a fixed-width numeric chunk.
pub fn read_num_le(chunk: &[u8]) -> (r: u64)
    requires
        num_fits(chunk@.len()),
    ensures
        r as nat == le_val(chunk@),
{
    if chunk.len() == 1 {
        let b = chunk[0];
        proof {
            assert(chunk@.drop_first() =~= Seq::<u8>::empty());
            assert(le_val(Seq::<u8>::empty()) == 0);
        }
        b as u64
    } else if chunk.len() == 2 {
        let r = ext::read_u16_le(chunk);
        proof {
            assert(chunk@.subrange(0, 2) =~= chunk@);
        }
        r as u64
    } else if chunk.len() == 4 {
        let r = ext::read_u32_le(chunk);
        proof {
            assert(chunk@.subrange(0, 4) =~= chunk@);
        }
        r as u64
    } else {
        let r = ext::read_u64_le(chunk);
        proof {
            assert(chunk@.subrange(0, 8) =~= chunk@);
        }
        r
    }
}

/// Appends the type-specific decoded annotation of one chunk.
pub fn push_extras(out: &mut String, ty: &Ty, chunk: &[u8])
    requires
        chunk@.len() <= 32,
        ty is BeNum || ty is LeNum ==> num_fits(chunk@.len()),
        ty is Ip4 ==> chunk@.len() == 4,
    ensures
        final(out)@ == old(out)@ + extras_str(*ty, chunk@),
{
    match ty {
        Ty::Ascii => {
            push_ascii_field(out, chunk);
        },
        Ty::Binary => {
            proof {
                assert(out@ =~= old(out)@ + extras_str(*ty, chunk@));
            }
        },
        Ty::BeNum => {
            out.push(':');
            out.push(' ');
            let n = read_num_be(chunk);
            crate::numfmt::push_dec(out, n);
            proof {
                assert(out@ =~= old(out)@ + extras_str(*ty, chunk@));
            }
        },
        Ty::LeNum => {
            out.push(':');
            out.push(' ');
            let n = read_num_le(chunk);
            crate::numfmt::push_dec(out, n);
            proof {
                assert(out@ =~= old(out)@ + extras_str(*ty, chunk@));
            }
        },
        Ty::Ip4 => {
            crate::numfmt::push_dec(out, chunk[0] as u64);
            out.push('.');
            crate::numfmt::push_dec(out, chunk[1] as u64);
            out.push('.');
            crate::numfmt::push_dec(out, chunk[2] as u64);
            out.push('.');
            crate::numfmt::push_dec(out, chunk[3] as u64);
            proof {
                assert(out@ =~= old(out)@ + extras_str(*ty, chunk@));
            }
        },
        Ty::Custom(l) => {
            out.push(';');
            out.push(' ');
            out.append(l.as_str());
            out.push(' ');
            out.push('(');
            if chunk.len() == 1 || chunk.len() == 2 || chunk.len() == 4 || chunk.len() == 8 {
                let n = read_num_le(chunk);
                crate::numfmt::push_dec(out, n);
            }
            out.push(')');
            proof {
                assert(out@ =~= old(out)@ + extras_str(*ty, chunk@));
            }
        },
    }
}

/// Appends one full output row for one chunk of a leaf.
fn push_row(out: &mut String, ty: &Ty, kind: &SegmentKind, chunk: &[u8])
    requires
        chunk@.len() <= 32,
        ty is BeNum || ty is LeNum ==> num_fits(chunk@.len()),
        ty is Ip4 ==> chunk@.len() == 4,
    ensures
        final(out)@ == old(out)@ + row_str(*ty, *kind, chunk@),
{
    match kind {
        SegmentKind::Line { tag: _, color } => {
            out.append(color_escape(*color));
        },
        _ => {},
    }
    push_hex_cells(out, chunk);
    push_tag_field(out, kind);
    push_extras(out, ty, chunk);
    out.append(reset_str());
    out.push('\n');
    proof {
        assert(out@ =~= old(out)@ + row_str(*ty, *kind, chunk@));
    }
}

/// Appends all output rows of a leaf covering `buf`.
fn push_leaf_rows(out: &mut String, ty: &Ty, kind: &SegmentKind, buf: &[u8])
    requires
        ty_fits(*ty, buf@.len() as nat),
    ensures
        final(out)@ == old(out)@ + rows(*ty, *kind, buf@),
{
    let mut off: usize = 0;
    proof {
        assert(buf@.skip(0) =~= buf@);
    }
    while off < buf.len()
        invariant
            0 <= off <= buf@.len(),
            ty_fits(*ty, (buf@.len() - off) as nat),
            out@ + rows(*ty, *kind, buf@.skip(off as int)) == old(out)@ + rows(
                *ty,
                *kind,
                buf@,
            ),
        decreases buf@.len() - off,
    {
        let ghost pre = out@;
        let ghost rest = buf@.skip(off as int);
        let end = if buf.len() - off > 32 {
            off + 32
        } else {
            buf.len()
        };
        let chunk = vstd::slice::slice_subrange(buf, off, end);
        proof {
            if rest.len() > 32 {
                assert(chunk@ =~= rest.take(32));
            } else {
                assert(chunk@ =~= rest);
            }
        }
        push_row(out, ty, kind, chunk);
        proof {
            if rest.len() > 32 {
                assert(buf@.skip(end as int) =~= rest.skip(32));
            } else {
                assert(buf@.skip(end as int) =~= Seq::<u8>::empty());
            }
            assert(out@ + rows(*ty, *kind, buf@.skip(end as int)) =~= pre + rows(
                *ty,
                *kind,
                rest,
            ));
        }
        off = end;
    }
    proof {
        assert(buf@.skip(off as int) =~= Seq::<u8>::empty());
        assert(out@ =~= old(out)@ + rows(*ty, *kind, buf@));
    }
}

/// Appends the full rendering of a node against the slice it covers:
/// depth-first over its children in ascending key order, one row per chunk
/// at the leaves, a blank line after each structural child.
pub fn render_seg(out: &mut String, buf: &[u8], seg: &Segment)
    requires
        crate::seg::seg_wf(*seg, buf@.len() as nat),
        renderable(*seg, buf@.len() as nat),
    ensures
        final(out)@ == old(out)@ + render_node(buf@, *seg),
    decreases *seg,
{
    if seg.childs.len() == 0 {
        push_leaf_rows(out, &seg.ty, &seg.kind, buf);
    } else {
        let mut i: usize = 0;
        while i < seg.childs.len()
            invariant
                crate::seg::seg_wf(*seg, buf@.len() as nat),
                renderable(*seg, buf@.len() as nat),
                seg.childs@.len() > 0,
                0 <= i <= seg.childs@.len(),
                out@ + render_childs(buf@, seg.childs@, i as int) == old(out)@ + render_childs(
                    buf@,
                    seg.childs@,
                    0,
                ),
            decreases seg.childs@.len() - i,
        {
            let ghost pre = out@;
            proof {
                assert(crate::seg::child_wf(seg.childs@[i as int], buf@.len() as nat));
                assert(child_renderable(seg.childs@[i as int]));
                assert(decreases_to!(*seg => seg.childs));
                assert(decreases_to!(seg.childs => seg.childs@));
                assert(decreases_to!(seg.childs@ => seg.childs@[i as int]));
                assert(decreases_to!(seg.childs@[i as int] => seg.childs@[i as int].1));
            }
            let c = &seg.childs[i];
            let sub = vstd::slice::slice_subrange(buf, c.0.0, c.0.1);
            render_seg(out, sub, &c.1);
            match &c.1.kind {
                SegmentKind::Header | SegmentKind::Block => {
                    out.push('\n');
                },
                _ => {},
            }
            proof {
                assert(out@ + render_childs(buf@, seg.childs@, i + 1) =~= pre + render_childs(
                    buf@,
                    seg.childs@,
                    i as int,
                ));
            }
            i = i + 1;
        }
    }
}

} // verus!

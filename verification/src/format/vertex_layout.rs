//! Laying out a model's vertex buffers for export: which attributes each buffer
//! holds, in which order, at which input and output offsets; half floats widen to
//! single floats in the output.
use vstd::prelude::*;
use crate::format::cmdl::{
    EVertexComponent, EVertexDataFormat, SVertexBufferInfo, SVertexBufferInfoSection,
    SVertexDataComponent, spec_vertex_byte_size,
};
use crate::format::model::{VertexBufferView, vbuf_section_view};
use crate::format::FormatError;

verus! {

/// One attribute of a vertex buffer: where it is read and written, in which formats,
/// how many bytes it is read from, and what it means.
#[derive(Copy, Clone, Debug, PartialEq, Eq, Structural)]
pub struct VertexBufferAttribute {
    pub in_offset: u32,
    pub out_offset: u32,
    pub in_format: EVertexDataFormat,
    pub in_size: u32,
    pub out_format: EVertexDataFormat,
    pub component: EVertexComponent,
}

/// The layout of one vertex buffer: its vertex count, its input and output strides
/// and its attributes.
#[derive(Clone, Debug)]
pub struct VertexBufferInfo {
    pub vertex_count: u32,
    pub in_stride: u32,
    pub out_stride: u32,
    pub attributes: Vec<VertexBufferAttribute>,
}

/// The value of a vertex buffer layout.
pub type BufferLayoutView = (u32, u32, u32, Seq<VertexBufferAttribute>);

pub open spec fn layout_view(b: VertexBufferInfo) -> BufferLayoutView {
    (b.vertex_count, b.in_stride, b.out_stride, b.attributes@)
}

/// Bytes of one attribute of format `f`.
pub open spec fn size_of_format(f: EVertexDataFormat) -> u32 {
    spec_vertex_byte_size(f.spec_code())
}

/// The attribute read for component `c`, before its output is laid out.
pub open spec fn input_attribute(c: SVertexDataComponent) -> VertexBufferAttribute {
    VertexBufferAttribute {
        in_offset: c.offset,
        out_offset: 0,
        in_format: c.format,
        in_size: size_of_format(c.format),
        out_format: EVertexDataFormat::Unknown,
        component: c.component,
    }
}

/// Adds component `c` to the buffer it names: the buffer takes the component's
/// stride when it has none yet; a component whose stride differs from the buffer's
/// is refused.
pub open spec fn add_component(infos: Seq<BufferLayoutView>, c: SVertexDataComponent) -> Result<Seq<BufferLayoutView>, FormatError> {
    let x = infos[c.buffer_index as int];
    if x.1 == 0 {
        Ok(infos.update(c.buffer_index as int, (x.0, c.stride, x.2, x.3.push(input_attribute(c)))))
    } else if x.1 != c.stride {
        Err(FormatError::InvalidData)
    } else {
        Ok(infos.update(c.buffer_index as int, (x.0, x.1, x.2, x.3.push(input_attribute(c)))))
    }
}

/// The buffers after adding the first `k` components of `comps` in order to `start`.
pub open spec fn add_components(start: Seq<BufferLayoutView>, comps: Seq<SVertexDataComponent>, k: int) -> Result<Seq<BufferLayoutView>, FormatError>
    decreases k,
{
    if k <= 0 {
        Ok(start)
    } else {
        match add_components(start, comps, k - 1) {
            Err(x) => Err(x),
            Ok(infos) => add_component(infos, comps[k - 1]),
        }
    }
}

/// The empty buffers of the vertex buffer entry `b`: as many as its last byte gives,
/// each with its vertex count.
pub open spec fn empty_buffers(b: VertexBufferView) -> Seq<BufferLayoutView> {
    Seq::new(b.2 as nat, |i: int| (b.0, 0u32, 0u32, Seq::<VertexBufferAttribute>::empty()))
}

/// The buffers of the vertex buffer entry `b`, with their components added.
pub open spec fn entry_buffers(b: VertexBufferView) -> Result<Seq<BufferLayoutView>, FormatError> {
    add_components(empty_buffers(b), b.1, b.1.len() as int)
}

/// The buffers of the first `k` vertex buffer entries, one entry's after another's.
pub open spec fn all_entry_buffers(v: Seq<VertexBufferView>, k: int) -> Result<Seq<BufferLayoutView>, FormatError>
    decreases k,
{
    if k <= 0 {
        Ok(Seq::empty())
    } else {
        match all_entry_buffers(v, k - 1) {
            Err(x) => Err(x),
            Ok(l) => match entry_buffers(v[k - 1]) {
                Err(x) => Err(x),
                Ok(m) => Ok(l + m),
            },
        }
    }
}

/// Every component that adding the components of entry `b` reaches names one of the
/// entry's buffers.
pub open spec fn entry_fits(b: VertexBufferView) -> bool {
    forall|k: int|
        0 <= k < b.1.len() && (#[trigger] add_components(empty_buffers(b), b.1, k)) is Ok ==> b.1[k].buffer_index
            < b.2
}

/// Every entry that laying out the buffers reaches fits (see `entry_fits`).
pub open spec fn entries_fit(v: Seq<VertexBufferView>) -> bool {
    forall|k: int| 0 <= k < v.len() && (#[trigger] all_entry_buffers(v, k)) is Ok ==> entry_fits(v[k])
}

/// The first position from `p` on in `o` whose attribute is read after `key`, or the
/// length of `o`.
pub open spec fn first_offset_after(o: Seq<VertexBufferAttribute>, key: u32, p: int) -> int
    decreases o.len() - p,
{
    if p >= o.len() || p < 0 {
        o.len() as int
    } else if o[p].in_offset > key {
        p
    } else {
        first_offset_after(o, key, p + 1)
    }
}

/// `s` in ascending order of input offset, attributes with equal offsets keeping
/// their order.
pub open spec fn sort_by_offset(s: Seq<VertexBufferAttribute>) -> Seq<VertexBufferAttribute>
    decreases s.len(),
{
    if s.len() == 0 {
        s
    } else {
        let o = sort_by_offset(s.drop_last());
        o.insert(first_offset_after(o, s.last().in_offset, 0), s.last())
    }
}

/// The output format of input format `f`: half floats widen to single floats.
pub open spec fn output_format(f: EVertexDataFormat) -> EVertexDataFormat {
    match f {
        EVertexDataFormat::R16Float => EVertexDataFormat::R32Float,
        EVertexDataFormat::Rg16Float => EVertexDataFormat::Rg32Float,
        EVertexDataFormat::Rgba16Float => EVertexDataFormat::Rgba32Float,
        _ => f,
    }
}

/// Output bytes of the first `i` attributes of `s`.
pub open spec fn out_prefix(s: Seq<VertexBufferAttribute>, i: int) -> int
    decreases i,
{
    if i <= 0 {
        0
    } else {
        out_prefix(s, i - 1) + size_of_format(output_format(s[i - 1].in_format))
    }
}

/// The attributes `s` with their output laid out one after another.
pub open spec fn laid_out(s: Seq<VertexBufferAttribute>) -> Seq<VertexBufferAttribute> {
    Seq::new(
        s.len(),
        |i: int|
            VertexBufferAttribute {
                out_offset: out_prefix(s, i) as u32,
                out_format: output_format(s[i].in_format),
                ..s[i]
            },
    )
}

/// A buffer with its attributes sorted (see `sort_by_offset`) and their output laid
/// out; its output stride is their output size.
pub open spec fn finished(b: BufferLayoutView) -> BufferLayoutView {
    let s = sort_by_offset(b.3);
    (b.0, b.1, out_prefix(s, s.len() as int) as u32, laid_out(s))
}

/// The layouts of the vertex buffers of the vertex buffer chunk `v`.
pub open spec fn spec_vertex_layouts(v: Seq<VertexBufferView>) -> Result<Seq<BufferLayoutView>, FormatError> {
    match all_entry_buffers(v, v.len() as int) {
        Err(x) => Err(x),
        Ok(l) => Ok(l.map_values(|b: BufferLayoutView| finished(b))),
    }
}

/// The output stride of every buffer that laying out `v` gives fits 32 bits.
pub open spec fn strides_fit(v: Seq<VertexBufferView>) -> bool {
    all_entry_buffers(v, v.len() as int) matches Ok(l) ==> forall|i: int| 0 <= i < l.len() ==> #[trigger] stride_fits(l[i])
}

/// The output stride of the buffer `b` fits 32 bits.
pub open spec fn stride_fits(b: BufferLayoutView) -> bool {
    out_prefix(sort_by_offset(b.3), sort_by_offset(b.3).len() as int) <= u32::MAX
}

pub open spec fn layouts_view(v: Seq<VertexBufferInfo>) -> Seq<BufferLayoutView> {
    v.map_values(|b: VertexBufferInfo| layout_view(b))
}

proof fn lemma_add_components_err(start: Seq<BufferLayoutView>, comps: Seq<SVertexDataComponent>, k: int, n: int)
    requires
        0 <= k <= n,
        add_components(start, comps, k) is Err,
    ensures
        add_components(start, comps, n) == add_components(start, comps, k),
    decreases n - k,
{
    if k < n {
        lemma_add_components_err(start, comps, k, n - 1);
    }
}

/// The buffers of one vertex buffer entry (see `entry_buffers`).
fn entry_layouts(b: &SVertexBufferInfo) -> (r: Result<Vec<VertexBufferInfo>, FormatError>)
    requires
        entry_fits((b.vertex_count, b.components@, b.unk)),
    ensures
        match r {
            Ok(v) => entry_buffers((b.vertex_count, b.components@, b.unk)) == Ok::<_, FormatError>(layouts_view(v@)),
            Err(x) => entry_buffers((b.vertex_count, b.components@, b.unk)) == Err::<Seq<BufferLayoutView>, _>(x),
        },
{
    let ghost bv: VertexBufferView = (b.vertex_count, b.components@, b.unk);
    let n = b.unk as usize;
    let mut infos: Vec<VertexBufferInfo> = Vec::new();
    let mut i: usize = 0;
    while i < n
        invariant
            bv == (b.vertex_count, b.components@, b.unk),
            n == b.unk,
            i <= n,
            layouts_view(infos@) == empty_buffers(bv).take(i as int),
        decreases n - i,
    {
        let ghost before = infos@;
        let e0 = VertexBufferInfo { vertex_count: b.vertex_count, in_stride: 0, out_stride: 0, attributes: Vec::new() };
        assert(layout_view(e0) == (b.vertex_count, 0u32, 0u32, Seq::<VertexBufferAttribute>::empty()));
        infos.push(e0);
        assert(layouts_view(infos@) =~= layouts_view(before).push(layout_view(e0)));
        assert(layouts_view(infos@) =~= empty_buffers(bv).take(i + 1));
        i = i + 1;
    }
    assert(empty_buffers(bv).take(n as int) =~= empty_buffers(bv));
    let mut k: usize = 0;
    while k < b.components.len()
        invariant
            bv == (b.vertex_count, b.components@, b.unk),
            entry_fits(bv),
            k <= b.components@.len(),
            add_components(empty_buffers(bv), bv.1, k as int) == Ok::<_, FormatError>(layouts_view(infos@)),
            infos@.len() == n,
            n == b.unk,
        decreases b.components.len() - k,
    {
        let c = b.components[k];
        let idx = c.buffer_index as usize;
        assert(c.buffer_index < b.unk);
        let ghost old_view = layouts_view(infos@);
        let mut x = infos.remove(idx);
        if x.in_stride == 0 {
            x.in_stride = c.stride;
        } else if x.in_stride != c.stride {
            proof {
                lemma_add_components_err(empty_buffers(bv), bv.1, k + 1, bv.1.len() as int);
            }
            return Err(FormatError::InvalidData);
        }
        let ghost old_attrs = x.attributes@;
        x.attributes.push(
            VertexBufferAttribute {
                in_offset: c.offset,
                out_offset: 0,
                in_format: c.format,
                in_size: c.format.byte_size(),
                out_format: EVertexDataFormat::Unknown,
                component: c.component,
            },
        );
        infos.insert(idx, x);
        assert(layouts_view(infos@) =~= add_component(old_view, c)->Ok_0);
        k = k + 1;
    }
    Ok(infos)
}

/// `s` sorted by input offset (see `sort_by_offset`).
fn sort_attributes(s: Vec<VertexBufferAttribute>) -> (r: Vec<VertexBufferAttribute>)
    ensures
        r@ == sort_by_offset(s@),
{
    let ghost input = s@;
    let mut rest = s;
    let total = rest.len();
    let mut out: Vec<VertexBufferAttribute> = Vec::new();
    let mut k: usize = 0;
    proof {
        assert(input.take(0) =~= Seq::<VertexBufferAttribute>::empty());
    }
    while rest.len() > 0
        invariant
            k + rest@.len() == input.len(),
            total == input.len(),
            rest@ == input.skip(k as int),
            out@ == sort_by_offset(input.take(k as int)),
        decreases rest@.len(),
    {
        let a = rest.remove(0);
        let ghost o = out@;
        let mut p: usize = 0;
        while p < out.len() && out[p].in_offset <= a.in_offset
            invariant
                o == out@,
                p <= out@.len(),
                first_offset_after(o, a.in_offset, 0) == first_offset_after(o, a.in_offset, p as int),
            decreases out.len() - p,
        {
            p = p + 1;
        }
        out.insert(p, a);
        proof {
            assert(input[k as int] == a);
            assert(input.take(k + 1).drop_last() =~= input.take(k as int));
            assert(input.take(k + 1).last() == a);
            assert(rest@ =~= input.skip(k + 1));
        }
        k = k + 1;
    }
    proof {
        assert(input.take(k as int) =~= input);
    }
    out
}

proof fn lemma_out_prefix_grows(s: Seq<VertexBufferAttribute>, i: int, j: int)
    requires
        0 <= i <= j,
    ensures
        out_prefix(s, i) <= out_prefix(s, j),
    decreases j - i,
{
    if i < j {
        lemma_out_prefix_grows(s, i, j - 1);
    }
}

/// The attributes `s` with their output laid out (see `laid_out`), and their output
/// size.
fn lay_out(s: &Vec<VertexBufferAttribute>) -> (r: (Vec<VertexBufferAttribute>, u32))
    requires
        out_prefix(s@, s@.len() as int) <= u32::MAX,
    ensures
        r.0@ == laid_out(s@),
        r.1 == out_prefix(s@, s@.len() as int),
{
    let mut out: Vec<VertexBufferAttribute> = Vec::new();
    let mut stride: u32 = 0;
    let mut i: usize = 0;
    while i < s.len()
        invariant
            i <= s@.len(),
            out_prefix(s@, s@.len() as int) <= u32::MAX,
            stride == out_prefix(s@, i as int),
            out@ == laid_out(s@).take(i as int),
        decreases s.len() - i,
    {
        let a = s[i];
        let f = match a.in_format {
            EVertexDataFormat::R16Float => EVertexDataFormat::R32Float,
            EVertexDataFormat::Rg16Float => EVertexDataFormat::Rg32Float,
            EVertexDataFormat::Rgba16Float => EVertexDataFormat::Rgba32Float,
            g => g,
        };
        out.push(VertexBufferAttribute { out_offset: stride, out_format: f, ..a });
        proof {
            lemma_out_prefix_grows(s@, i + 1, s@.len() as int);
        }
        stride = stride + f.byte_size();
        assert(out@ =~= laid_out(s@).take(i + 1));
        i = i + 1;
    }
    assert(out@ =~= laid_out(s@));
    (out, stride)
}

proof fn lemma_all_entry_buffers_err(v: Seq<VertexBufferView>, k: int, n: int)
    requires
        0 <= k <= n,
        all_entry_buffers(v, k) is Err,
    ensures
        all_entry_buffers(v, n) == all_entry_buffers(v, k),
    decreases n - k,
{
    if k < n {
        lemma_all_entry_buffers_err(v, k, n - 1);
    }
}

/// Lays out the vertex buffers of the vertex buffer chunk `vbuf` for export (see
/// `spec_vertex_layouts`).
pub fn vertex_buffer_layouts(vbuf: &SVertexBufferInfoSection) -> (r: Result<Vec<VertexBufferInfo>, FormatError>)
    requires
        entries_fit(vbuf_section_view(*vbuf)),
        strides_fit(vbuf_section_view(*vbuf)),
    ensures
        match r {
            Ok(v) => spec_vertex_layouts(vbuf_section_view(*vbuf)) == Ok::<_, FormatError>(layouts_view(v@)),
            Err(x) => spec_vertex_layouts(vbuf_section_view(*vbuf)) == Err::<Seq<BufferLayoutView>, _>(x),
        },
{
    let ghost v = vbuf_section_view(*vbuf);
    let mut all: Vec<VertexBufferInfo> = Vec::new();
    let mut k: usize = 0;
    proof {
        assert(layouts_view(all@) =~= Seq::<BufferLayoutView>::empty());
    }
    while k < vbuf.info.len()
        invariant
            v == vbuf_section_view(*vbuf),
            entries_fit(v),
            k <= v.len(),
            all_entry_buffers(v, k as int) == Ok::<_, FormatError>(layouts_view(all@)),
        decreases vbuf.info.len() - k,
    {
        let entry = &vbuf.info[k];
        assert(v[k as int] == (entry.vertex_count, entry.components@, entry.unk));
        let mut more = match entry_layouts(entry) {
            Ok(m) => m,
            Err(x) => {
                proof {
                    lemma_all_entry_buffers_err(v, k + 1, v.len() as int);
                }
                return Err(x);
            },
        };
        let ghost before = layouts_view(all@);
        let ghost added = layouts_view(more@);
        all.append(&mut more);
        assert(layouts_view(all@) =~= before + added);
        k = k + 1;
    }
    let ghost l = layouts_view(all@);
    proof {
        assert(all_entry_buffers(v, v.len() as int) == Ok::<_, FormatError>(l));
        assert(strides_fit(v));
        assert(forall|i: int| 0 <= i < l.len() ==> #[trigger] stride_fits(l[i]));
    }
    let mut out: Vec<VertexBufferInfo> = Vec::new();
    let mut j: usize = 0;
    while j < all.len()
        invariant
            v == vbuf_section_view(*vbuf),
            forall|i: int| 0 <= i < l.len() ==> #[trigger] stride_fits(l[i]),
            all_entry_buffers(v, v.len() as int) == Ok::<_, FormatError>(l),
            l == layouts_view(all@),
            j <= all@.len(),
            layouts_view(out@) == l.map_values(|b: BufferLayoutView| finished(b)).take(j as int),
        decreases all.len() - j,
    {
        let b = &all[j];
        assert(layout_view(all@[j as int]) == l[j as int]);
        let sorted = sort_attributes(b.attributes.clone());
        assert(sorted@ == sort_by_offset(l[j as int].3));
        assert(stride_fits(l[j as int]));
        let (attributes, out_stride) = lay_out(&sorted);
        let ghost before = out@;
        let nb = VertexBufferInfo { vertex_count: b.vertex_count, in_stride: b.in_stride, out_stride, attributes };
        assert(layout_view(nb) == finished(l[j as int]));
        out.push(nb);
        assert(layouts_view(out@) =~= layouts_view(before).push(layout_view(nb)));
        assert(layouts_view(out@) =~= l.map_values(|b: BufferLayoutView| finished(b)).take(j + 1));
        j = j + 1;
    }
    assert(l.map_values(|b: BufferLayoutView| finished(b)).take(j as int) =~= l.map_values(
        |b: BufferLayoutView| finished(b),
    ));
    Ok(out)
}

} // verus!

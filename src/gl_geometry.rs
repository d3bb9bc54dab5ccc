use vstd::prelude::*;

use crate::index::{cast_to_u32_array, cast_to_u32_line_array, line_indices, u32_values, IndexValues};
use crate::layout::{
    interleave, lemma_stride_nonneg, lemma_stride_prefix, offset_of, stride_of, vertex_count_of,
    well_shaped, interleaved, Attribute, BufferData,
};

verus! {

/// Why a list of attributes cannot be compiled.
#[derive(Debug, PartialEq, Eq, Structural)]
pub enum GeometryError {
    /// An attribute has no components per vertex, the attributes describe
    /// different numbers of vertices, or two attributes share a name.
    Malformed,
    /// The stride or the interleaved buffer's length does not fit in `usize`.
    TooLarge,
}

/// The stride and the interleaved buffer's length both fit in `usize`.
pub open spec fn fits<V>(attrs: Seq<Attribute<V>>) -> bool {
    &&& stride_of(attrs) <= usize::MAX
    &&& vertex_count_of(attrs) * stride_of(attrs) <= usize::MAX
}

/// The index values as `u32`; no index gives an empty list.
pub open spec fn index_u32s(index: Option<IndexValues>) -> Seq<u32> {
    match index {
        Some(v) => u32_values(&v),
        None => Seq::empty(),
    }
}

/// `bd` names every attribute in order, each with its offset in the record.
pub open spec fn offsets_match<V>(bd: Seq<BufferData>, attrs: Seq<Attribute<V>>) -> bool {
    &&& bd.len() == attrs.len()
    &&& forall|i: int|
        0 <= i < attrs.len() ==> {
            &&& (#[trigger] bd[i]).name@ == attrs[i].name@
            &&& bd[i].offset == offset_of(attrs, i)
        }
}

/// What an offset query answers: the offset of the attribute called `name`,
/// once the vertex buffer has been compiled.
pub open spec fn offset_lookup<V>(compiled: bool, attrs: Seq<Attribute<V>>, name: Seq<char>) -> Option<
    usize,
> {
    if compiled && exists|i: int| 0 <= i < attrs.len() && #[trigger] attrs[i].name@ == name {
        let i = choose|i: int| 0 <= i < attrs.len() && #[trigger] attrs[i].name@ == name;
        Some(offset_of(attrs, i) as usize)
    } else {
        None
    }
}

/// Once the vertex buffer is compiled, the offset reported for each
/// attribute's name is the sum of the item sizes of the attributes before it.
pub proof fn lemma_offset_of_each_attribute<V>(attrs: Seq<Attribute<V>>, i: int)
    requires
        well_shaped(attrs),
        fits(attrs),
        0 <= i < attrs.len(),
    ensures
        0 <= offset_of(attrs, i) <= usize::MAX,
        offset_lookup(true, attrs, attrs[i].name@) == Some(offset_of(attrs, i) as usize),
{
    lemma_stride_nonneg(attrs.take(i));
    lemma_stride_prefix(attrs, i);
    let name = attrs[i].name@;
    assert(exists|j: int| 0 <= j < attrs.len() && #[trigger] attrs[j].name@ == name);
    let c = choose|j: int| 0 <= j < attrs.len() && #[trigger] attrs[j].name@ == name;
    assert(c == i) by {
        if c < i {
            assert(attrs[c].name@ != attrs[i].name@);
        } else if c > i {
            assert(attrs[i].name@ != attrs[c].name@);
        }
    }
}

/// A name that no attribute has gives no offset, compiled or not.
pub proof fn lemma_offset_of_absent_name<V>(compiled: bool, attrs: Seq<Attribute<V>>, name: Seq<char>)
    requires
        forall|j: int| 0 <= j < attrs.len() ==> #[trigger] attrs[j].name@ != name,
    ensures
        offset_lookup(compiled, attrs, name) == None::<usize>,
{
}

/// A geometry together with the buffers compiled from it. Each buffer has a
/// flag that says it still has to be compiled; a compile clears it.
pub struct GLGeometryData<V> {
    attributes: Vec<Attribute<V>>,
    index: Option<IndexValues>,
    vertex_count: usize,
    stride: usize,
    buffer_data: Vec<BufferData>,
    vertex_buffer: Vec<V>,
    index_buffer: Vec<u32>,
    line_index_buffer: Vec<u32>,
    vertex_needs_compile: bool,
    index_needs_compile: bool,
    index_line_needs_compile: bool,
}

impl<V: Copy> GLGeometryData<V> {
    pub closed spec fn attributes_view(&self) -> Seq<Attribute<V>> {
        self.attributes@
    }

    pub closed spec fn index_view(&self) -> Option<IndexValues> {
        self.index
    }

    pub closed spec fn vertex_buffer_view(&self) -> Seq<V> {
        self.vertex_buffer@
    }

    pub closed spec fn index_buffer_view(&self) -> Seq<u32> {
        self.index_buffer@
    }

    pub closed spec fn line_index_buffer_view(&self) -> Seq<u32> {
        self.line_index_buffer@
    }

    pub closed spec fn vertex_dirty(&self) -> bool {
        self.vertex_needs_compile
    }

    pub closed spec fn index_dirty(&self) -> bool {
        self.index_needs_compile
    }

    pub closed spec fn line_index_dirty(&self) -> bool {
        self.index_line_needs_compile
    }

    /// The attributes are well shaped and fit, and each buffer whose flag is
    /// clear holds what its compile produces.
    pub closed spec fn wf(&self) -> bool {
        &&& well_shaped(self.attributes@)
        &&& fits(self.attributes@)
        &&& self.vertex_count == vertex_count_of(self.attributes@)
        &&& self.stride == stride_of(self.attributes@)
        &&& if self.vertex_needs_compile {
            self.buffer_data@.len() == 0
        } else {
            &&& self.vertex_buffer@ == interleaved(self.attributes@, self.vertex_count as int)
            &&& offsets_match(self.buffer_data@, self.attributes@)
        }
        &&& !self.index_needs_compile ==> self.index_buffer@ == index_u32s(self.index)
        &&& !self.index_line_needs_compile ==> self.line_index_buffer@ == line_indices(
            index_u32s(self.index),
        )
    }
}

/// Whether the attributes are well shaped.
fn check_shape<V>(attrs: &Vec<Attribute<V>>) -> (r: bool)
    ensures
        r == well_shaped(attrs@),
{
    if attrs.len() == 0 {
        return true;
    }
    if attrs[0].item_size == 0 {
        assert(!(attrs@[0].item_size >= 1));
        return false;
    }
    let nv = attrs[0].values.len() / attrs[0].item_size;
    assert(nv == vertex_count_of(attrs@));
    let mut i: usize = 0;
    while i < attrs.len()
        invariant
            attrs@.len() > 0,
            nv == vertex_count_of(attrs@),
            i <= attrs.len(),
            forall|j: int|
                0 <= j < i ==> {
                    &&& #[trigger] attrs@[j].item_size >= 1
                    &&& attrs@[j].values@.len() == nv * attrs@[j].item_size
                },
            forall|j: int, k: int|
                0 <= j < k < i ==> #[trigger] attrs@[j].name@ != #[trigger] attrs@[k].name@,
        decreases attrs.len() - i,
    {
        let a = &attrs[i];
        if a.item_size == 0 {
            assert(!(attrs@[i as int].item_size >= 1));
            return false;
        }
        match nv.checked_mul(a.item_size) {
            Some(p) => {
                if p != a.values.len() {
                    assert(attrs@[i as int].item_size >= 1);
                    assert(attrs@[i as int].values@.len() != nv * attrs@[i as int].item_size);
                    return false;
                }
            },
            None => {
                let len = a.values.len();
                assert(attrs@[i as int].item_size >= 1);
                assert(len != nv * attrs@[i as int].item_size);
                return false;
            },
        }
        let mut j: usize = 0;
        while j < i
            invariant
                i < attrs.len(),
                j <= i,
                forall|k: int| 0 <= k < j ==> attrs@[k].name@ != attrs@[i as int].name@,
            decreases i - j,
        {
            if attrs[j].name == attrs[i].name {
                assert(attrs@[j as int].name@ == attrs@[i as int].name@);
                return false;
            }
            j += 1;
        }
        i += 1;
    }
    true
}

/// The stride, when it fits in `usize`.
fn checked_stride<V>(attrs: &Vec<Attribute<V>>) -> (r: Option<usize>)
    ensures
        match r {
            Some(s) => s == stride_of(attrs@),
            None => stride_of(attrs@) > usize::MAX,
        },
{
    let mut stride: usize = 0;
    let mut i: usize = 0;
    while i < attrs.len()
        invariant
            i <= attrs.len(),
            stride == stride_of(attrs@.take(i as int)),
        decreases attrs.len() - i,
    {
        let ghost t = attrs@.take(i + 1);
        assert(t.drop_last() =~= attrs@.take(i as int));
        assert(t.last() == attrs@[i as int]);
        match stride.checked_add(attrs[i].item_size) {
            Some(s) => {
                stride = s;
            },
            None => {
                proof {
                    lemma_stride_prefix(attrs@, i + 1);
                }
                return None;
            },
        }
        i += 1;
    }
    assert(attrs@.take(attrs.len() as int) =~= attrs@);
    Some(stride)
}

/// One `BufferData` per attribute, in order, with its offset in the record.
fn compute_buffer_data<V>(attrs: &Vec<Attribute<V>>) -> (r: Vec<BufferData>)
    requires
        stride_of(attrs@) <= usize::MAX,
    ensures
        offsets_match(r@, attrs@),
{
    let mut out: Vec<BufferData> = Vec::new();
    let mut offset: usize = 0;
    let mut i: usize = 0;
    while i < attrs.len()
        invariant
            stride_of(attrs@) <= usize::MAX,
            i <= attrs.len(),
            offset == stride_of(attrs@.take(i as int)),
            out@.len() == i,
            forall|j: int|
                0 <= j < i ==> {
                    &&& (#[trigger] out@[j]).name@ == attrs@[j].name@
                    &&& out@[j].offset == offset_of(attrs@, j)
                },
        decreases attrs.len() - i,
    {
        let a = &attrs[i];
        out.push(BufferData::new(a.name.as_str(), offset));
        let ghost t = attrs@.take(i + 1);
        assert(t.drop_last() =~= attrs@.take(i as int));
        assert(t.last() == attrs@[i as int]);
        proof {
            lemma_stride_prefix(attrs@, i + 1);
        }
        offset = offset + a.item_size;
        i += 1;
    }
    out
}

impl<V: Copy> GLGeometryData<V> {
    /// Takes a geometry: its attributes in layout order and its optional
    /// index. Every buffer starts out needing a compile.
    pub fn new(attributes: Vec<Attribute<V>>, index: Option<IndexValues>) -> (r: Result<
        Self,
        GeometryError,
    >)
        ensures
            match r {
                Ok(g) => {
                    &&& well_shaped(attributes@)
                    &&& fits(attributes@)
                    &&& g.wf()
                    &&& g.attributes_view() == attributes@
                    &&& g.index_view() == index
                    &&& g.vertex_dirty()
                    &&& g.index_dirty()
                    &&& g.line_index_dirty()
                },
                Err(GeometryError::Malformed) => !well_shaped(attributes@),
                Err(GeometryError::TooLarge) => well_shaped(attributes@) && !fits(attributes@),
            },
    {
        if !check_shape(&attributes) {
            return Err(GeometryError::Malformed);
        }
        let vertex_count: usize = if attributes.len() == 0 {
            0
        } else {
            attributes[0].values.len() / attributes[0].item_size
        };
        let stride = match checked_stride(&attributes) {
            Some(s) => s,
            None => {
                return Err(GeometryError::TooLarge);
            },
        };
        if vertex_count.checked_mul(stride).is_none() {
            return Err(GeometryError::TooLarge);
        }
        Ok(
            GLGeometryData {
                attributes,
                index,
                vertex_count,
                stride,
                buffer_data: Vec::new(),
                vertex_buffer: Vec::new(),
                index_buffer: Vec::new(),
                line_index_buffer: Vec::new(),
                vertex_needs_compile: true,
                index_needs_compile: true,
                index_line_needs_compile: true,
            },
        )
    }
}

impl<V: Copy> GLGeometryData<V> {
    fn compile_vertex_buffer(&mut self)
        requires
            old(self).wf(),
        ensures
            final(self).wf(),
            !final(self).vertex_dirty(),
            final(self).attributes_view() == old(self).attributes_view(),
            final(self).index_view() == old(self).index_view(),
            final(self).index_dirty() == old(self).index_dirty(),
            final(self).line_index_dirty() == old(self).line_index_dirty(),
            final(self).index_buffer_view() == old(self).index_buffer_view(),
            final(self).line_index_buffer_view() == old(self).line_index_buffer_view(),
    {
        let vertex_array = interleave(&self.attributes, self.vertex_count);
        let buffer_data = compute_buffer_data(&self.attributes);
        self.vertex_buffer = vertex_array;
        self.buffer_data = buffer_data;
        self.vertex_needs_compile = false;
    }

    /// Compiles the interleaved vertex buffer when `force` is set or it has
    /// not been compiled yet, and says whether it did. Otherwise nothing
    /// changes.
    pub fn get_vertex_buffer(&mut self, force: bool) -> (compiled: bool)
        requires
            old(self).wf(),
        ensures
            final(self).wf(),
            compiled == (force || old(self).vertex_dirty()),
            !compiled ==> *final(self) == *old(self),
            !final(self).vertex_dirty(),
            final(self).vertex_buffer_view() == interleaved(
                old(self).attributes_view(),
                vertex_count_of(old(self).attributes_view()),
            ),
            final(self).attributes_view() == old(self).attributes_view(),
            final(self).index_view() == old(self).index_view(),
            final(self).index_dirty() == old(self).index_dirty(),
            final(self).line_index_dirty() == old(self).line_index_dirty(),
            final(self).index_buffer_view() == old(self).index_buffer_view(),
            final(self).line_index_buffer_view() == old(self).line_index_buffer_view(),
    {
        if force || self.vertex_needs_compile {
            self.compile_vertex_buffer();
            true
        } else {
            false
        }
    }

    fn compile_index_buffer(&mut self)
        requires
            old(self).wf(),
        ensures
            final(self).wf(),
            !final(self).index_dirty(),
            final(self).attributes_view() == old(self).attributes_view(),
            final(self).index_view() == old(self).index_view(),
            final(self).vertex_dirty() == old(self).vertex_dirty(),
            final(self).line_index_dirty() == old(self).line_index_dirty(),
            final(self).vertex_buffer_view() == old(self).vertex_buffer_view(),
            final(self).line_index_buffer_view() == old(self).line_index_buffer_view(),
    {
        let index_array = match &self.index {
            Some(index) => cast_to_u32_array(index),
            None => Vec::new(),
        };
        self.index_needs_compile = false;
        self.index_buffer = index_array;
    }

    /// Compiles the triangle index buffer when `force` is set or it has not
    /// been compiled yet, and says whether it did. Without an index the
    /// buffer is empty.
    pub fn get_index_buffer(&mut self, force: bool) -> (compiled: bool)
        requires
            old(self).wf(),
        ensures
            final(self).wf(),
            compiled == (force || old(self).index_dirty()),
            !compiled ==> *final(self) == *old(self),
            !final(self).index_dirty(),
            final(self).index_buffer_view() == index_u32s(old(self).index_view()),
            final(self).attributes_view() == old(self).attributes_view(),
            final(self).index_view() == old(self).index_view(),
            final(self).vertex_dirty() == old(self).vertex_dirty(),
            final(self).line_index_dirty() == old(self).line_index_dirty(),
            final(self).vertex_buffer_view() == old(self).vertex_buffer_view(),
            final(self).line_index_buffer_view() == old(self).line_index_buffer_view(),
    {
        if force || self.index_needs_compile {
            self.compile_index_buffer();
            true
        } else {
            false
        }
    }

    fn compile_line_index_buffer(&mut self)
        requires
            old(self).wf(),
        ensures
            final(self).wf(),
            !final(self).line_index_dirty(),
            final(self).attributes_view() == old(self).attributes_view(),
            final(self).index_view() == old(self).index_view(),
            final(self).vertex_dirty() == old(self).vertex_dirty(),
            final(self).index_dirty() == old(self).index_dirty(),
            final(self).vertex_buffer_view() == old(self).vertex_buffer_view(),
            final(self).index_buffer_view() == old(self).index_buffer_view(),
    {
        let line_index = match &self.index {
            Some(index) => cast_to_u32_line_array(index),
            None => {
                assert(line_indices(Seq::empty()) =~= Seq::<u32>::empty());
                Vec::new()
            },
        };
        self.index_line_needs_compile = false;
        self.line_index_buffer = line_index;
    }

    /// Compiles the line index buffer, two entries per triangle edge, when
    /// `force` is set or it has not been compiled yet, and says whether it
    /// did. Without an index the buffer is empty.
    pub fn get_line_index_buffer(&mut self, force: bool) -> (compiled: bool)
        requires
            old(self).wf(),
        ensures
            final(self).wf(),
            compiled == (force || old(self).line_index_dirty()),
            !compiled ==> *final(self) == *old(self),
            !final(self).line_index_dirty(),
            final(self).line_index_buffer_view() == line_indices(
                index_u32s(old(self).index_view()),
            ),
            final(self).attributes_view() == old(self).attributes_view(),
            final(self).index_view() == old(self).index_view(),
            final(self).vertex_dirty() == old(self).vertex_dirty(),
            final(self).index_dirty() == old(self).index_dirty(),
            final(self).vertex_buffer_view() == old(self).vertex_buffer_view(),
            final(self).index_buffer_view() == old(self).index_buffer_view(),
    {
        if force || self.index_line_needs_compile {
            self.compile_line_index_buffer();
            true
        } else {
            false
        }
    }

    /// The offset of the attribute called `name` in each vertex record;
    /// `None` before the vertex buffer is compiled or for an unknown name.
    pub fn get_offset(&self, name: &str) -> (r: Option<usize>)
        requires
            self.wf(),
        ensures
            r == offset_lookup(!self.vertex_dirty(), self.attributes_view(), name@),
    {
        let key = name.to_owned();
        let mut i: usize = 0;
        while i < self.buffer_data.len()
            invariant
                self.wf(),
                key@ == name@,
                i <= self.buffer_data.len(),
                forall|j: int| 0 <= j < i ==> self.buffer_data@[j].name@ != name@,
            decreases self.buffer_data.len() - i,
        {
            if self.buffer_data[i].name == key {
                let ghost attrs = self.attributes@;
                assert(attrs[i as int].name@ == name@);
                let ghost c = choose|c: int| 0 <= c < attrs.len() && #[trigger] attrs[c].name@ == name@;
                assert(c == i) by {
                    if c < i {
                        assert(attrs[c].name@ != attrs[i as int].name@);
                    } else if c > i {
                        assert(attrs[i as int].name@ != attrs[c].name@);
                    }
                }
                return Some(self.buffer_data[i].offset);
            }
            i += 1;
        }
        proof {
            if !self.vertex_needs_compile {
                assert forall|j: int| 0 <= j < self.attributes@.len() implies #[trigger] self.attributes@[j].name@ != name@ by {
                    assert(self.buffer_data@[j].name@ == self.attributes@[j].name@);
                }
            }
        }
        None
    }

    /// The compiled interleaved vertex buffer.
    pub fn vertex_buffer(&self) -> (r: &Vec<V>)
        ensures
            r@ == self.vertex_buffer_view(),
    {
        &self.vertex_buffer
    }

    /// The compiled triangle index buffer.
    pub fn index_buffer(&self) -> (r: &Vec<u32>)
        ensures
            r@ == self.index_buffer_view(),
    {
        &self.index_buffer
    }

    /// The compiled line index buffer.
    pub fn line_index_buffer(&self) -> (r: &Vec<u32>)
        ensures
            r@ == self.line_index_buffer_view(),
    {
        &self.line_index_buffer
    }

    /// Number of components in one vertex record.
    pub fn stride(&self) -> (r: usize)
        requires
            self.wf(),
        ensures
            r == stride_of(self.attributes_view()),
    {
        self.stride
    }

    /// Number of vertices described by the attributes.
    pub fn vertex_count(&self) -> (r: usize)
        requires
            self.wf(),
        ensures
            r == vertex_count_of(self.attributes_view()),
    {
        self.vertex_count
    }
}

} // verus!

use vstd::prelude::*;

verus! {

/// One named per-vertex property: `values` holds `item_size` components for
/// each vertex, one vertex after the other.
pub struct Attribute<V> {
    pub name: String,
    pub item_size: usize,
    pub values: Vec<V>,
}

impl<V> Attribute<V> {
    pub fn new(name: &str, values: Vec<V>, item_size: usize) -> (r: Self)
        ensures
            r.name@ == name@,
            r.item_size == item_size,
            r.values@ == values@,
    {
        Attribute { name: name.to_owned(), item_size, values }
    }
}

/// Where the first component of a named attribute sits inside one
/// interleaved vertex record.
pub struct BufferData {
    pub name: String,
    pub offset: usize,
}

impl BufferData {
    pub fn new(name: &str, offset: usize) -> (r: Self)
        ensures
            r.name@ == name@,
            r.offset == offset,
    {
        BufferData { name: name.to_owned(), offset }
    }
}

/// Number of components in one interleaved vertex record.
pub open spec fn stride_of<V>(attrs: Seq<Attribute<V>>) -> int
    decreases attrs.len(),
{
    if attrs.len() == 0 {
        0
    } else {
        stride_of(attrs.drop_last()) + attrs.last().item_size
    }
}

/// Position of attribute `i`'s first component inside a vertex record.
pub open spec fn offset_of<V>(attrs: Seq<Attribute<V>>, i: int) -> int {
    stride_of(attrs.take(i))
}

/// Number of vertices, read from the first attribute.
pub open spec fn vertex_count_of<V>(attrs: Seq<Attribute<V>>) -> int {
    if attrs.len() == 0 {
        0
    } else {
        (attrs[0].values@.len() as int) / (attrs[0].item_size as int)
    }
}

/// Every attribute has at least one component per vertex and all attributes
/// describe the same number of vertices.
pub open spec fn uniform<V>(attrs: Seq<Attribute<V>>) -> bool {
    forall|i: int|
        0 <= i < attrs.len() ==> {
            &&& #[trigger] attrs[i].item_size >= 1
            &&& attrs[i].values@.len() == vertex_count_of(attrs) * attrs[i].item_size
        }
}

/// A uniform list of attributes in which no two share a name.
pub open spec fn well_shaped<V>(attrs: Seq<Attribute<V>>) -> bool {
    &&& uniform(attrs)
    &&& forall|i: int, j: int|
        0 <= i < j < attrs.len() ==> #[trigger] attrs[i].name@ != #[trigger] attrs[j].name@
}

/// The components of vertex `v`, attribute after attribute.
pub open spec fn record_of<V>(attrs: Seq<Attribute<V>>, v: int) -> Seq<V>
    decreases attrs.len(),
{
    if attrs.len() == 0 {
        Seq::empty()
    } else {
        let s = attrs.last().item_size as int;
        record_of(attrs.drop_last(), v) + attrs.last().values@.subrange(v * s, v * s + s)
    }
}

/// The records of the first `n` vertices, one after the other.
pub open spec fn interleaved<V>(attrs: Seq<Attribute<V>>, n: int) -> Seq<V>
    decreases n,
{
    if n <= 0 {
        Seq::empty()
    } else {
        interleaved(attrs, n - 1) + record_of(attrs, n - 1)
    }
}

pub proof fn lemma_stride_nonneg<V>(attrs: Seq<Attribute<V>>)
    ensures
        stride_of(attrs) >= 0,
    decreases attrs.len(),
{
    if attrs.len() > 0 {
        lemma_stride_nonneg(attrs.drop_last());
    }
}

/// The stride of a prefix never exceeds the stride of the whole list.
pub proof fn lemma_stride_prefix<V>(attrs: Seq<Attribute<V>>, j: int)
    requires
        0 <= j <= attrs.len(),
    ensures
        stride_of(attrs.take(j)) <= stride_of(attrs),
    decreases attrs.len(),
{
    if j < attrs.len() {
        assert(attrs.drop_last().take(j) =~= attrs.take(j));
        lemma_stride_prefix(attrs.drop_last(), j);
    } else {
        assert(attrs.take(j) =~= attrs);
    }
}

/// A record holds exactly `stride` components.
proof fn lemma_record_len<V>(attrs: Seq<Attribute<V>>, v: int)
    requires
        0 <= v,
        forall|i: int|
            0 <= i < attrs.len() ==> (v + 1) * attrs[i].item_size <= attrs[i].values@.len(),
    ensures
        record_of(attrs, v).len() == stride_of(attrs),
    decreases attrs.len(),
{
    if attrs.len() > 0 {
        let s = attrs.last().item_size as int;
        assert(0 <= v * s) by (nonlinear_arith)
            requires
                0 <= v,
                0 <= s,
        ;
        assert((v + 1) * s == v * s + s) by (nonlinear_arith);
        assert(attrs.last() == attrs[attrs.len() - 1]);
        lemma_record_len(attrs.drop_last(), v);
    }
}

/// Component `k` of attribute `i` in the record of vertex `v`.
proof fn lemma_record_index<V>(attrs: Seq<Attribute<V>>, v: int, i: int, k: int)
    requires
        0 <= v,
        forall|j: int|
            0 <= j < attrs.len() ==> (v + 1) * attrs[j].item_size <= attrs[j].values@.len(),
        0 <= i < attrs.len(),
        0 <= k < attrs[i].item_size,
    ensures
        record_of(attrs, v)[offset_of(attrs, i) + k] == attrs[i].values@[v * attrs[i].item_size
            + k],
    decreases attrs.len(),
{
    let n = attrs.len() as int;
    let d = attrs.drop_last();
    lemma_record_len(d, v);
    let s = attrs[i].item_size as int;
    assert(0 <= v * s) by (nonlinear_arith)
        requires
            0 <= v,
            0 <= s,
    ;
    assert((v + 1) * s == v * s + s) by (nonlinear_arith);
    assert(record_of(attrs, v) == record_of(d, v) + attrs[n - 1].values@.subrange(
        v * attrs[n - 1].item_size,
        v * attrs[n - 1].item_size + attrs[n - 1].item_size,
    ));
    assert((v + 1) * s <= attrs[i].values@.len());
    if i == n - 1 {
        assert(attrs.take(i) =~= d);
        assert(offset_of(attrs, i) == stride_of(d));
        assert(record_of(attrs, v)[stride_of(d) + k] == attrs[i].values@.subrange(
            v * s,
            v * s + s,
        )[k]);
    } else {
        assert(attrs.take(i) =~= d.take(i));
        assert(d.take(i + 1).drop_last() =~= d.take(i));
        assert(d.take(i + 1).last() == attrs[i]);
        assert(stride_of(d.take(i + 1)) == offset_of(d, i) + s);
        assert(d[i] == attrs[i]);
        lemma_stride_nonneg(d.take(i));
        lemma_stride_prefix(d, i + 1);
        lemma_record_index(d, v, i, k);
        assert(offset_of(attrs, i) == offset_of(d, i));
    }
}

proof fn lemma_interleaved_len<V>(attrs: Seq<Attribute<V>>, n: int)
    requires
        0 <= n,
        forall|j: int| 0 <= j < attrs.len() ==> n * attrs[j].item_size <= attrs[j].values@.len(),
    ensures
        interleaved(attrs, n).len() == n * stride_of(attrs),
    decreases n,
{
    if n > 0 {
        assert forall|j: int| 0 <= j < attrs.len() implies (n - 1) * attrs[j].item_size
            <= attrs[j].values@.len() by {
            let s = attrs[j].item_size as int;
            assert((n - 1) * s <= n * s) by (nonlinear_arith)
                requires
                    0 <= s,
            ;
        }
        lemma_interleaved_len(attrs, n - 1);
        lemma_record_len(attrs, n - 1);
        let t = stride_of(attrs);
        assert((n - 1) * t + t == n * t) by (nonlinear_arith);
        assert(interleaved(attrs, n) == interleaved(attrs, n - 1) + record_of(attrs, n - 1));
    } else {
        let t = stride_of(attrs);
        assert(n * t == 0) by (nonlinear_arith)
            requires
                n == 0,
        ;
    }
}

proof fn lemma_interleaved_index<V>(attrs: Seq<Attribute<V>>, n: int, v: int, j: int)
    requires
        0 <= v < n,
        0 <= j < stride_of(attrs),
        forall|i: int| 0 <= i < attrs.len() ==> n * attrs[i].item_size <= attrs[i].values@.len(),
    ensures
        interleaved(attrs, n)[v * stride_of(attrs) + j] == record_of(attrs, v)[j],
    decreases n,
{
    let t = stride_of(attrs);
    assert forall|i: int| 0 <= i < attrs.len() implies (n - 1) * attrs[i].item_size
        <= attrs[i].values@.len() by {
        let s = attrs[i].item_size as int;
        assert((n - 1) * s <= n * s) by (nonlinear_arith)
            requires
                0 <= s,
        ;
    }
    assert forall|i: int| 0 <= i < attrs.len() implies (v + 1) * attrs[i].item_size
        <= attrs[i].values@.len() by {
        let s = attrs[i].item_size as int;
        assert((v + 1) * s <= n * s) by (nonlinear_arith)
            requires
                0 <= s,
                v < n,
        ;
    }
    lemma_interleaved_len(attrs, n - 1);
    lemma_record_len(attrs, n - 1);
    if v < n - 1 {
        assert(v * t + j < (n - 1) * t) by (nonlinear_arith)
            requires
                0 <= v,
                0 <= j,
                v < n - 1,
                j < t,
        ;
        lemma_interleaved_index(attrs, n - 1, v, j);
    } else {
        assert(v * t == (n - 1) * t);
    }
}

/// For attributes that all describe `V` vertices, the interleaved buffer
/// holds `V * stride` components, and component `k` of attribute `i` for
/// vertex `v` sits at `v * stride + offset_i + k`, where `offset_i` is the sum
/// of the item sizes of the attributes before `i`.
pub proof fn lemma_interleaved_layout<V>(attrs: Seq<Attribute<V>>, v: int, i: int, k: int)
    requires
        uniform(attrs),
        0 <= v < vertex_count_of(attrs),
        0 <= i < attrs.len(),
        0 <= k < attrs[i].item_size,
    ensures
        interleaved(attrs, vertex_count_of(attrs)).len() == vertex_count_of(attrs) * stride_of(
            attrs,
        ),
        interleaved(attrs, vertex_count_of(attrs))[v * stride_of(attrs) + offset_of(attrs, i) + k]
            == attrs[i].values@[v * attrs[i].item_size + k],
{
    let n = vertex_count_of(attrs);
    assert forall|j: int| 0 <= j < attrs.len() implies n * attrs[j].item_size
        <= attrs[j].values@.len() by {
        assert(attrs[j].item_size >= 1);
    }
    assert forall|j: int| 0 <= j < attrs.len() implies (v + 1) * attrs[j].item_size
        <= attrs[j].values@.len() by {
        assert(attrs[j].item_size >= 1);
        let s = attrs[j].item_size as int;
        assert((v + 1) * s <= n * s) by (nonlinear_arith)
            requires
                0 <= s,
                v < n,
        ;
    }
    lemma_interleaved_len(attrs, n);
    lemma_record_len(attrs, v);
    assert(attrs.take(i + 1).drop_last() =~= attrs.take(i));
    assert(attrs.take(i + 1).last() == attrs[i]);
    assert(stride_of(attrs.take(i + 1)) == offset_of(attrs, i) + attrs[i].item_size);
    lemma_stride_nonneg(attrs.take(i));
    lemma_stride_prefix(attrs, i + 1);
    lemma_record_index(attrs, v, i, k);
    lemma_interleaved_index(attrs, n, v, offset_of(attrs, i) + k);
}

/// Builds the interleaved vertex buffer: for each vertex, the components of
/// every attribute in list order.
pub fn interleave<V: Copy>(attrs: &Vec<Attribute<V>>, vertex_count: usize) -> (r: Vec<V>)
    requires
        uniform(attrs@),
        vertex_count == vertex_count_of(attrs@),
    ensures
        r@ == interleaved(attrs@, vertex_count as int),
{
    let mut out: Vec<V> = Vec::new();
    let mut v: usize = 0;
    while v < vertex_count
        invariant
            uniform(attrs@),
            vertex_count == vertex_count_of(attrs@),
            v <= vertex_count,
            out@ == interleaved(attrs@, v as int),
        decreases vertex_count - v,
    {
        let mut i: usize = 0;
        while i < attrs.len()
            invariant
                uniform(attrs@),
                vertex_count == vertex_count_of(attrs@),
                v < vertex_count,
                i <= attrs.len(),
                out@ == interleaved(attrs@, v as int) + record_of(attrs@.take(i as int), v as int),
            decreases attrs.len() - i,
        {
            let a = &attrs[i];
            let s = a.item_size;
            assert(attrs@[i as int].item_size >= 1);
            let len = a.values.len();
            assert(len == vertex_count * s);
            assert(v * s + s <= vertex_count * s) by (nonlinear_arith)
                requires
                    v < vertex_count,
            ;
            let base = v * s;
            let ghost before = out@;
            let mut k: usize = 0;
            while k < s
                invariant
                    base + s <= a.values.len(),
                    k <= s,
                    out@ == before + a.values@.subrange(base as int, base + k),
                decreases s - k,
            {
                out.push(a.values[base + k]);
                k += 1;
                assert(out@ =~= before + a.values@.subrange(base as int, base + k));
            }
            let ghost t = attrs@.take(i + 1);
            assert(t.drop_last() =~= attrs@.take(i as int));
            assert(t.last() == attrs@[i as int]);
            i += 1;
            assert(out@ =~= interleaved(attrs@, v as int) + record_of(attrs@.take(i as int), v as int));
        }
        assert(attrs@.take(attrs.len() as int) =~= attrs@);
        v += 1;
        assert(out@ =~= interleaved(attrs@, v as int));
    }
    out
}

} // verus!

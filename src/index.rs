use vstd::prelude::*;

verus! {

/// The values of an index attribute, in one of the integer element types.
pub enum IndexValues {
    U8(Vec<u8>),
    U16(Vec<u16>),
    U32(Vec<u32>),
    U64(Vec<u64>),
    I8(Vec<i8>),
    I16(Vec<i16>),
    I32(Vec<i32>),
    I64(Vec<i64>),
}

/// Number of values held.
pub open spec fn values_len(v: &IndexValues) -> nat {
    match v {
        IndexValues::U8(a) => a@.len(),
        IndexValues::U16(a) => a@.len(),
        IndexValues::U32(a) => a@.len(),
        IndexValues::U64(a) => a@.len(),
        IndexValues::I8(a) => a@.len(),
        IndexValues::I16(a) => a@.len(),
        IndexValues::I32(a) => a@.len(),
        IndexValues::I64(a) => a@.len(),
    }
}

/// Value `i` converted by Rust's `as u32`: zero-extended when narrower,
/// sign-extended when signed, and cut to its low 32 bits when wider.
pub open spec fn u32_at(v: &IndexValues, i: int) -> u32 {
    match v {
        IndexValues::U8(a) => a@[i] as u32,
        IndexValues::U16(a) => a@[i] as u32,
        IndexValues::U32(a) => a@[i],
        IndexValues::U64(a) => a@[i] as u32,
        IndexValues::I8(a) => a@[i] as u32,
        IndexValues::I16(a) => a@[i] as u32,
        IndexValues::I32(a) => a@[i] as u32,
        IndexValues::I64(a) => a@[i] as u32,
    }
}

/// All values converted to `u32`.
pub open spec fn u32_values(v: &IndexValues) -> Seq<u32> {
    Seq::new(values_len(v), |i: int| u32_at(v, i))
}

/// Element `j` of the line list of `tri`: triangle `j / 6` gives the edges
/// `(a, b), (b, c), (c, a)`.
pub open spec fn line_index_at(tri: Seq<u32>, j: int) -> u32 {
    let t = j / 6;
    let r = j % 6;
    let corner: int = if r == 0 || r == 5 {
        0
    } else if r == 1 || r == 2 {
        1
    } else {
        2
    };
    tri[3 * t + corner]
}

/// The line list of the complete triangles in `tri`; a trailing partial
/// triangle is left out.
pub open spec fn line_indices(tri: Seq<u32>) -> Seq<u32> {
    Seq::new(((tri.len() / 3) * 6) as nat, |j: int| line_index_at(tri, j))
}

/// Converts every index value to `u32`, with the conversion of `as u32`.
pub fn cast_to_u32_array(value: &IndexValues) -> (r: Vec<u32>)
    ensures
        r@ == u32_values(value),
{
    let n = match value {
        IndexValues::U8(a) => a.len(),
        IndexValues::U16(a) => a.len(),
        IndexValues::U32(a) => a.len(),
        IndexValues::U64(a) => a.len(),
        IndexValues::I8(a) => a.len(),
        IndexValues::I16(a) => a.len(),
        IndexValues::I32(a) => a.len(),
        IndexValues::I64(a) => a.len(),
    };
    let mut out: Vec<u32> = Vec::with_capacity(n);
    let mut i: usize = 0;
    while i < n
        invariant
            n == values_len(value),
            i <= n,
            out@.len() == i,
            forall|j: int| 0 <= j < i ==> out@[j] == u32_at(value, j),
        decreases n - i,
    {
        #[verifier::truncate]
        let x: u32 = match value {
            IndexValues::U8(a) => a[i] as u32,
            IndexValues::U16(a) => a[i] as u32,
            IndexValues::U32(a) => a[i],
            IndexValues::U64(a) => a[i] as u32,
            IndexValues::I8(a) => a[i] as u32,
            IndexValues::I16(a) => a[i] as u32,
            IndexValues::I32(a) => a[i] as u32,
            IndexValues::I64(a) => a[i] as u32,
        };
        out.push(x);
        i += 1;
    }
    assert(out@ =~= u32_values(value));
    out
}

/// Expands a triangle list into a line list: each triple `(a, b, c)` becomes
/// `a, b, b, c, c, a`.
pub fn to_u32_line_array(index_array: &Vec<u32>) -> (r: Vec<u32>)
    ensures
        r@ == line_indices(index_array@),
{
    let length = index_array.len();
    let mut line_buffer: Vec<u32> = Vec::new();
    let mut i: usize = 0;
    while length - i >= 3
        invariant
            length == index_array.len(),
            i <= length,
            i % 3 == 0,
            line_buffer@.len() == (i / 3) * 6,
            forall|j: int|
                0 <= j < line_buffer@.len() ==> line_buffer@[j] == line_index_at(
                    index_array@,
                    j,
                ),
        decreases length - i,
    {
        let a = index_array[i];
        let b = index_array[i + 1];
        let c = index_array[i + 2];
        let ghost base = line_buffer@.len() as int;
        line_buffer.push(a);
        line_buffer.push(b);
        line_buffer.push(b);
        line_buffer.push(c);
        line_buffer.push(c);
        line_buffer.push(a);
        assert forall|j: int| base <= j < base + 6 implies line_buffer@[j] == line_index_at(
            index_array@,
            j,
        ) by {
            assert(j / 6 == i / 3);
            assert(j % 6 == j - base);
        }
        i += 3;
    }
    assert(line_buffer@ =~= line_indices(index_array@));
    line_buffer
}

/// Converts the index values to `u32` and expands them into a line list.
pub fn cast_to_u32_line_array(value: &IndexValues) -> (r: Vec<u32>)
    ensures
        r@ == line_indices(u32_values(value)),
{
    let index_array = cast_to_u32_array(value);
    to_u32_line_array(&index_array)
}

} // verus!

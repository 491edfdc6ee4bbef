//! The vertex layout of a textured quad: the attributes of one vertex, their
//! byte offsets and the stride between vertices.
use vstd::prelude::*;
use vstd::layout::size_of;

verus! {

/// One vertex attribute: `elem_count` elements of `elem_size` bytes each.
#[derive(Debug, PartialEq, Eq, Structural, Clone, Copy)]
pub struct Attribute {
    pub index: u32,
    pub elem_size: u32,
    pub elem_count: u32,
    pub kind: u32,
}

/// A quad drawn from a vertex array, a vertex buffer and an element buffer.
#[derive(Debug)]
pub struct Quad {
    pub gl_vao: u32,
    gl_vbo: u32,
    gl_ebo: u32,
    attributes: Vec<Attribute>,
    index_count: i32,
}

/// Bytes that one attribute takes in a vertex.
pub open spec fn attr_bytes(a: Attribute) -> nat {
    (a.elem_size * a.elem_count) as nat
}

/// Bytes that the attributes take together, in order.
pub open spec fn stride_of(attrs: Seq<Attribute>) -> nat
    decreases attrs.len(),
{
    if attrs.len() == 0 {
        0
    } else {
        stride_of(attrs.drop_last()) + attr_bytes(attrs.last())
    }
}

impl Quad {
    pub closed spec fn attrs(&self) -> Seq<Attribute> {
        self.attributes@
    }

    pub closed spec fn spec_index_count(&self) -> int {
        self.index_count as int
    }

    pub closed spec fn buffers(&self) -> (u32, u32, u32) {
        (self.gl_vao, self.gl_vbo, self.gl_ebo)
    }

    /// A quad over buffers already created, drawn with `index_count` indices;
    /// `None` when that count does not fit the draw call's `i32`.
    pub fn with_buffers(gl_vao: u32, gl_vbo: u32, gl_ebo: u32, index_count: usize) -> (r: Option<Quad>)
        ensures
            index_count <= i32::MAX ==> (r matches Some(q) && q.attrs() == Seq::<Attribute>::empty()
                && q.spec_index_count() == index_count && q.buffers() == (gl_vao, gl_vbo, gl_ebo)),
            index_count > i32::MAX ==> r is None,
    {
        if index_count > i32::MAX as usize {
            return None;
        }
        Some(Quad { gl_vao, gl_vbo, gl_ebo, attributes: Vec::new(), index_count: index_count as i32 })
    }

    /// Appends an attribute of `elem_count` elements of type `T`.
    pub fn attr<T>(&mut self, index: u32, elem_count: u32, kind: u32)
        ensures
            final(self).attrs() == old(self).attrs().push(
                (Attribute { index, elem_size: size_of::<T>() as u32, elem_count, kind }),
            ),
            final(self).spec_index_count() == old(self).spec_index_count(),
            final(self).buffers() == old(self).buffers(),
    {
        let elem_size = core::mem::size_of::<T>() as u32;
        self.attributes.push(Attribute { index, kind, elem_count, elem_size });
    }

    /// Number of indices drawn.
    pub fn index_count(&self) -> (r: i32)
        ensures
            r == self.spec_index_count(),
    {
        self.index_count
    }

    /// Bytes between consecutive vertices; `None` when that is not a `u32`.
    pub fn get_stride(&self) -> (r: Option<u32>)
        ensures
            match r {
                Some(s) => s == stride_of(self.attrs()),
                None => stride_of(self.attrs()) > u32::MAX,
            },
    {
        match self.attribute_offsets() {
            Some((_, total)) => Some(total),
            None => None,
        }
    }

    /// Byte offset of each attribute within a vertex, and the stride; `None`
    /// when the stride is not a `u32`.
    pub fn attribute_offsets(&self) -> (r: Option<(Vec<u32>, u32)>)
        ensures
            match r {
                Some((offsets, total)) => total == stride_of(self.attrs()) && offsets@.len()
                    == self.attrs().len() && forall|i: int|
                    0 <= i < offsets@.len() ==> offsets@[i] == stride_of(#[trigger] self.attrs().take(i)),
                None => stride_of(self.attrs()) > u32::MAX,
            },
    {
        let mut offsets: Vec<u32> = Vec::new();
        let mut total: u32 = 0;
        let mut i: usize = 0;
        let n = self.attributes.len();
        while i < n
            invariant
                n == self.attributes@.len(),
                i <= n,
                total == stride_of(self.attributes@.take(i as int)),
                offsets@.len() == i,
                forall|k: int| 0 <= k < i ==> offsets@[k] == stride_of(#[trigger] self.attributes@.take(k)),
            decreases n - i,
        {
            let a = self.attributes[i];
            let ghost pre = self.attributes@.take(i as int);
            assert(self.attributes@.take(i + 1).drop_last() =~= pre);
            offsets.push(total);
            assert(a.elem_size as u64 * a.elem_count as u64 <= u32::MAX as u64 * u32::MAX as u64) by (nonlinear_arith)
                requires a.elem_size <= u32::MAX, a.elem_count <= u32::MAX;
            let bytes = a.elem_size as u64 * a.elem_count as u64;
            if bytes > (u32::MAX - total) as u64 {
                proof {
                    lemma_stride_monotone(self.attributes@, i + 1);
                }
                return None;
            }
            total = total + bytes as u32;
            i = i + 1;
        }
        assert(self.attributes@.take(n as int) =~= self.attributes@);
        Some((offsets, total))
    }
}

/// The stride of a prefix is at most that of the whole.
proof fn lemma_stride_monotone(attrs: Seq<Attribute>, k: int)
    requires
        0 <= k <= attrs.len(),
    ensures
        stride_of(attrs.take(k)) <= stride_of(attrs),
    decreases attrs.len(),
{
    if k < attrs.len() {
        assert(attrs.drop_last().take(k) =~= attrs.take(k));
        lemma_stride_monotone(attrs.drop_last(), k);
    } else {
        assert(attrs.take(k) =~= attrs);
    }
}

} // verus!

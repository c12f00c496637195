use vstd::prelude::*;

verus! {

/// `n` is a power of two: a single bit is set.
pub open spec fn is_power_of_two(n: usize) -> bool {
    exists|k: usize| k < usize::BITS && n == 1usize << k
}

/// Rounds `offset` up to the next multiple of the power of two `S`.
pub fn align_size<const S: usize>(offset: usize) -> (r: usize)
    requires
        is_power_of_two(S),
        offset + S - 1 <= usize::MAX,
    ensures
        r % S == 0,
        offset <= r,
        r < offset + S,
{
    let ghost k = choose|k: usize| k < usize::BITS && S == 1usize << k;
    let s = S;
    assert(s >= 1) by (bit_vector)
        requires
            k < usize::BITS,
            s == 1usize << k,
    ;
    let t = offset + (s - 1);
    let m = s - 1;
    let r = t & !m;
    assert(r & m == 0 && offset <= r && r < offset + s) by (bit_vector)
        requires
            k < usize::BITS,
            s == 1usize << k,
            t == offset + s - 1,
            m == s - 1,
            r == t & !m,
    ;
    proof {
        vstd::bits::lemma_usize_pow2_no_overflow(k as nat);
        vstd::bits::lemma_usize_shl_is_mul(1, k);
        vstd::bits::lemma_usize_low_bits_mask_is_mod(r, k as nat);
        assert(m == vstd::bits::low_bits_mask(k as nat));
    }
    r
}


/// Index of the `i`-th entry of a triangle-fan index list:
/// triangle `t` is `(0, t + 1, t + 2)`.
pub open spec fn fan_index(i: int) -> int {
    if i % 3 == 0 {
        0
    } else if i % 3 == 1 {
        i / 3 + 1
    } else {
        i / 3 + 2
    }
}

/// `s` is the triangle-fan index list `fan_index(0), fan_index(1), ...`.
pub open spec fn is_fan_prefix(s: Seq<u32>) -> bool {
    forall|i: int| 0 <= i < s.len() ==> #[trigger] s[i] == fan_index(i)
}

/// Errors of the mesh buffers.
#[derive(Debug, Clone, Copy, PartialEq, Eq)]
pub enum MeshError {
    /// The vertex data does not fit the vertex buffer.
    VertexBufferOutOfMemory,
}

/// Size in bytes of one triangle of `u32` indices.
pub const INDEX_SIZE: u64 = 12;

/// Bookkeeping of a GPU mesh: the triangle-fan index list uploaded to the
/// index buffer and the sizes in bytes of the vertex and index buffers.
pub struct Mesh {
    pub vertex_buffer_size: u64,
    pub index_buffer_size: u64,
    pub indices: Vec<u32>,
}

impl Mesh {
    /// The index list is a triangle-fan prefix whose length fits a `u32`.
    pub open spec fn wf(&self) -> bool {
        &&& is_fan_prefix(self.indices@)
        &&& self.indices@.len() <= u32::MAX
    }

    /// `m` is this mesh after its index list was made to cover
    /// `vertex_count` triangles, `grew` telling whether it had to grow.
    pub open spec fn indices_updated(self, m: Mesh, vertex_count: u64, grew: bool) -> bool {
        &&& m.wf()
        &&& m.vertex_buffer_size == self.vertex_buffer_size
        &&& grew == (self.indices@.len() < ((vertex_count * 3) as u32) as int)
        &&& grew ==> m.indices@.len() == ((vertex_count * 3) as u32) as int
            && m.index_buffer_size == vertex_count * INDEX_SIZE
        &&& !grew ==> m.indices@ == self.indices@ && m.index_buffer_size == self.index_buffer_size
    }

    /// Index `i` of the triangle-fan list `0-1-2, 0-2-3, 0-3-4, ...`.
    pub fn triangle_fan_indices(i: u32) -> (r: u32)
        ensures
            r == fan_index(i as int),
    {
        let v = i / 3;
        match i % 3 {
            0 => 0,
            1 => v + 1,
            _ => v + 2,
        }
    }

    /// Appends the fan indices `from..to` to `indices`.
    fn extend_fan(indices: &mut Vec<u32>, from: u32, to: u32)
        requires
            old(indices)@.len() == from,
            from <= to,
            is_fan_prefix(old(indices)@),
        ensures
            final(indices)@.len() == to,
            is_fan_prefix(final(indices)@),
    {
        let mut i = from;
        while i < to
            invariant
                from <= i <= to,
                indices@.len() == i,
                is_fan_prefix(indices@),
            decreases to - i,
        {
            indices.push(Self::triangle_fan_indices(i));
            i = i + 1;
        }
    }

    /// A mesh whose index list covers `init_num_vertex` triangles and whose
    /// vertex buffer holds `init_num_vertex` bytes rounded up to 1024.
    pub fn new(init_num_vertex: usize) -> (m: Mesh)
        requires
            init_num_vertex * 3 <= usize::MAX,
            init_num_vertex + 1023 <= usize::MAX,
        ensures
            m.wf(),
            m.indices@.len() == ((init_num_vertex * 3) as u32) as int,
            m.index_buffer_size == m.indices@.len() * 4,
            m.vertex_buffer_size == Self::spec_create_buffer_size(init_num_vertex as int),
    {
        let count = (init_num_vertex * 3) as u32;
        let mut indices: Vec<u32> = Vec::new();
        Self::extend_fan(&mut indices, 0, count);
        let index_buffer_size = (indices.len() as u64) * 4;
        let vertex_buffer_size = Self::create_buffer(init_num_vertex) as u64;
        Mesh { vertex_buffer_size, index_buffer_size, indices }
    }

    /// `n` rounded up to a multiple of 1024.
    pub open spec fn spec_create_buffer_size(n: int) -> int {
        if n % 1024 == 0 {
            n
        } else {
            n - n % 1024 + 1024
        }
    }

    /// Size in bytes of a new vertex buffer asked for `buffer_size` bytes:
    /// the request rounded up to a multiple of 1024.
    pub fn create_buffer(buffer_size: usize) -> (r: usize)
        requires
            buffer_size + 1023 <= usize::MAX,
        ensures
            r == Self::spec_create_buffer_size(buffer_size as int),
    {
        assert(is_power_of_two(1024usize)) by {
            assert(1024usize == 1usize << 10usize) by (bit_vector);
        }
        let r = align_size::<1024>(buffer_size);
        r
    }

    /// Grows the index list so that it covers `vertex_count` triangles.
    /// Returns whether it grew; then the index buffer is resized to
    /// `vertex_count * INDEX_SIZE` bytes and has to be uploaded again.
    pub fn update_indices(&mut self, vertex_count: u64) -> (grew: bool)
        requires
            old(self).wf(),
            vertex_count * 3 <= u64::MAX,
            vertex_count * INDEX_SIZE <= u64::MAX,
        ensures
            old(self).indices_updated(*final(self), vertex_count, grew),
    {
        let indices_len = self.indices.len() as u32;
        let new_indices_len = (vertex_count * 3) as u32;
        if indices_len < new_indices_len {
            Self::extend_fan(&mut self.indices, indices_len, new_indices_len);
            self.index_buffer_size = vertex_count * INDEX_SIZE;
            true
        } else {
            false
        }
    }

    /// Checks that `data_len` bytes fit a vertex buffer of `buffer_size` bytes.
    pub fn update_buffer(buffer_size: u64, data_len: usize) -> (r: Result<(), MeshError>)
        ensures
            r is Err <==> buffer_size < data_len,
    {
        if buffer_size < data_len as u64 {
            Err(MeshError::VertexBufferOutOfMemory)
        } else {
            Ok(())
        }
    }

    /// Grows the mesh's own vertex buffer to `data_len` bytes when it is
    /// smaller. Returns whether the buffer has to be created again.
    pub fn update_inner_buffer(&mut self, data_len: usize) -> (grew: bool)
        ensures
            grew == (old(self).vertex_buffer_size < data_len),
            final(self).vertex_buffer_size == if grew { data_len as u64 } else { old(self).vertex_buffer_size },
            final(self).indices == old(self).indices,
            final(self).index_buffer_size == old(self).index_buffer_size,
    {
        if self.vertex_buffer_size < data_len as u64 {
            self.vertex_buffer_size = data_len as u64;
            true
        } else {
            false
        }
    }
}


/// Growing the index list for the same number of triangles twice grows it
/// at most once: the second update keeps the list and the buffer.
pub proof fn lemma_update_indices_idempotent(m0: Mesh, m1: Mesh, m2: Mesh, vertex_count: u64, g1: bool, g2: bool)
    requires
        m0.indices_updated(m1, vertex_count, g1),
        m1.indices_updated(m2, vertex_count, g2),
    ensures
        !g2,
        m2.indices@ == m1.indices@,
        m2.index_buffer_size == m1.index_buffer_size,
{
}

/// The index list only ever grows, and keeps its entries.
pub proof fn lemma_update_indices_keeps_prefix(m0: Mesh, m1: Mesh, vertex_count: u64, grew: bool)
    requires
        m0.wf(),
        m0.indices_updated(m1, vertex_count, grew),
    ensures
        m0.indices@.len() <= m1.indices@.len(),
        m1.indices@.subrange(0, m0.indices@.len() as int) == m0.indices@,
{
    assert(m1.indices@.subrange(0, m0.indices@.len() as int) =~= m0.indices@);
}

} // verus!

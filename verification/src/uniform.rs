use vstd::prelude::*;

verus! {

/// A value that is kept in a uniform buffer: its byte image, the size of
/// one of its elements, and the index of the element to bind next.
pub trait WgpuUnifromContent: Default {
    fn elem_size() -> usize;

    fn as_contents(&self) -> &[u8];

    /// By default, the first element.
    fn offset(&self) -> (r: usize)
        default_ensures
            r == 0,
    {
        0
    }
}

/// A uniform value with the bookkeeping of the GPU buffer that holds it:
/// the buffer's size, the size of the range bound for one draw, the
/// binding slot, and whether draws bind it at a dynamic offset.
pub struct Unifrom<T: WgpuUnifromContent> {
    pub value: T,
    pub binding: u32,
    pub dynamic_offset: bool,
    pub buffer_size: u64,
    pub binding_size: u64,
}

/// Size of a new buffer asked for `content_len` bytes that do not fit the
/// current one: twice the content.
pub open spec fn spec_grown_size(buffer_size: u64, content_len: nat) -> Option<u64> {
    if buffer_size < content_len {
        Some((content_len * 2) as u64)
    } else {
        None
    }
}

/// After a buffer is grown for a content, the content fits it, and the
/// same content never grows it again.
pub proof fn lemma_grown_fits(buffer_size: u64, content_len: nat)
    requires
        content_len * 2 <= u64::MAX,
    ensures
        ({
            let size = match spec_grown_size(buffer_size, content_len) {
                Some(s) => s,
                None => buffer_size,
            };
            &&& content_len <= size
            &&& spec_grown_size(size, content_len) is None
        }),
{
}

/// The size of the buffer to create for a content of `content_len` bytes
/// that does not fit a buffer of `buffer_size` bytes, if it does not.
pub fn grown_size(buffer_size: u64, content_len: usize) -> (r: Option<u64>)
    ensures
        r == spec_grown_size(buffer_size, content_len as nat),
{
    if buffer_size < content_len as u64 {
        Some(#[verifier::truncate] (((content_len as u128) * 2) as u64))
    } else {
        None
    }
}

/// Size of a buffer of `count` elements of `elem_size` bytes.
pub fn uniform_buffer_size(elem_size: usize, count: usize) -> (r: u64)
    ensures
        r == (elem_size * count) as u64,
{
    let a: u128 = elem_size as u128;
    let b: u128 = count as u128;
    assert(a * b <= u128::MAX) by (nonlinear_arith)
        requires
            a <= u64::MAX,
            b <= u64::MAX,
    ;
    #[verifier::truncate]
    ((a * b) as u64)
}

impl<T: WgpuUnifromContent> Unifrom<T> {
    /// A default value in a buffer of `init_size` elements (one without a
    /// dynamic offset), bound one element at a time: the element size is
    /// that of the content type.
    pub fn new(binding: u32, dyn_offset_with_init_size: Option<usize>) -> (r: Self)
        ensures
            call_ensures(T::default, (), r.value),
            exists|e: usize| call_ensures(T::elem_size, (), e) && r.binding_size == e as u64,
            r.binding == binding,
            r.dynamic_offset == dyn_offset_with_init_size is Some,
            r.buffer_size == (r.binding_size * match dyn_offset_with_init_size {
                Some(n) => n as nat,
                None => 1nat,
            }) as u64,
    {
        let elem_size = T::elem_size();
        let count = match dyn_offset_with_init_size {
            Some(n) => n,
            None => 1,
        };
        Unifrom {
            value: T::default(),
            binding,
            dynamic_offset: dyn_offset_with_init_size.is_some(),
            buffer_size: uniform_buffer_size(elem_size, count),
            binding_size: elem_size as u64,
        }
    }

    /// Makes room for the value's byte image before it is written to the
    /// buffer: returns the size of the larger buffer to create when the
    /// image does not fit (twice the image), `None` when the buffer is kept.
    pub fn update_buffer(&mut self) -> (grown: Option<u64>)
        ensures
            exists|c: &[u8]| call_ensures(T::as_contents, (&old(self).value,), c)
                && grown == spec_grown_size(old(self).buffer_size, c@.len()),
            final(self).buffer_size == match grown {
                Some(size) => size,
                None => old(self).buffer_size,
            },
            final(self).value == old(self).value,
            final(self).binding == old(self).binding,
            final(self).dynamic_offset == old(self).dynamic_offset,
            final(self).binding_size == old(self).binding_size,
    {
        let content_len = self.value.as_contents().len();
        let grown = grown_size(self.buffer_size, content_len);
        if let Some(size) = grown {
            self.buffer_size = size;
        }
        grown
    }

    /// Index of the element that the next draw call binds.
    pub fn offset(&self) -> (r: usize)
        ensures
            call_ensures(T::offset, (&self.value,), r),
    {
        self.value.offset()
    }
}

/// Stride in bytes between fragment uniform blocks of `frag_size` bytes in
/// a buffer whose bindings must start at multiples of `align`: the block
/// size padded past the next multiple of `align` (a whole `align` is added
/// when the size is already a multiple).
pub fn frag_stride(frag_size: usize, align: usize) -> (r: usize)
    requires
        align > 0,
        frag_size + align <= usize::MAX,
    ensures
        r == frag_size + align - frag_size % align,
        r % align == 0,
        frag_size < r <= frag_size + align,
{
    let r = frag_size + align - frag_size % align;
    assert(r % align == 0) by {
        vstd::arithmetic::div_mod::lemma_fundamental_div_mod(frag_size as int, align as int);
        vstd::arithmetic::div_mod::lemma_mod_multiples_basic((frag_size / align) as int + 1, align as int);
        assert(r == (frag_size / align + 1) * align) by (nonlinear_arith)
            requires
                frag_size == align * (frag_size / align) + frag_size % align,
                r == frag_size + align - frag_size % align;
    }
    r
}

/// Index of the next uniform block of a buffer of `bytes_len` bytes with
/// blocks `stride` bytes apart.
pub fn uniform_index(bytes_len: usize, stride: usize) -> (r: usize)
    requires
        stride > 0,
    ensures
        r == bytes_len / stride,
{
    bytes_len / stride
}

} // verus!

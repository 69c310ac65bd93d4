//! The container core: a zero-copy view over a byte buffer holding a
//! length header, an index table of data-segment offsets, and a data
//! segment of variable-length encoded elements.

use crate::ule::{
    lemma_le32_round_trip,
    read_u32_le,
    spec_le32,
    spec_read_le32,
    write_u32_le,
    EncodeAsVarULE,
    TotalOrd,
    VarULE,
    ZeroVecError,
};
use core::marker::PhantomData;
use vstd::prelude::*;

verus! {

/// The element count a buffer declares: zero for an empty buffer,
/// otherwise the little-endian `u32` in its first four bytes.
pub open spec fn spec_len_of(buf: Seq<u8>) -> nat
    recommends
        buf.len() == 0 || buf.len() >= 4,
{
    if buf.len() == 0 {
        0
    } else {
        spec_read_le32(buf.subrange(0, 4)) as nat
    }
}

/// Where the data segment starts: after the header and the index table.
pub open spec fn spec_data_start(buf: Seq<u8>) -> int {
    4 + 4 * (spec_len_of(buf) as int)
}

/// The data segment: everything after the index table.
pub open spec fn spec_data_of(buf: Seq<u8>) -> Seq<u8>
    recommends
        spec_data_start(buf) <= buf.len(),
{
    buf.subrange(spec_data_start(buf), buf.len() as int)
}

/// The index table's bytes: four per element.
pub open spec fn spec_index_bytes(buf: Seq<u8>) -> Seq<u8>
    recommends
        buf.len() == 0 || spec_data_start(buf) <= buf.len(),
{
    if buf.len() == 0 {
        Seq::empty()
    } else {
        buf.subrange(4, spec_data_start(buf))
    }
}

/// The data segment, empty for an empty buffer.
pub open spec fn spec_things_bytes(buf: Seq<u8>) -> Seq<u8>
    recommends
        buf.len() == 0 || spec_data_start(buf) <= buf.len(),
{
    if buf.len() == 0 {
        Seq::empty()
    } else {
        spec_data_of(buf)
    }
}

/// The `i`th index-table entry: element `i`'s byte offset within the
/// data segment.
pub open spec fn spec_offset_at(buf: Seq<u8>, i: int) -> int
    recommends
        0 <= i < spec_len_of(buf),
        spec_data_start(buf) <= buf.len(),
{
    spec_read_le32(buf.subrange(4 + 4 * i, 8 + 4 * i)) as int
}

/// Where element `i`'s bytes end within the data segment: the next
/// element's offset, or the data segment's length for the last element.
pub open spec fn spec_elem_end(buf: Seq<u8>, i: int) -> int
    recommends
        0 <= i < spec_len_of(buf),
        spec_data_start(buf) <= buf.len(),
{
    if i + 1 < spec_len_of(buf) {
        spec_offset_at(buf, i + 1)
    } else {
        spec_data_of(buf).len() as int
    }
}

/// Element `i`'s encoded bytes, sliced out of the data segment.
pub open spec fn spec_elem_bytes(buf: Seq<u8>, i: int) -> Seq<u8>
    recommends
        0 <= i < spec_len_of(buf),
        spec_data_start(buf) <= buf.len(),
{
    spec_data_of(buf).subrange(spec_offset_at(buf, i), spec_elem_end(buf, i))
}

/// Whether a buffer obeys the container layout itself: it is empty, or
/// it holds the four-byte header, a full index table, and an in-range,
/// non-decreasing byte range for every element.
pub open spec fn buffer_structural(buf: Seq<u8>) -> bool {
    buf.len() == 0 || {
        &&& buf.len() >= 4
        &&& spec_data_start(buf) <= buf.len()
        &&& forall|i: int|
            0 <= i < spec_len_of(buf) ==> #[trigger] spec_offset_at(buf, i) <= spec_elem_end(
                buf,
                i,
            ) && spec_elem_end(buf, i) <= spec_data_of(buf).len()
    }
}

/// Whether a buffer is a valid container of `T` elements: it obeys the
/// layout and every element's byte range passes `T`'s own validation.
pub open spec fn buffer_valid<T: VarULE>(buf: Seq<u8>) -> bool {
    &&& buffer_structural(buf)
    &&& forall|i: int|
        0 <= i < spec_len_of(buf) ==> T::spec_valid(#[trigger] spec_elem_bytes(buf, i))
}

/// The sequence of decoded elements a valid buffer holds, in storage
/// order.
pub open spec fn buffer_elements<T: VarULE>(buf: Seq<u8>) -> Seq<T::V> {
    Seq::new(spec_len_of(buf), |i: int| T::spec_decode(spec_elem_bytes(buf, i)))
}

/// A byte buffer decomposed into its three regions. Borrows the buffer;
/// owns no bytes; carries no cursor, so every traversal and search
/// starts fresh from it.
pub struct VarZeroVecComponents<'a, T: VarULE> {
    /// The number of elements.
    len: u32,
    /// The index table's bytes: four per element.
    indices: &'a [u8],
    /// The data segment: every element's encoded bytes, back to back.
    things: &'a [u8],
    /// The whole buffer this was constructed from.
    entire_slice: &'a [u8],
    marker: PhantomData<&'a T>,
}

impl<'a, T: VarULE> VarZeroVecComponents<'a, T> {
    /// The whole buffer this view decomposes.
    pub closed spec fn spec_entire(self) -> Seq<u8> {
        self.entire_slice@
    }

    /// The view's internal consistency: the buffer is a valid container
    /// of `T` elements and the three regions are that buffer's regions.
    #[verifier::type_invariant]
    pub closed spec fn wf(self) -> bool {
        &&& buffer_valid::<T>(self.entire_slice@)
        &&& self.len == spec_len_of(self.entire_slice@)
        &&& self.indices@ == spec_index_bytes(self.entire_slice@)
        &&& self.things@ == spec_things_bytes(self.entire_slice@)
    }
}

impl<'a, T: VarULE> View for VarZeroVecComponents<'a, T> {
    type V = Seq<T::V>;

    /// The sequence of decoded elements, in storage order.
    closed spec fn view(&self) -> Seq<T::V> {
        buffer_elements::<T>(self.entire_slice@)
    }
}

/// A view decomposes a valid buffer, and its elements are a function of
/// that buffer alone: two views over the same bytes, however
/// constructed, hold the same elements.
pub proof fn lemma_view_determined_by_buffer<T: VarULE>(v: VarZeroVecComponents<T>)
    requires
        v.wf(),
    ensures
        buffer_valid::<T>(v.spec_entire()),
        v@ == buffer_elements::<T>(v.spec_entire()),
{
}

impl<'a, T: VarULE> VarZeroVecComponents<'a, T> {
    /// A view of zero elements over an empty buffer.
    pub fn new() -> (r: Self)
        ensures
            r@ == Seq::<T::V>::empty(),
            r.spec_entire() == Seq::<u8>::empty(),
    {
        proof {
            assert(Seq::<u8>::empty().len() == 0);
            assert(buffer_elements::<T>(Seq::<u8>::empty()) =~= Seq::<T::V>::empty());
        }
        let empty: &[u8] = &[];
        proof {
            assert(empty@ =~= Seq::<u8>::empty());
        }
        VarZeroVecComponents {
            len: 0,
            indices: empty,
            things: empty,
            entire_slice: empty,
            marker: PhantomData,
        }
    }

    /// Validates `slice` against the container format and decomposes it.
    ///
    /// Succeeds exactly on the buffers that are valid containers of `T`
    /// elements: an empty buffer, or one holding a four-byte length, a
    /// full index table, an in-range byte range for every element, and
    /// elements that each pass `T`'s validation. A buffer that breaks
    /// the layout itself is rejected with `VarZeroVecFormatError`; one
    /// whose element fails its own validation is rejected with that
    /// element's error.
    pub fn parse_byte_slice(slice: &'a [u8]) -> (r: Result<Self, ZeroVecError>)
        ensures
            r is Ok <==> buffer_valid::<T>(slice@),
            r is Ok ==> r->Ok_0.spec_entire() == slice@ && r->Ok_0@ == buffer_elements::<T>(
                slice@,
            ),
            0 < slice@.len() < 4 ==> r == Err::<Self, ZeroVecError>(
                ZeroVecError::VarZeroVecFormatError,
            ),
            slice@.len() >= 4 && spec_data_start(slice@) > slice@.len() ==> r == Err::<
                Self,
                ZeroVecError,
            >(ZeroVecError::VarZeroVecFormatError),
    {
        let n = slice.len();
        if n == 0 {
            proof {
                assert(slice@ =~= Seq::<u8>::empty());
            }
            return Ok(
                VarZeroVecComponents {
                    len: 0,
                    indices: slice,
                    things: slice,
                    entire_slice: slice,
                    marker: PhantomData,
                },
            );
        }
        if n < 4 {
            return Err(ZeroVecError::VarZeroVecFormatError);
        }
        let len = read_u32_le(slice, 0);
        let len_us = len as usize;
        proof {
            assert(spec_len_of(slice@) == len);
        }
        if len_us > (n - 4) / 4 {
            proof {
                assert(4 * (len as int) > n - 4) by (nonlinear_arith)
                    requires
                        len as int > (n - 4) / 4,
                        n >= 4,
                ;
            }
            return Err(ZeroVecError::VarZeroVecFormatError);
        }
        proof {
            assert(4 * (len as int) <= n - 4) by (nonlinear_arith)
                requires
                    len as int <= (n - 4) / 4,
                    n >= 4,
            ;
        }
        let indices = vstd::slice::slice_subrange(slice, 4, 4 + 4 * len_us);
        let things = vstd::slice::slice_subrange(slice, 4 + 4 * len_us, n);
        let things_len = n - 4 - 4 * len_us;
        let mut i: usize = 0;
        while i < len_us
            invariant
                len_us == len,
                4 * (len as int) <= n - 4,
                n == slice@.len(),
                n >= 4,
                indices@ == slice@.subrange(4, 4 + 4 * (len as int)),
                things@ == spec_data_of(slice@),
                things_len == things@.len(),
                spec_len_of(slice@) == len,
                0 <= i <= len_us,
                forall|j: int|
                    0 <= j < i ==> #[trigger] spec_offset_at(slice@, j) <= spec_elem_end(
                        slice@,
                        j,
                    ) && spec_elem_end(slice@, j) <= spec_data_of(slice@).len(),
                forall|j: int|
                    0 <= j < i ==> T::spec_valid(#[trigger] spec_elem_bytes(slice@, j)),
            decreases len_us - i,
        {
            proof {
                assert(indices@.len() == 4 * (len as int));
            }
            let start = read_u32_le(indices, 4 * i) as usize;
            let end = if i + 1 < len_us {
                read_u32_le(indices, 4 * i + 4) as usize
            } else {
                things_len
            };
            proof {
                assert(slice@.subrange(4 + 4 * (i as int), 8 + 4 * (i as int))
                    =~= indices@.subrange(4 * (i as int), 4 * (i as int) + 4));
                assert(start == spec_offset_at(slice@, i as int));
                if i + 1 < len_us {
                    assert(slice@.subrange(4 + 4 * (i as int + 1), 8 + 4 * (i as int + 1))
                        =~= indices@.subrange(4 * (i as int) + 4, 4 * (i as int) + 8));
                    assert(end == spec_offset_at(slice@, i as int + 1));
                }
                assert(end == spec_elem_end(slice@, i as int));
            }
            if start > end || end > things_len {
                return Err(ZeroVecError::VarZeroVecFormatError);
            }
            let elem_slice = vstd::slice::slice_subrange(things, start, end);
            proof {
                assert(elem_slice@ =~= spec_elem_bytes(slice@, i as int));
            }
            match T::parse_byte_slice(elem_slice) {
                Ok(_) => {},
                Err(e) => {
                    proof {
                        assert(!T::spec_valid(spec_elem_bytes(slice@, i as int)));
                    }
                    return Err(e);
                },
            }
            i = i + 1;
        }
        Ok(
            VarZeroVecComponents {
                len,
                indices,
                things,
                entire_slice: slice,
                marker: PhantomData,
            },
        )
    }

    /// Decomposes a buffer without validating it.
    ///
    /// The caller vouches for the buffer: it must be a valid container
    /// of `T` elements — one that `parse_byte_slice` has accepted, that
    /// the encoder produced, or whose provenance otherwise guarantees
    /// validity. That obligation is this function's precondition, not a
    /// runtime check. Yields the same view `parse_byte_slice` would.
    pub fn from_bytes_unchecked(slice: &'a [u8]) -> (r: Self)
        requires
            buffer_valid::<T>(slice@),
        ensures
            r.spec_entire() == slice@,
            r@ == buffer_elements::<T>(slice@),
    {
        let n = slice.len();
        if n == 0 {
            proof {
                assert(slice@ =~= Seq::<u8>::empty());
            }
            return VarZeroVecComponents {
                len: 0,
                indices: slice,
                things: slice,
                entire_slice: slice,
                marker: PhantomData,
            };
        }
        let len = read_u32_le(slice, 0);
        let len_us = len as usize;
        proof {
            assert(spec_len_of(slice@) == len);
            assert(4 + 4 * (len as int) <= n);
        }
        let indices = vstd::slice::slice_subrange(slice, 4, 4 + 4 * len_us);
        let things = vstd::slice::slice_subrange(slice, 4 + 4 * len_us, n);
        VarZeroVecComponents {
            len,
            indices,
            things,
            entire_slice: slice,
            marker: PhantomData,
        }
    }

    /// The number of elements.
    pub fn len(&self) -> (r: usize)
        ensures
            r == self@.len(),
    {
        proof {
            use_type_invariant(self);
        }
        self.len as usize
    }

    /// Whether the view holds no elements.
    pub fn is_empty(&self) -> (r: bool)
        ensures
            r <==> self@.len() == 0,
    {
        proof {
            use_type_invariant(self);
        }
        self.indices.is_empty()
    }

    /// Element `idx`'s byte range within the data segment. The caller
    /// must have bounds-checked `idx`.
    fn get_things_range(&self, idx: usize) -> (r: core::ops::Range<usize>)
        requires
            idx < self@.len(),
        ensures
            r.start == spec_offset_at(self.spec_entire(), idx as int),
            r.end == spec_elem_end(self.spec_entire(), idx as int),
            0 <= r.start <= r.end <= spec_data_of(self.spec_entire()).len(),
    {
        proof {
            use_type_invariant(self);
            assert(self.indices@.len() == self.indices.len());
            assert(self.things@.len() == self.things.len());
            assert(self.indices@.len() == 4 * spec_len_of(self.entire_slice@));
        }
        let start = read_u32_le(self.indices, 4 * idx) as usize;
        let end = if idx + 1 < self.len as usize {
            read_u32_le(self.indices, 4 * idx + 4) as usize
        } else {
            self.things.len()
        };
        proof {
            let buf = self.entire_slice@;
            assert(buf.subrange(4 + 4 * (idx as int), 8 + 4 * (idx as int))
                =~= self.indices@.subrange(4 * (idx as int), 4 * (idx as int) + 4));
            assert(start == spec_offset_at(buf, idx as int));
            if idx + 1 < self.len {
                assert(buf.subrange(4 + 4 * (idx as int + 1), 8 + 4 * (idx as int + 1))
                    =~= self.indices@.subrange(4 * (idx as int) + 4, 4 * (idx as int) + 8));
                assert(end == spec_offset_at(buf, idx as int + 1));
            }
            assert(end == spec_elem_end(buf, idx as int));
            assert(spec_offset_at(buf, idx as int) <= spec_elem_end(buf, idx as int)
                && spec_elem_end(buf, idx as int) <= spec_data_of(buf).len());
        }
        start..end
    }

    /// Element `idx`'s byte range within the entire buffer. The caller
    /// must have bounds-checked `idx`.
    pub(crate) fn get_range(&self, idx: usize) -> (r: core::ops::Range<usize>)
        requires
            idx < self@.len(),
        ensures
            r.start == spec_data_start(self.spec_entire()) + spec_offset_at(
                self.spec_entire(),
                idx as int,
            ),
            r.end == spec_data_start(self.spec_entire()) + spec_elem_end(
                self.spec_entire(),
                idx as int,
            ),
            0 <= r.start <= r.end <= self.spec_entire().len(),
    {
        proof {
            use_type_invariant(self);
            assert(self.entire_slice@.len() == self.entire_slice.len());
        }
        let range = self.get_things_range(idx);
        let offset = 4 + 4 * (self.len as usize);
        range.start + offset..range.end + offset
    }

    /// Decodes element `idx`. The caller must have bounds-checked `idx`.
    fn get_unchecked(&self, idx: usize) -> (r: T)
        requires
            idx < self@.len(),
        ensures
            r@ == self@[idx as int],
    {
        proof {
            use_type_invariant(self);
        }
        let range = self.get_things_range(idx);
        let things_slice = vstd::slice::slice_subrange(self.things, range.start, range.end);
        proof {
            assert(things_slice@ =~= spec_elem_bytes(self.entire_slice@, idx as int));
        }
        T::from_byte_slice_unchecked(things_slice)
    }

    /// Decodes element `idx`, or `None` when `idx` is out of bounds.
    pub fn get(&self, idx: usize) -> (r: Option<T>)
        ensures
            idx < self@.len() ==> r is Some && r->Some_0@ == self@[idx as int],
            idx >= self@.len() ==> r is None,
    {
        if idx >= self.len() {
            return None;
        }
        Some(self.get_unchecked(idx))
    }

    /// Renders the index table for debugging.
    #[allow(unused)]
    pub(crate) fn dump(&self) -> String {
        proof {
            use_type_invariant(self);
            assert(self.indices@.len() == self.indices.len());
        }
        let n = self.len();
        let mut offsets: Vec<u32> = Vec::new();
        let mut i: usize = 0;
        while i < n
            invariant
                n == self@.len(),
                n == spec_len_of(self.spec_entire()),
                self.indices@.len() == 4 * (n as int),
                self.indices@.len() <= usize::MAX,
                0 <= i <= n,
        decreases n - i,
        {
            offsets.push(read_u32_le(self.indices, 4 * i));
            i = i + 1;
        }
        format_indices(&offsets)
    }

    /// Decodes every element into an owned vector, in storage order.
    pub fn to_vec(&self) -> (r: Vec<T>)
        ensures
            r@.len() == self@.len(),
            forall|i: int| 0 <= i < self@.len() ==> r@[i]@ == self@[i],
    {
        let n = self.len();
        let mut r: Vec<T> = Vec::new();
        let mut i: usize = 0;
        while i < n
            invariant
                n == self@.len(),
                0 <= i <= n,
                r@.len() == i,
                forall|j: int| 0 <= j < i ==> r@[j]@ == self@[j],
            decreases n - i,
        {
            r.push(self.get_unchecked(i));
            i = i + 1;
        }
        r
    }
}

/// `Less`, `Equal` and `Greater` in their three-way-comparison order.
pub open spec fn ord_rank(o: core::cmp::Ordering) -> int {
    match o {
        core::cmp::Ordering::Less => 0,
        core::cmp::Ordering::Equal => 1,
        core::cmp::Ordering::Greater => 2,
    }
}

/// Whether `f` may be called on every element of `s` in `[start, end)`.
pub open spec fn pred_callable<T: VarULE, F: Fn(&T) -> core::cmp::Ordering>(
    f: F,
    s: Seq<T::V>,
    start: int,
    end: int,
) -> bool {
    forall|k: int, t: T| start <= k < end && t@ == s[k] ==> call_requires(f, (&t,))
}

/// Whether `f`'s answers never step backwards along `s` in
/// `[start, end)`: any answer for an earlier element ranks at or below
/// any answer for a later one (which also makes the answer for one
/// element unambiguous).
pub open spec fn pred_monotone<T: VarULE, F: Fn(&T) -> core::cmp::Ordering>(
    f: F,
    s: Seq<T::V>,
    start: int,
    end: int,
) -> bool {
    forall|k1: int, k2: int, t1: T, t2: T, o1: core::cmp::Ordering, o2: core::cmp::Ordering|
        #![trigger call_ensures(f, (&t1,), o1), call_ensures(f, (&t2,), o2), s[k1], s[k2]]
        start <= k1 <= k2 < end && t1@ == s[k1] && t2@ == s[k2] && call_ensures(f, (&t1,), o1)
            && call_ensures(f, (&t2,), o2) ==> ord_rank(o1) <= ord_rank(o2)
}

/// Whether every answer `f` can give for element `k` of `s` is `o`.
pub open spec fn pred_answers<T: VarULE, F: Fn(&T) -> core::cmp::Ordering>(
    f: F,
    s: Seq<T::V>,
    k: int,
    o: core::cmp::Ordering,
) -> bool {
    forall|t: T, o2: core::cmp::Ordering|
        t@ == s[k] && #[trigger] call_ensures(f, (&t,), o2) ==> o2 == o
}

impl<'a, T: VarULE> VarZeroVecComponents<'a, T> {
    /// Divide-and-conquer search over the logical index range
    /// `[start, end)`, deciding each step by decoding one element and
    /// asking the comparator. The result is relative to `start`.
    fn binary_search_impl<F: Fn(&T) -> core::cmp::Ordering>(
        &self,
        predicate: &F,
        start: usize,
        end: usize,
    ) -> (r: Result<usize, usize>)
        requires
            start <= end <= self@.len(),
            pred_callable::<T, F>(*predicate, self@, start as int, end as int),
            pred_monotone::<T, F>(*predicate, self@, start as int, end as int),
        ensures
            r is Ok ==> r->Ok_0 < end - start && pred_answers::<T, F>(
                *predicate,
                self@,
                start + r->Ok_0,
                core::cmp::Ordering::Equal,
            ),
            r is Err ==> r->Err_0 <= end - start && (forall|k: int|
                start <= k < start + r->Err_0 ==> pred_answers::<T, F>(
                    *predicate,
                    self@,
                    k,
                    core::cmp::Ordering::Less,
                )) && (forall|k: int|
                start + r->Err_0 <= k < end ==> pred_answers::<T, F>(
                    *predicate,
                    self@,
                    k,
                    core::cmp::Ordering::Greater,
                )),
    {
        let mut lo = start;
        let mut hi = end;
        while lo < hi
            invariant
                start <= lo <= hi <= end <= self@.len(),
                pred_callable::<T, F>(*predicate, self@, start as int, end as int),
                pred_monotone::<T, F>(*predicate, self@, start as int, end as int),
                forall|k: int|
                    start <= k < lo ==> pred_answers::<T, F>(
                        *predicate,
                        self@,
                        k,
                        core::cmp::Ordering::Less,
                    ),
                forall|k: int|
                    hi <= k < end ==> pred_answers::<T, F>(
                        *predicate,
                        self@,
                        k,
                        core::cmp::Ordering::Greater,
                    ),
            decreases hi - lo,
        {
            let mid = lo + (hi - lo) / 2;
            let probe = self.get_unchecked(mid);
            let o = predicate(&probe);
            match o {
                core::cmp::Ordering::Equal => {
                    proof {
                        assert forall|t: T, o2: core::cmp::Ordering|
                            t@ == self@[mid as int] && #[trigger] call_ensures(
                                *predicate,
                                (&t,),
                                o2,
                            ) implies o2 == core::cmp::Ordering::Equal by {
                            assert(call_ensures(*predicate, (&probe,), o));
                            assert(ord_rank(o2) <= ord_rank(o));
                            assert(ord_rank(o) <= ord_rank(o2));
                        }
                    }
                    return Ok(mid - start);
                },
                core::cmp::Ordering::Less => {
                    proof {
                        assert forall|k: int| start <= k < mid + 1 implies pred_answers::<T, F>(
                            *predicate,
                            self@,
                            k,
                            core::cmp::Ordering::Less,
                        ) by {
                            assert forall|t: T, o2: core::cmp::Ordering|
                                t@ == self@[k] && #[trigger] call_ensures(
                                    *predicate,
                                    (&t,),
                                    o2,
                                ) implies o2 == core::cmp::Ordering::Less by {
                                assert(call_ensures(*predicate, (&probe,), o));
                                assert(ord_rank(o2) <= ord_rank(o));
                            }
                        }
                    }
                    lo = mid + 1;
                },
                core::cmp::Ordering::Greater => {
                    proof {
                        assert forall|k: int| mid <= k < end implies pred_answers::<T, F>(
                            *predicate,
                            self@,
                            k,
                            core::cmp::Ordering::Greater,
                        ) by {
                            assert forall|t: T, o2: core::cmp::Ordering|
                                t@ == self@[k] && #[trigger] call_ensures(
                                    *predicate,
                                    (&t,),
                                    o2,
                                ) implies o2 == core::cmp::Ordering::Greater by {
                                assert(call_ensures(*predicate, (&probe,), o));
                                assert(ord_rank(o) <= ord_rank(o2));
                            }
                        }
                    }
                    hi = mid;
                },
            }
        }
        Err(lo - start)
    }

    /// Binary searches with a three-way comparator over the whole view;
    /// see `binary_search` for the sorted-with-needle form. The
    /// comparator's answers must be monotone along the elements.
    pub fn binary_search_by<F: Fn(&T) -> core::cmp::Ordering>(&self, predicate: F) -> (r: Result<
        usize,
        usize,
    >)
        requires
            pred_callable::<T, F>(predicate, self@, 0, self@.len() as int),
            pred_monotone::<T, F>(predicate, self@, 0, self@.len() as int),
        ensures
            r is Ok ==> r->Ok_0 < self@.len() && pred_answers::<T, F>(
                predicate,
                self@,
                r->Ok_0 as int,
                core::cmp::Ordering::Equal,
            ),
            r is Err ==> r->Err_0 <= self@.len() && (forall|k: int|
                0 <= k < r->Err_0 ==> pred_answers::<T, F>(
                    predicate,
                    self@,
                    k,
                    core::cmp::Ordering::Less,
                )) && (forall|k: int|
                r->Err_0 <= k < self@.len() ==> pred_answers::<T, F>(
                    predicate,
                    self@,
                    k,
                    core::cmp::Ordering::Greater,
                )),
    {
        let n = self.len();
        self.binary_search_impl(&predicate, 0, n)
    }

    /// Binary searches with a three-way comparator inside
    /// `[range.start, range.end)` only; `None` when the range does not
    /// fit the view. A returned index is relative to `range.start`.
    pub fn binary_search_in_range_by<F: Fn(&T) -> core::cmp::Ordering>(
        &self,
        predicate: F,
        range: core::ops::Range<usize>,
    ) -> (r: Option<Result<usize, usize>>)
        requires
            pred_callable::<T, F>(predicate, self@, range.start as int, range.end as int),
            pred_monotone::<T, F>(predicate, self@, range.start as int, range.end as int),
        ensures
            r is Some <==> range.start <= range.end && range.end <= self@.len(),
            r is Some ==> match r->Some_0 {
                Ok(i) => i < range.end - range.start && pred_answers::<T, F>(
                    predicate,
                    self@,
                    range.start + i,
                    core::cmp::Ordering::Equal,
                ),
                Err(j) => j <= range.end - range.start && (forall|k: int|
                    range.start <= k < range.start + j ==> pred_answers::<T, F>(
                        predicate,
                        self@,
                        k,
                        core::cmp::Ordering::Less,
                    )) && (forall|k: int|
                    range.start + j <= k < range.end ==> pred_answers::<T, F>(
                        predicate,
                        self@,
                        k,
                        core::cmp::Ordering::Greater,
                    )),
            },
    {
        if range.start > range.end || range.end > self.len() {
            return None;
        }
        Some(self.binary_search_impl(&predicate, range.start, range.end))
    }
}

impl<'a, T: VarULE + TotalOrd> VarZeroVecComponents<'a, T> {
    /// Binary search inside `[start, end)` for an element whose value
    /// equals the needle's, under `T`'s total order. The result is
    /// relative to `start`.
    fn binary_search_needle(&self, needle: &T, start: usize, end: usize) -> (r: Result<
        usize,
        usize,
    >)
        requires
            start <= end <= self@.len(),
            forall|i: int, j: int|
                start <= i <= j < end ==> T::spec_le(#[trigger] self@[i], #[trigger] self@[j]),
        ensures
            r is Ok ==> r->Ok_0 < end - start && self@[start + r->Ok_0] == needle@,
            r is Err ==> r->Err_0 <= end - start && (forall|k: int|
                start <= k < start + r->Err_0 ==> T::spec_le(#[trigger] self@[k], needle@)
                    && self@[k] != needle@) && (forall|k: int|
                start + r->Err_0 <= k < end ==> T::spec_le(needle@, #[trigger] self@[k])
                    && self@[k] != needle@),
    {
        let ghost x = needle@;
        let mut lo = start;
        let mut hi = end;
        while lo < hi
            invariant
                start <= lo <= hi <= end <= self@.len(),
                x == needle@,
                forall|i: int, j: int|
                    start <= i <= j < end ==> T::spec_le(#[trigger] self@[i], #[trigger] self@[j]),
                forall|k: int|
                    start <= k < lo ==> T::spec_le(#[trigger] self@[k], x) && self@[k] != x,
                forall|k: int| hi <= k < end ==> T::spec_le(x, #[trigger] self@[k]) && self@[k] != x,
            decreases hi - lo,
        {
            let mid = lo + (hi - lo) / 2;
            let probe = self.get_unchecked(mid);
            match probe.compare(needle) {
                core::cmp::Ordering::Equal => {
                    return Ok(mid - start);
                },
                core::cmp::Ordering::Less => {
                    proof {
                        let p = self@[mid as int];
                        assert forall|k: int| start <= k < mid + 1 implies T::spec_le(
                            #[trigger] self@[k],
                            x,
                        ) && self@[k] != x by {
                            let a = self@[k];
                            T::lemma_le_transitive(a, p, x);
                            if a == x {
                                T::lemma_le_antisymmetric(p, x);
                            }
                        }
                    }
                    lo = mid + 1;
                },
                core::cmp::Ordering::Greater => {
                    proof {
                        let p = self@[mid as int];
                        assert forall|k: int| mid <= k < end implies T::spec_le(
                            x,
                            #[trigger] self@[k],
                        ) && self@[k] != x by {
                            let a = self@[k];
                            T::lemma_le_transitive(x, p, a);
                            if a == x {
                                T::lemma_le_antisymmetric(p, x);
                            }
                        }
                    }
                    hi = mid;
                },
            }
        }
        Err(lo - start)
    }

    /// Binary searches a sorted view for the needle: `Ok(i)` when
    /// element `i` equals the needle, otherwise `Err(j)` where `j` is
    /// the index at which the needle would have to be inserted — every
    /// element before `j` is strictly below the needle, every element
    /// from `j` on strictly above it.
    pub fn binary_search(&self, needle: &T) -> (r: Result<usize, usize>)
        requires
            forall|i: int, j: int|
                0 <= i <= j < self@.len() ==> T::spec_le(#[trigger] self@[i], #[trigger] self@[j]),
        ensures
            r is Ok ==> r->Ok_0 < self@.len() && self@[r->Ok_0 as int] == needle@,
            r is Err ==> r->Err_0 <= self@.len() && (forall|k: int|
                0 <= k < r->Err_0 ==> T::spec_le(#[trigger] self@[k], needle@) && self@[k]
                    != needle@) && (forall|k: int|
                r->Err_0 <= k < self@.len() ==> T::spec_le(needle@, #[trigger] self@[k]) && self@[k]
                    != needle@),
    {
        let n = self.len();
        self.binary_search_needle(needle, 0, n)
    }

    /// Binary searches for the needle inside `[range.start, range.end)`
    /// only, for hierarchical searches over a bucketed table; `None`
    /// when the range does not fit the view. A returned index is
    /// relative to `range.start`.
    pub fn binary_search_in_range(&self, needle: &T, range: core::ops::Range<usize>) -> (r: Option<
        Result<usize, usize>,
    >)
        requires
            forall|i: int, j: int|
                range.start <= i <= j < range.end && range.end <= self@.len() ==> T::spec_le(
                    #[trigger] self@[i],
                    #[trigger] self@[j],
                ),
        ensures
            r is Some <==> range.start <= range.end && range.end <= self@.len(),
            r is Some ==> match r->Some_0 {
                Ok(i) => i < range.end - range.start && self@[range.start + i] == needle@,
                Err(j) => j <= range.end - range.start && (forall|k: int|
                    range.start <= k < range.start + j ==> T::spec_le(#[trigger] self@[k], needle@)
                        && self@[k] != needle@) && (forall|k: int|
                    range.start + j <= k < range.end ==> T::spec_le(needle@, #[trigger] self@[k])
                        && self@[k] != needle@),
            },
    {
        if range.start > range.end || range.end > self.len() {
            return None;
        }
        Some(self.binary_search_needle(needle, range.start, range.end))
    }
}

/// The total byte length of the encodings of the first `n` of `elems`.
pub open spec fn spec_data_len<T: VarULE, A: EncodeAsVarULE<T>>(elems: Seq<A>, n: int) -> int
    decreases n,
{
    if n <= 0 {
        0
    } else {
        spec_data_len::<T, A>(elems, n - 1) + elems[n - 1].spec_encoded().len()
    }
}

/// The byte length of the buffer that encodes `elems`: the header, the
/// index table, and every element's encoding.
pub open spec fn spec_total_len<T: VarULE, A: EncodeAsVarULE<T>>(elems: Seq<A>) -> int {
    4 + 4 * elems.len() + spec_data_len::<T, A>(elems, elems.len() as int)
}

/// The index table for the first `n` of `elems`: each element's offset,
/// little-endian, in element order.
pub open spec fn spec_index_table<T: VarULE, A: EncodeAsVarULE<T>>(elems: Seq<A>, n: int) -> Seq<
    u8,
>
    decreases n,
{
    if n <= 0 {
        Seq::empty()
    } else {
        spec_index_table::<T, A>(elems, n - 1) + spec_le32(
            spec_data_len::<T, A>(elems, n - 1) as u32,
        )
    }
}

/// The data segment for the first `n` of `elems`: their encodings, back
/// to back.
pub open spec fn spec_data_seg<T: VarULE, A: EncodeAsVarULE<T>>(elems: Seq<A>, n: int) -> Seq<u8>
    decreases n,
{
    if n <= 0 {
        Seq::empty()
    } else {
        spec_data_seg::<T, A>(elems, n - 1) + elems[n - 1].spec_encoded()
    }
}

/// The canonical buffer that encodes `elems`.
pub open spec fn spec_encoding<T: VarULE, A: EncodeAsVarULE<T>>(elems: Seq<A>) -> Seq<u8> {
    spec_le32(elems.len() as u32) + spec_index_table::<T, A>(elems, elems.len() as int)
        + spec_data_seg::<T, A>(elems, elems.len() as int)
}

/// Data lengths of prefixes are non-negative and grow with the prefix.
pub proof fn lemma_data_len_monotonic<T: VarULE, A: EncodeAsVarULE<T>>(
    elems: Seq<A>,
    i: int,
    j: int,
)
    requires
        0 <= i <= j,
    ensures
        spec_data_len::<T, A>(elems, i) <= spec_data_len::<T, A>(elems, j),
        0 <= spec_data_len::<T, A>(elems, j),
    decreases j,
{
    if i < j {
        lemma_data_len_monotonic::<T, A>(elems, i, j - 1);
    } else if 0 < j {
        lemma_data_len_monotonic::<T, A>(elems, 0, j - 1);
    }
}

proof fn lemma_index_table_len<T: VarULE, A: EncodeAsVarULE<T>>(elems: Seq<A>, n: int)
    requires
        n >= 0,
    ensures
        spec_index_table::<T, A>(elems, n).len() == 4 * n,
    decreases n,
{
    if n > 0 {
        lemma_index_table_len::<T, A>(elems, n - 1);
    }
}

proof fn lemma_data_seg_len<T: VarULE, A: EncodeAsVarULE<T>>(elems: Seq<A>, n: int)
    requires
        n >= 0,
    ensures
        spec_data_seg::<T, A>(elems, n).len() == spec_data_len::<T, A>(elems, n),
    decreases n,
{
    if n > 0 {
        lemma_data_seg_len::<T, A>(elems, n - 1);
    }
}

/// Entry `i` of the index table holds element `i`'s offset.
proof fn lemma_index_table_entry<T: VarULE, A: EncodeAsVarULE<T>>(elems: Seq<A>, n: int, i: int)
    requires
        0 <= i < n,
    ensures
        spec_index_table::<T, A>(elems, n).subrange(4 * i, 4 * i + 4) == spec_le32(
            spec_data_len::<T, A>(elems, i) as u32,
        ),
    decreases n,
{
    lemma_index_table_len::<T, A>(elems, n - 1);
    if i == n - 1 {
        assert(spec_index_table::<T, A>(elems, n).subrange(4 * i, 4 * i + 4) =~= spec_le32(
            spec_data_len::<T, A>(elems, i) as u32,
        ));
    } else {
        lemma_index_table_entry::<T, A>(elems, n - 1, i);
        assert(spec_index_table::<T, A>(elems, n).subrange(4 * i, 4 * i + 4)
            =~= spec_index_table::<T, A>(elems, n - 1).subrange(4 * i, 4 * i + 4));
    }
}

/// The data segment holds element `i`'s encoding between its offset and
/// the next element's offset.
proof fn lemma_data_seg_elem<T: VarULE, A: EncodeAsVarULE<T>>(elems: Seq<A>, n: int, i: int)
    requires
        0 <= i < n,
    ensures
        spec_data_seg::<T, A>(elems, n).subrange(
            spec_data_len::<T, A>(elems, i),
            spec_data_len::<T, A>(elems, i + 1),
        ) == elems[i].spec_encoded(),
    decreases n,
{
    lemma_data_seg_len::<T, A>(elems, n - 1);
    lemma_data_len_monotonic::<T, A>(elems, 0, i);
    if i + 1 <= n - 1 {
        lemma_data_len_monotonic::<T, A>(elems, i + 1, n - 1);
    }
    if i == n - 1 {
        assert(spec_data_seg::<T, A>(elems, n).subrange(
            spec_data_len::<T, A>(elems, i),
            spec_data_len::<T, A>(elems, i + 1),
        ) =~= elems[i].spec_encoded());
    } else {
        lemma_data_seg_elem::<T, A>(elems, n - 1, i);
        assert(spec_data_seg::<T, A>(elems, n).subrange(
            spec_data_len::<T, A>(elems, i),
            spec_data_len::<T, A>(elems, i + 1),
        ) =~= spec_data_seg::<T, A>(elems, n - 1).subrange(
            spec_data_len::<T, A>(elems, i),
            spec_data_len::<T, A>(elems, i + 1),
        ));
    }
}

/// The encoder's buffer is a valid container whose elements decode to
/// what was encoded: parsing the encoder's output gives back, in order,
/// the decoding of each input's encoding.
pub proof fn lemma_round_trip<T: VarULE, A: EncodeAsVarULE<T>>(elems: Seq<A>)
    requires
        spec_total_len::<T, A>(elems) <= u32::MAX,
    ensures
        buffer_valid::<T>(spec_encoding::<T, A>(elems)),
        buffer_elements::<T>(spec_encoding::<T, A>(elems)) == Seq::new(
            elems.len(),
            |i: int| T::spec_decode(elems[i].spec_encoded()),
        ),
{
    let n = elems.len() as int;
    let buf = spec_encoding::<T, A>(elems);
    let table = spec_index_table::<T, A>(elems, n);
    let seg = spec_data_seg::<T, A>(elems, n);
    lemma_index_table_len::<T, A>(elems, n);
    lemma_data_seg_len::<T, A>(elems, n);
    lemma_data_len_monotonic::<T, A>(elems, 0, n);
    assert(buf.len() == spec_total_len::<T, A>(elems));
    assert(buf.subrange(0, 4) =~= spec_le32(n as u32));
    lemma_le32_round_trip(n as u32);
    assert(spec_len_of(buf) == n);
    assert(spec_data_of(buf) =~= seg);
    assert forall|i: int| 0 <= i < n implies #[trigger] spec_offset_at(buf, i)
        == spec_data_len::<T, A>(elems, i) by {
        lemma_index_table_entry::<T, A>(elems, n, i);
        assert(buf.subrange(4 + 4 * i, 8 + 4 * i) =~= table.subrange(4 * i, 4 * i + 4));
        lemma_data_len_monotonic::<T, A>(elems, 0, i);
        lemma_data_len_monotonic::<T, A>(elems, i, n);
        lemma_le32_round_trip(spec_data_len::<T, A>(elems, i) as u32);
    }
    assert forall|i: int| 0 <= i < n implies #[trigger] spec_elem_end(buf, i)
        == spec_data_len::<T, A>(elems, i + 1) by {
        if i + 1 == n {
            assert(spec_elem_end(buf, i) == seg.len());
        }
    }
    assert forall|i: int| 0 <= i < n implies #[trigger] spec_elem_bytes(buf, i) == elems[
        i
    ].spec_encoded() by {
        lemma_data_seg_elem::<T, A>(elems, n, i);
        assert(spec_elem_bytes(buf, i) =~= seg.subrange(
            spec_data_len::<T, A>(elems, i),
            spec_data_len::<T, A>(elems, i + 1),
        ));
    }
    assert forall|i: int|
        0 <= i < n implies spec_offset_at(buf, i) <= spec_elem_end(buf, i) && spec_elem_end(
        buf,
        i,
    ) <= spec_data_of(buf).len() by {
        lemma_data_len_monotonic::<T, A>(elems, i, i + 1);
        lemma_data_len_monotonic::<T, A>(elems, i + 1, n);
    }
    assert forall|i: int| 0 <= i < n implies T::spec_valid(#[trigger] spec_elem_bytes(buf, i)) by {
        elems[i].lemma_encoded_valid();
    }
    assert(buffer_elements::<T>(buf) =~= Seq::new(
        elems.len(),
        |i: int| T::spec_decode(elems[i].spec_encoded()),
    ));
}

/// Encoding values and decoding the result reproduces them exactly,
/// whenever each value encodes to its own canonical bytes (as a type
/// that encodes as itself does).
pub proof fn lemma_round_trip_identity<T: VarULE + EncodeAsVarULE<T>>(elems: Seq<T>)
    requires
        spec_total_len::<T, T>(elems) <= u32::MAX,
        forall|i: int|
            0 <= i < elems.len() ==> (#[trigger] elems[i]).spec_encoded() == T::spec_bytes(
                elems[i]@,
            ),
    ensures
        buffer_valid::<T>(spec_encoding::<T, T>(elems)),
        buffer_elements::<T>(spec_encoding::<T, T>(elems)) == Seq::new(
            elems.len(),
            |i: int| elems[i]@,
        ),
{
    lemma_round_trip::<T, T>(elems);
    assert forall|i: int| 0 <= i < elems.len() implies T::spec_decode(
        #[trigger] elems[i].spec_encoded(),
    ) == elems[i]@ by {
        T::lemma_bytes_round_trip(elems[i]@);
    }
    assert(buffer_elements::<T>(spec_encoding::<T, T>(elems)) =~= Seq::new(
        elems.len(),
        |i: int| elems[i]@,
    ));
}

/// The byte length of the buffer that would encode `elements`, or
/// `None` when that length would not fit in a `u32`.
pub fn compute_serializable_len<T: VarULE, A: EncodeAsVarULE<T>>(elements: &[A]) -> (r: Option<
    u32,
>)
    ensures
        r is Some <==> spec_total_len::<T, A>(elements@) <= u32::MAX,
        r is Some ==> r->Some_0 == spec_total_len::<T, A>(elements@),
{
    let n_el = elements.len();
    proof {
        lemma_data_len_monotonic::<T, A>(elements@, 0, n_el as int);
    }
    if n_el as u64 > (0xffff_ffffu64 - 4) / 4 {
        return None;
    }
    let mut acc: u64 = 4 + 4 * (n_el as u64);
    let mut i: usize = 0;
    while i < n_el
        invariant
            n_el == elements@.len(),
            0 <= i <= n_el,
            acc == 4 + 4 * (n_el as int) + spec_data_len::<T, A>(elements@, i as int),
            acc <= u32::MAX,
        decreases n_el - i,
    {
        let element = vstd::slice::slice_index_get(elements, i);
        let el_len = element.encode_var_ule_len();
        proof {
            lemma_data_len_monotonic::<T, A>(elements@, i as int + 1, n_el as int);
        }
        if el_len as u64 > 0xffff_ffffu64 {
            return None;
        }
        acc = acc + (el_len as u64);
        if acc > 0xffff_ffffu64 {
            return None;
        }
        i = i + 1;
    }
    Some(acc as u32)
}

/// Writes the canonical encoding of `elements` into `output`, which
/// must have exactly the encoding's length. Every byte of `output` is
/// written: the header, then one index entry and one run of encoded
/// bytes per element, under two cursors that advance in lockstep.
pub fn write_serializable_bytes<T: VarULE, A: EncodeAsVarULE<T>>(
    elements: &[A],
    output: &mut Vec<u8>,
)
    requires
        spec_total_len::<T, A>(elements@) <= u32::MAX,
        old(output).len() == spec_total_len::<T, A>(elements@),
    ensures
        final(output)@ == spec_encoding::<T, A>(elements@),
{
    let n_el = elements.len();
    let ghost elems = elements@;
    let ghost total = spec_total_len::<T, A>(elems);
    proof {
        lemma_data_len_monotonic::<T, A>(elems, 0, n_el as int);
    }
    write_u32_le(output, 0, n_el as u32);
    let first_dat_offset: usize = 4 + 4 * n_el;
    let mut idx_offset: usize = 4;
    let mut dat_offset: usize = first_dat_offset;
    let mut i: usize = 0;
    while i < n_el
        invariant
            elems == elements@,
            n_el == elems.len(),
            0 <= i <= n_el,
            spec_total_len::<T, A>(elems) <= u32::MAX,
            total == spec_total_len::<T, A>(elems),
            output@.len() == total,
            first_dat_offset == 4 + 4 * (n_el as int),
            idx_offset == 4 + 4 * (i as int),
            dat_offset == first_dat_offset + spec_data_len::<T, A>(elems, i as int),
            output@.subrange(0, 4) == spec_le32(n_el as u32),
            output@.subrange(4, idx_offset as int) == spec_index_table::<T, A>(elems, i as int),
            output@.subrange(first_dat_offset as int, dat_offset as int) == spec_data_seg::<
                T,
                A,
            >(elems, i as int),
        decreases n_el - i,
    {
        let element = vstd::slice::slice_index_get(elements, i);
        let element_len = element.encode_var_ule_len();
        proof {
            lemma_data_len_monotonic::<T, A>(elems, 0, i as int);
            lemma_data_len_monotonic::<T, A>(elems, i as int + 1, n_el as int);
        }
        let idx = dat_offset - first_dat_offset;
        let ghost before_idx = output@;
        write_u32_le(output, idx_offset, idx as u32);
        proof {
            assert(output@.subrange(0, 4) =~= before_idx.subrange(0, 4));
            assert(output@.subrange(4, idx_offset as int) =~= before_idx.subrange(
                4,
                idx_offset as int,
            ));
            assert(output@.subrange(4, idx_offset + 4) =~= spec_index_table::<T, A>(
                elems,
                i as int + 1,
            ));
            assert(output@.subrange(first_dat_offset as int, dat_offset as int)
                =~= before_idx.subrange(first_dat_offset as int, dat_offset as int));
        }
        let ghost before_dat = output@;
        element.encode_var_ule_write(output, dat_offset);
        proof {
            assert(output@.subrange(0, 4) =~= before_dat.subrange(0, 4));
            assert(output@.subrange(4, idx_offset + 4) =~= before_dat.subrange(
                4,
                idx_offset + 4,
            ));
            assert(output@.subrange(first_dat_offset as int, dat_offset as int)
                =~= before_dat.subrange(first_dat_offset as int, dat_offset as int));
            assert(output@.subrange(
                first_dat_offset as int,
                dat_offset + element_len,
            ) =~= spec_data_seg::<T, A>(elems, i as int + 1));
        }
        idx_offset = idx_offset + 4;
        dat_offset = dat_offset + element_len;
        i = i + 1;
    }
    proof {
        assert(idx_offset == first_dat_offset);
        assert(dat_offset == total);
        assert(output@ =~= output@.subrange(0, 4) + output@.subrange(4, first_dat_offset as int)
            + output@.subrange(first_dat_offset as int, total as int));
        assert(output@ == spec_encoding::<T, A>(elems));
    }
}

/// Encodes `elements` into a fresh buffer: the canonical encoding, or
/// `None` when its length would not fit in a `u32`.
pub fn get_serializable_bytes<T: VarULE, A: EncodeAsVarULE<T>>(elements: &[A]) -> (r: Option<
    Vec<u8>,
>)
    ensures
        r is Some <==> spec_total_len::<T, A>(elements@) <= u32::MAX,
        r is Some ==> r->Some_0@ == spec_encoding::<T, A>(elements@),
{
    let len = match compute_serializable_len::<T, A>(elements) {
        None => {
            return None;
        },
        Some(l) => l,
    };
    let len_us = len as usize;
    let mut output: Vec<u8> = Vec::new();
    let mut i: usize = 0;
    while i < len_us
        invariant
            0 <= i <= len_us,
            output@.len() == i,
        decreases len_us - i,
    {
        output.push(0u8);
        i = i + 1;
    }
    write_serializable_bytes::<T, A>(elements, &mut output);
    Some(output)
}

/// Relies on alloc's `format!`: renders the offsets as debug text.
#[verifier::external_body]
fn format_indices(indices: &Vec<u32>) -> String {
    format!("VarZeroVecComponents {{ indices: {:?} }}", indices)
}

impl<'a, T: VarULE> Clone for VarZeroVecComponents<'a, T> {
    /// A clone is the same view: same buffer, same elements.
    fn clone(&self) -> (r: Self)
        ensures
            r@ == self@,
            r.spec_entire() == self.spec_entire(),
    {
        proof {
            use_type_invariant(self);
        }
        VarZeroVecComponents {
            len: self.len,
            indices: self.indices,
            things: self.things,
            entire_slice: self.entire_slice,
            marker: PhantomData,
        }
    }
}

impl<'a, T: VarULE> Copy for VarZeroVecComponents<'a, T> {

}

impl<'a, T: VarULE> Default for VarZeroVecComponents<'a, T> {
    /// The empty view.
    fn default() -> (r: Self)
        ensures
            r@ == Seq::<T::V>::empty(),
    {
        Self::new()
    }
}

/// Two views over the same bytes hold the same elements, however they
/// were constructed: on a buffer the parser accepts, the trusting
/// constructor yields the same accesses the validating one does.
pub proof fn lemma_unchecked_matches_checked<T: VarULE>(
    checked: VarZeroVecComponents<T>,
    unchecked: VarZeroVecComponents<T>,
)
    requires
        checked.wf(),
        unchecked.wf(),
        checked.spec_entire() == unchecked.spec_entire(),
    ensures
        checked@ == unchecked@,
{
    lemma_view_determined_by_buffer(checked);
    lemma_view_determined_by_buffer(unchecked);
}

/// An empty buffer is a valid container of zero elements — no header
/// required — and it holds no elements.
pub proof fn lemma_empty_buffer<T: VarULE>()
    ensures
        buffer_valid::<T>(Seq::<u8>::empty()),
        buffer_elements::<T>(Seq::<u8>::empty()) == Seq::<T::V>::empty(),
{
    assert(buffer_elements::<T>(Seq::<u8>::empty()) =~= Seq::<T::V>::empty());
}

/// Encoding no elements yields just the four-byte header of a zero
/// count, a valid buffer that holds no elements.
pub proof fn lemma_encode_empty<T: VarULE, A: EncodeAsVarULE<T>>()
    ensures
        spec_encoding::<T, A>(Seq::<A>::empty()) == spec_le32(0),
        buffer_valid::<T>(spec_encoding::<T, A>(Seq::<A>::empty())),
        buffer_elements::<T>(spec_encoding::<T, A>(Seq::<A>::empty())) == Seq::<T::V>::empty(),
{
    lemma_round_trip::<T, A>(Seq::<A>::empty());
    assert(spec_encoding::<T, A>(Seq::<A>::empty()) =~= spec_le32(0));
    assert(buffer_elements::<T>(spec_encoding::<T, A>(Seq::<A>::empty())) =~= Seq::<
        T::V,
    >::empty());
}

/// An index-table entry pointing outside the data segment makes the
/// buffer invalid, so the parser rejects it.
pub proof fn lemma_corrupt_index_rejected<T: VarULE>(buf: Seq<u8>, i: int)
    requires
        buf.len() >= 4,
        0 <= i < spec_len_of(buf),
        spec_offset_at(buf, i) > buf.len() - spec_data_start(buf),
    ensures
        !buffer_valid::<T>(buf),
{
}

/// A buffer too short for its own header and index table is invalid, so
/// the parser rejects it.
pub proof fn lemma_truncated_header_rejected<T: VarULE>(buf: Seq<u8>)
    requires
        buf.len() >= 1,
        buf.len() < spec_data_start(buf),
    ensures
        !buffer_valid::<T>(buf),
{
}

/// Dropping the trailing byte of a valid, non-empty buffer of `u32`
/// elements leaves its last element one byte short, so the parser
/// rejects the truncated buffer.
pub proof fn lemma_truncation_rejected_u32(buf: Seq<u8>)
    requires
        buffer_valid::<u32>(buf),
        spec_len_of(buf) >= 1,
    ensures
        !buffer_valid::<u32>(buf.take(buf.len() - 1)),
{
    let n = spec_len_of(buf) as int;
    let ds = spec_data_start(buf);
    let d = spec_data_of(buf).len() as int;
    assert(spec_elem_bytes(buf, n - 1).len() == 4);
    assert(spec_elem_end(buf, n - 1) == d);
    assert(spec_offset_at(buf, n - 1) == d - 4);
    let t = buf.take(buf.len() - 1);
    assert(t.subrange(0, 4) =~= buf.subrange(0, 4));
    assert(spec_len_of(t) == n);
    assert(spec_data_start(t) == ds);
    if buffer_structural(t) {
        assert(t.subrange(4 + 4 * (n - 1), 8 + 4 * (n - 1)) =~= buf.subrange(
            4 + 4 * (n - 1),
            8 + 4 * (n - 1),
        ));
        assert(spec_offset_at(t, n - 1) == d - 4);
        assert(spec_data_of(t).len() == d - 1);
        assert(spec_elem_bytes(t, n - 1).len() == 3);
        assert(!u32::spec_valid(spec_elem_bytes(t, n - 1)));
    }
}

} // verus!

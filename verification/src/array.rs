//! The secure array: a fixed-length, contiguous sequence of elements held
//! in a pinned, page-backed region. Constructing it reserves the smallest
//! page multiple covering the elements and writes a duplicate of the
//! prototype into every slot; dropping it releases the region.

use vstd::prelude::*;
use vstd::arithmetic::mul::lemma_mul_inequality;
use crate::Error;
use crate::OsImpl;
use crate::element::Element;
use crate::impl_unix::UnixImpl;
use crate::layout::PAGE_SIZE;
use crate::layout::lemma_round_up_props;
use crate::layout::round_up_to_page;
use crate::layout::spec_round_up_to_page;
use core::marker::PhantomData;

verus! {

/// Array residing in non-swappable memory.
pub struct UnswapArray<T> {
    region: crate::region::MemoryRegion,
    len: usize,
    elems: PhantomData<T>,
}

impl<T: Element> UnswapArray<T> {
    /// The byte range of slot `i` within the region.
    pub closed spec fn slot_bytes(self, i: int) -> Seq<u8> {
        self.region.bytes().subrange(i * T::size_spec(), (i + 1) * T::size_spec())
    }

    /// A well-formed array owns a well-formed region that is exactly the
    /// smallest page multiple covering its elements.
    pub closed spec fn wf(self) -> bool {
        &&& self.region.wf()
        &&& 1 <= self.len
        &&& self.len * T::size_spec() <= self.region.size_bytes()
        &&& self.region.size_bytes() == spec_round_up_to_page((self.len * T::size_spec()) as int)
    }

    /// The number of bytes the region reserves for this array.
    pub closed spec fn region_size_bytes(self) -> int {
        self.region.size_bytes()
    }

    /// Allocates a new array of `len` duplicates of `value`, in a pinned
    /// region of the smallest page multiple covering them. Fails only when
    /// the operating system refuses the reservation or the pinning.
    pub fn new(value: T, len: usize) -> (r: Result<Self, Error>)
        requires
            1 <= len,
            T::align_spec() <= PAGE_SIZE,
            len * T::size_spec() + PAGE_SIZE <= usize::MAX,
        ensures
            r matches Ok(a) ==> a.wf(),
            r matches Ok(a) ==> a@.len() == len,
            r matches Ok(a) ==> forall|i: int| 0 <= i < len ==> a@[i] == value,
            r matches Ok(a) ==> a.region_size_bytes() == spec_round_up_to_page(
                (len * T::size_spec()) as int,
            ),
            r matches Err(e) ==> e == Error::OsError,
    {
        proof {
            T::lemma_size_pos();
            T::lemma_encode_len(value);
            T::lemma_round_trip(value);
            assert(1 <= len * T::size_spec()) by (nonlinear_arith)
                requires
                    1 <= len,
                    1 <= T::size_spec(),
            ;
            lemma_round_up_props((len * T::size_spec()) as int);
        }
        let elem_size = T::size();
        let raw = len * elem_size;
        let size = match round_up_to_page(raw) {
            Some(s) => s,
            None => {
                return Err(Error::OsError);
            },
        };
        let region = match UnixImpl::alloc_pages(size) {
            Ok(region) => region,
            Err(e) => {
                return Err(e);
            },
        };
        let mut arr = UnswapArray { region, len, elems: PhantomData };
        let bytes = value.encode();
        let mut i: usize = 0;
        while i < len
            invariant
                arr.region.wf(),
                arr.len == len,
                1 <= len,
                i <= len,
                elem_size == T::size_spec(),
                bytes@ == value.encode_spec(),
                bytes@.len() == elem_size,
                len * T::size_spec() <= arr.region.size_bytes(),
                arr.region.size_bytes() == spec_round_up_to_page((len * T::size_spec()) as int),
                forall|j: int| 0 <= j < i ==> arr.slot_bytes(j) == value.encode_spec(),
            decreases len - i,
        {
            arr.write_slot(i, &bytes);
            i += 1;
        }
        proof {
            assert(arr.wf());
            assert forall|j: int| 0 <= j < len implies arr@[j] == value by {
                assert(arr.slot_bytes(j) == value.encode_spec());
            }
        }
        Ok(arr)
    }

    /// The array's length in elements.
    pub fn len(&self) -> (r: usize)
        ensures
            r == self@.len(),
    {
        self.len
    }

    /// Reads element `index`.
    pub fn get(&self, index: usize) -> (r: T)
        requires
            self.wf(),
            index < self@.len(),
        ensures
            r == self@[index as int],
    {
        let elem_size = T::size();
        proof {
            self.lemma_slot_in_region(index as int);
        }
        let offset = index * elem_size;
        let mut buf: Vec<u8> = Vec::new();
        let mut j: usize = 0;
        while j < elem_size
            invariant
                self.wf(),
                index < self.len,
                elem_size == T::size_spec(),
                offset == index * T::size_spec(),
                offset + elem_size <= self.region.size_bytes(),
                j <= elem_size,
                buf@.len() == j,
                forall|k: int| 0 <= k < j ==> buf@[k] == self.region.bytes()[offset + k],
            decreases elem_size - j,
        {
            buf.push(self.region.read_byte(offset + j));
            j += 1;
        }
        proof {
            assert(buf@ =~= self.slot_bytes(index as int));
        }
        T::decode(&buf)
    }

    /// Writes `value` into element `index`. No other element changes.
    pub fn set(&mut self, index: usize, value: T)
        requires
            old(self).wf(),
            index < old(self)@.len(),
        ensures
            final(self).wf(),
            final(self)@ == old(self)@.update(index as int, value),
            final(self)@[index as int] == value,
            forall|j: int|
                0 <= j < old(self)@.len() && j != index ==> final(self)@[j] == old(self)@[j],
    {
        proof {
            T::lemma_encode_len(value);
            T::lemma_round_trip(value);
        }
        let bytes = value.encode();
        self.write_slot(index, &bytes);
        proof {
            assert(self@ =~= old(self)@.update(index as int, value));
        }
    }

    /// Copies the elements out, in slot order.
    pub fn to_vec(&self) -> (r: Vec<T>)
        requires
            self.wf(),
        ensures
            r@ == self@,
    {
        let mut out: Vec<T> = Vec::new();
        let mut i: usize = 0;
        while i < self.len
            invariant
                self.wf(),
                i <= self.len,
                out@.len() == i,
                forall|j: int| 0 <= j < i ==> out@[j] == self@[j],
            decreases self.len - i,
        {
            out.push(self.get(i));
            i += 1;
        }
        proof {
            assert(out@ =~= self@);
        }
        out
    }

    /// Slot `index` lies within the region.
    proof fn lemma_slot_in_region(self, index: int)
        requires
            self.wf(),
            0 <= index < self.len,
        ensures
            0 <= index * T::size_spec(),
            (index + 1) * T::size_spec() <= self.region.size_bytes(),
            index * T::size_spec() + T::size_spec() == (index + 1) * T::size_spec(),
    {
        T::lemma_size_pos();
        lemma_mul_inequality(index + 1, self.len as int, T::size_spec() as int);
        assert(0 <= index * T::size_spec()) by (nonlinear_arith)
            requires
                0 <= index,
                0 <= T::size_spec(),
        ;
        assert(index * T::size_spec() + T::size_spec() == (index + 1) * T::size_spec())
            by (nonlinear_arith);
    }

    /// Fills slot `i` with the given bytes, leaving every byte outside the
    /// slot, and so every other slot, unchanged.
    fn write_slot(&mut self, i: usize, bytes: &Vec<u8>)
        requires
            old(self).wf(),
            i < old(self).len,
            bytes@.len() == T::size_spec(),
        ensures
            final(self).wf(),
            final(self).len == old(self).len,
            final(self).region.size_bytes() == old(self).region.size_bytes(),
            final(self).slot_bytes(i as int) == bytes@,
            forall|j: int|
                0 <= j < old(self).len && j != i ==> final(self).slot_bytes(j) == old(
                    self,
                ).slot_bytes(j),
    {
        let elem_size = T::size();
        proof {
            self.lemma_slot_in_region(i as int);
        }
        let offset = i * elem_size;
        let ghost orig: Seq<u8> = self.region.bytes();
        let mut j: usize = 0;
        while j < elem_size
            invariant
                self.region.wf(),
                self.len == old(self).len,
                self.region.size_bytes() == old(self).region.size_bytes(),
                orig == old(self).region.bytes(),
                orig.len() == self.region.size_bytes(),
                i < self.len,
                elem_size == T::size_spec(),
                bytes@.len() == elem_size,
                offset == i * T::size_spec(),
                offset + elem_size <= self.region.size_bytes(),
                j <= elem_size,
                forall|k: int|
                    0 <= k < orig.len() && !(offset <= k < offset + j)
                        ==> self.region.bytes()[k] == orig[k],
                forall|k: int| offset <= k < offset + j ==> self.region.bytes()[k] == bytes@[
                    k - offset
                ],
            decreases elem_size - j,
        {
            self.region.write_byte(offset + j, bytes[j]);
            j += 1;
        }
        proof {
            assert(self.wf());
            assert(self.slot_bytes(i as int) =~= bytes@);
            self.lemma_slot_in_region(i as int);
            assert forall|j2: int|
                0 <= j2 < old(self).len && j2 != i implies self.slot_bytes(j2) == old(
                self,
            ).slot_bytes(j2) by {
                self.lemma_slot_in_region(j2);
                if j2 < i {
                    lemma_mul_inequality(j2 + 1, i as int, T::size_spec() as int);
                    assert((j2 + 1) * T::size_spec() <= offset);
                } else {
                    lemma_mul_inequality(i as int + 1, j2, T::size_spec() as int);
                    assert(offset + T::size_spec() <= j2 * T::size_spec());
                }
                assert(self.slot_bytes(j2) =~= old(self).slot_bytes(j2));
            }
        }
    }
}

impl<T: Element> View for UnswapArray<T> {
    type V = Seq<T>;

    /// The array as the sequence of its decoded slots.
    closed spec fn view(&self) -> Seq<T> {
        Seq::new(self.len as nat, |i: int| T::decode_spec(self.slot_bytes(i)))
    }
}

} // verus!


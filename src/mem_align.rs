use vstd::prelude::*;

verus! {

/// The smallest multiple of `to` that is at least `x`.
pub open spec fn rounded_up(x: int, to: int) -> int
    recommends
        to > 0,
{
    if x % to == 0 {
        x
    } else {
        x - x % to + to
    }
}

/// Size of the pages that allocations are aligned to.
pub const PAGE_SIZE: usize = 4096;

/// Rounds `x` up to the next multiple of `to`.
pub fn round_up(x: usize, to: usize) -> (r: usize)
    requires
        to > 0,
        rounded_up(x as int, to as int) <= usize::MAX,
    ensures
        r == rounded_up(x as int, to as int),
        r % to == 0,
        x <= r < x + to,
{
    let m = x % to;
    if m == 0 {
        x
    } else {
        proof {
            let q = x as int / to as int;
            vstd::arithmetic::div_mod::lemma_fundamental_div_mod(x as int, to as int);
            assert(x as int - m as int + to as int == (q + 1) * to as int) by (nonlinear_arith)
                requires
                    x as int == to as int * q + m as int,
            ;
            vstd::arithmetic::div_mod::lemma_mod_multiples_basic(q + 1, to as int);
        }
        x - m + to
    }
}

/// Rounds `size` up to a whole number of pages.
pub fn page_aligned(size: usize) -> (r: usize)
    requires
        rounded_up(size as int, PAGE_SIZE as int) <= usize::MAX,
    ensures
        r == rounded_up(size as int, PAGE_SIZE as int),
        r % PAGE_SIZE == 0,
        size <= r < size + PAGE_SIZE,
{
    round_up(size, PAGE_SIZE)
}

/// Metadata for a page aligned allocation of elements of type `T`.
#[derive(Debug)]
pub struct MemAlign<T> {
    byte_size: usize,
    capacity: usize,
    remainder: usize,
    phantom: std::marker::PhantomData<T>,
}

impl<T> MemAlign<T> {
    /// Size in bytes of the whole allocation.
    pub closed spec fn spec_byte_size(&self) -> nat {
        self.byte_size as nat
    }

    /// Number of whole elements that fit in the allocation.
    pub closed spec fn spec_capacity(&self) -> nat {
        self.capacity as nat
    }

    /// Bytes left over after the last whole element.
    pub closed spec fn spec_remainder(&self) -> nat {
        self.remainder as nat
    }

    /// The layout is consistent: whole elements and the remainder fill the allocation,
    /// which is a non-empty whole number of pages.
    pub open spec fn wf(&self) -> bool {
        &&& vstd::layout::size_of::<T>() > 0
        &&& vstd::layout::size_of::<T>() * self.spec_capacity() + self.spec_remainder()
            == self.spec_byte_size()
        &&& self.spec_remainder() < vstd::layout::size_of::<T>()
        &&& self.spec_byte_size() > 0
        &&& self.spec_byte_size() % (PAGE_SIZE as nat) == 0
    }

    pub fn element_size() -> (r: usize)
        ensures
            r == vstd::layout::size_of::<T>(),
    {
        std::mem::size_of::<T>()
    }

    pub fn byte_size(&self) -> (r: usize)
        ensures
            r == self.spec_byte_size(),
    {
        self.byte_size
    }

    /// Capacity in instances
    pub fn capacity(&self) -> (r: usize)
        ensures
            r == self.spec_capacity(),
    {
        self.capacity
    }

    /// Remainder in bytes
    pub fn remainder(&self) -> (r: usize)
        ensures
            r == self.spec_remainder(),
    {
        self.remainder
    }

    /// Whether whole elements and the remainder add up to the byte size.
    pub fn is_valid(&self) -> (r: bool)
        ensures
            r == (vstd::layout::size_of::<T>() * self.spec_capacity() + self.spec_remainder()
                == self.spec_byte_size()),
    {
        let element_size = Self::element_size();
        match element_size.checked_mul(self.capacity) {
            Some(used) => match used.checked_add(self.remainder) {
                Some(total) => total == self.byte_size,
                None => false,
            },
            None => false,
        }
    }

    /// Lays out room for at least `capacity` elements, rounded up to whole pages.
    pub fn new(capacity: usize) -> (r: Self)
        requires
            vstd::layout::size_of::<T>() > 0,
            capacity > 0,
            rounded_up(vstd::layout::size_of::<T>() * capacity, PAGE_SIZE as int) <= usize::MAX,
        ensures
            r.wf(),
            r.spec_byte_size() == rounded_up(
                vstd::layout::size_of::<T>() * capacity,
                PAGE_SIZE as int,
            ),
            r.spec_capacity() == r.spec_byte_size() / vstd::layout::size_of::<T>(),
            r.spec_capacity() >= capacity,
    {
        let element_size = Self::element_size();
        proof {
            vstd::arithmetic::mul::lemma_mul_increases(capacity as int, element_size as int);
            assert(capacity * element_size == element_size * capacity) by (nonlinear_arith);
        }
        let size = element_size * capacity;
        let byte_size = page_aligned(size);
        let remainder = byte_size % element_size;
        let capacity_out = (byte_size - remainder) / element_size;
        proof {
            let es = element_size as int;
            let bs = byte_size as int;
            vstd::arithmetic::div_mod::lemma_fundamental_div_mod(bs, es);
            assert(bs - remainder == es * (bs / es));
            vstd::arithmetic::div_mod::lemma_div_multiples_vanish(bs / es, es);
            assert(capacity_out == bs / es);
            vstd::arithmetic::div_mod::lemma_div_is_ordered(size as int, bs, es);
            vstd::arithmetic::div_mod::lemma_div_multiples_vanish(capacity as int, es);
        }
        MemAlign {
            byte_size,
            capacity: capacity_out,
            remainder,
            phantom: std::marker::PhantomData,
        }
    }
}

} // verus!

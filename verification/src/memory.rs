//! Placement of exported images in device memory.
//!
//! A surface of several planes is backed by one allocation: the planes lie one
//! behind the other, each at an offset that suits its own alignment. This module
//! picks the memory type of that allocation and computes the offsets.
use vstd::prelude::*;

verus! {

/// Property bit of memory that is local to the GPU.
pub const MEMORY_PROPERTY_DEVICE_LOCAL: u32 = 1;

/// Property mask that every memory type satisfies.
pub const MEMORY_PROPERTY_NONE: u32 = 0;

/// The most memory types that a physical device reports.
pub const MAX_MEMORY_TYPES: usize = 32;

/// What the driver asks of the memory that backs one image.
#[derive(Clone, Copy, Debug, PartialEq, Eq, Structural)]
pub struct MemoryRequirements {
    /// Bytes that the image occupies.
    pub size: u64,
    /// Alignment of the image's first byte, a power of two.
    pub alignment: u64,
    /// Bit `i` is set where memory type `i` may back the image.
    pub type_bits: u32,
}

/// Where the planes of one surface lie in their shared allocation.
#[derive(Debug)]
pub struct MemoryPlan {
    /// Offset of each plane's image, in plane order.
    pub offsets: Vec<u64>,
    /// Size of the whole allocation.
    pub total_size: u64,
    /// Index of the memory type to allocate from.
    pub type_index: u32,
}

/// The least multiple of `multiple` that is not below `value`.
pub open spec fn round_up(value: int, multiple: int) -> int {
    ((value + multiple - 1) / multiple) * multiple
}

/// `round_up` gives a multiple, not below the value, and less than one multiple above it.
pub proof fn lemma_round_up(value: int, multiple: int)
    requires
        multiple > 0,
    ensures
        round_up(value, multiple) % multiple == 0,
        value <= round_up(value, multiple) < value + multiple,
{
    let x = value + multiple - 1;
    vstd::arithmetic::div_mod::lemma_fundamental_div_mod(x, multiple);
    vstd::arithmetic::div_mod::lemma_mod_multiples_basic(x / multiple, multiple);
    assert(multiple * (x / multiple) == (x / multiple) * multiple) by (nonlinear_arith);
}

/// The multiple described by `lemma_round_up` is the only one.
pub proof fn lemma_round_up_unique(value: int, multiple: int, r: int)
    requires
        multiple > 0,
        r % multiple == 0,
        value <= r < value + multiple,
    ensures
        r == round_up(value, multiple),
{
    lemma_round_up(value, multiple);
    let s = round_up(value, multiple);
    vstd::arithmetic::div_mod::lemma_fundamental_div_mod(r, multiple);
    vstd::arithmetic::div_mod::lemma_fundamental_div_mod(s, multiple);
    let a = r / multiple;
    let b = s / multiple;
    assert(a == b) by (nonlinear_arith)
        requires
            multiple > 0,
            -multiple < multiple * a - multiple * b < multiple,
    ;
}

/// The alignments that Vulkan reports: powers of two.
pub open spec fn is_power_of_two(x: u64) -> bool {
    exists|k: nat| k < 64 && #[trigger] vstd::arithmetic::power2::pow2(k) == x
}

/// Align `value` up to the next multiple of `align`, which is a power of two.
pub fn align_up(value: u64, align: u64) -> (r: u64)
    requires
        is_power_of_two(align),
        value + align - 1 <= u64::MAX,
    ensures
        r == round_up(value as int, align as int),
{
    proof {
        let k = choose|k: nat| k < 64 && #[trigger] vstd::arithmetic::power2::pow2(k) == align;
        vstd::arithmetic::power2::lemma_pow2_pos(k);
        let x = (value + align - 1) as u64;
        let m = (align - 1) as u64;
        vstd::bits::lemma_u64_low_bits_mask_is_mod(x, k);
        assert(vstd::bits::low_bits_mask(k) == m);
        assert(x & m == x % align);
        assert((x & !m) + (x & m) == x) by (bit_vector);
        vstd::arithmetic::div_mod::lemma_fundamental_div_mod(x as int, align as int);
        assert(align as int * (x as int / align as int) == (x as int / align as int)
            * align as int) by (nonlinear_arith);
        assert((x & !m) as int == round_up(value as int, align as int));
    }
    (value + (align - 1)) & !(align - 1)
}

/// The width or height `value` padded to a multiple of `multiple`.
pub fn next_multiple_of(value: u32, multiple: u32) -> (r: u32)
    requires
        multiple > 0,
        round_up(value as int, multiple as int) <= u32::MAX,
    ensures
        r == round_up(value as int, multiple as int),
{
    let rest: u32 = value % multiple;
    proof {
        lemma_round_up(value as int, multiple as int);
        vstd::arithmetic::div_mod::lemma_fundamental_div_mod(value as int, multiple as int);
        if rest == 0 {
            lemma_round_up_unique(value as int, multiple as int, value as int);
        } else {
            let up = value + multiple - rest;
            let q = value as int / multiple as int;
            assert(up == multiple as int * (q + 1)) by (nonlinear_arith)
                requires
                    value as int == multiple as int * q + rest as int,
                    up == value + multiple - rest,
            ;
            vstd::arithmetic::div_mod::lemma_mod_multiples_basic(q + 1, multiple as int);
            assert(multiple as int * (q + 1) == (q + 1) * multiple as int) by (nonlinear_arith);
            lemma_round_up_unique(value as int, multiple as int, up);
        }
    }
    if rest == 0 {
        value
    } else {
        value + (multiple - rest)
    }
}

/// `value / divisor`, rounded up.
pub open spec fn div_up(value: int, divisor: int) -> int {
    (value + divisor - 1) / divisor
}

/// `value / divisor`, rounded up.
pub fn div_ceil(value: u32, divisor: u32) -> (r: u32)
    requires
        divisor > 0,
    ensures
        r == div_up(value as int, divisor as int),
{
    let q: u32 = value / divisor;
    let rest: u32 = value % divisor;
    proof {
        let d = divisor as int;
        vstd::arithmetic::div_mod::lemma_fundamental_div_mod(value as int, d);
        let x = value + d - 1;
        let up = if rest == 0 {
            q as int
        } else {
            q + 1
        };
        let s = x - d * up;
        assert(x == d * up + s);
        assert(0 <= s < d) by (nonlinear_arith)
            requires
                value as int == d * (q as int) + rest as int,
                0 <= rest < d,
                x == value + d - 1,
                up == (if rest == 0 {
                    q as int
                } else {
                    q + 1
                }),
                s == x - d * up,
        ;
        assert(d * up == up * d) by (nonlinear_arith);
        vstd::arithmetic::div_mod::lemma_fundamental_div_mod_converse(x, d, up, s);
        assert(up <= value) by (nonlinear_arith)
            requires
                value as int == d * (q as int) + rest as int,
                0 <= rest < d,
                q >= 0,
                up == (if rest == 0 {
                    q as int
                } else {
                    q + 1
                }),
        ;
    }
    if rest == 0 {
        q
    } else {
        q + 1
    }
}

/// Memory type `i` is allowed by `type_bits` and has every property in `flags`.
pub open spec fn memory_type_fits(types: Seq<u32>, type_bits: u32, flags: u32, i: int) -> bool {
    0 <= i < types.len() && type_bits & (1u32 << (i as u32)) != 0 && types[i] & flags == flags
}

/// `r` is the first memory type that fits, or `None` where none does.
pub open spec fn first_memory_type(
    types: Seq<u32>,
    type_bits: u32,
    flags: u32,
    r: Option<u32>,
) -> bool {
    match r {
        Some(i) => memory_type_fits(types, type_bits, flags, i as int) && forall|j: int|
            0 <= j < i ==> !memory_type_fits(types, type_bits, flags, j),
        None => forall|j: int| !memory_type_fits(types, type_bits, flags, j),
    }
}

/// The first memory type that `type_bits_req` allows and that has all of `flags_req`.
///
/// `types` lists the property flags of the device's memory types, by index.
pub fn find_memory_type(types: &[u32], type_bits_req: u32, flags_req: u32) -> (r: Option<u32>)
    requires
        types@.len() <= MAX_MEMORY_TYPES,
    ensures
        first_memory_type(types@, type_bits_req, flags_req, r),
{
    let mut i: usize = 0;
    while i < types.len()
        invariant
            i <= types@.len() <= MAX_MEMORY_TYPES,
            forall|j: int| 0 <= j < i ==> !memory_type_fits(types@, type_bits_req, flags_req, j),
        decreases types@.len() - i,
    {
        let bit: u32 = 1u32 << (i as u32);
        if type_bits_req & bit != 0 && types[i] & flags_req == flags_req {
            return Some(i as u32);
        }
        i = i + 1;
    }
    None
}

/// `r` is the memory type an export allocates from: the first that fits among those local
/// to the GPU, else the first that fits at all.
pub open spec fn export_memory_type(types: Seq<u32>, type_bits: u32, r: Option<u32>) -> bool {
    ||| r is Some && first_memory_type(types, type_bits, MEMORY_PROPERTY_DEVICE_LOCAL, r)
    ||| first_memory_type(types, type_bits, MEMORY_PROPERTY_DEVICE_LOCAL, None)
        && first_memory_type(types, type_bits, MEMORY_PROPERTY_NONE, r)
}

/// The memory type described by `export_memory_type`.
pub open spec fn memory_type_of(types: Seq<u32>, type_bits: u32) -> Option<u32> {
    choose|r: Option<u32>| export_memory_type(types, type_bits, r)
}

/// A memory type list and a mask leave no choice of the type an export allocates from.
pub proof fn lemma_memory_type_unique(
    types: Seq<u32>,
    type_bits: u32,
    a: Option<u32>,
    b: Option<u32>,
)
    requires
        export_memory_type(types, type_bits, a),
        export_memory_type(types, type_bits, b),
    ensures
        a == b,
{
    if a is Some && b is Some && a->0 != b->0 {
        let (i, j) = (a->0 as int, b->0 as int);
        assert(memory_type_fits(types, type_bits, MEMORY_PROPERTY_DEVICE_LOCAL, i)
            || !memory_type_fits(types, type_bits, MEMORY_PROPERTY_DEVICE_LOCAL, i));
        assert(memory_type_fits(types, type_bits, MEMORY_PROPERTY_DEVICE_LOCAL, j)
            || !memory_type_fits(types, type_bits, MEMORY_PROPERTY_DEVICE_LOCAL, j));
        assert(memory_type_fits(types, type_bits, MEMORY_PROPERTY_NONE, i) || !memory_type_fits(
            types,
            type_bits,
            MEMORY_PROPERTY_NONE,
            i,
        ));
        assert(memory_type_fits(types, type_bits, MEMORY_PROPERTY_NONE, j) || !memory_type_fits(
            types,
            type_bits,
            MEMORY_PROPERTY_NONE,
            j,
        ));
    }
}

proof fn lemma_first_memory_type(types: Seq<u32>, type_bits: u32, flags: u32, i: int) -> (r: Option<
    u32,
>)
    requires
        types.len() <= MAX_MEMORY_TYPES,
        memory_type_fits(types, type_bits, flags, i),
    ensures
        r is Some,
        first_memory_type(types, type_bits, flags, r),
    decreases i,
{
    if exists|j: int| 0 <= j < i && memory_type_fits(types, type_bits, flags, j) {
        let j = choose|j: int| 0 <= j < i && memory_type_fits(types, type_bits, flags, j);
        lemma_first_memory_type(types, type_bits, flags, j)
    } else {
        Some(i as u32)
    }
}

/// There is always an answer to which memory type an export allocates from.
pub proof fn lemma_memory_type_exists(types: Seq<u32>, type_bits: u32)
    requires
        types.len() <= MAX_MEMORY_TYPES,
    ensures
        export_memory_type(types, type_bits, memory_type_of(types, type_bits)),
{
    let local = MEMORY_PROPERTY_DEVICE_LOCAL;
    let any = MEMORY_PROPERTY_NONE;
    if exists|i: int| memory_type_fits(types, type_bits, local, i) {
        let i = choose|i: int| memory_type_fits(types, type_bits, local, i);
        let r = lemma_first_memory_type(types, type_bits, local, i);
        assert(export_memory_type(types, type_bits, r));
    } else if exists|i: int| memory_type_fits(types, type_bits, any, i) {
        let i = choose|i: int| memory_type_fits(types, type_bits, any, i);
        let r = lemma_first_memory_type(types, type_bits, any, i);
        assert(export_memory_type(types, type_bits, r));
    } else {
        assert(export_memory_type(types, type_bits, None));
    }
}

/// Pick the memory type for an exportable allocation.
pub fn select_memory_type(types: &[u32], type_bits: u32) -> (r: Option<u32>)
    requires
        types@.len() <= MAX_MEMORY_TYPES,
    ensures
        export_memory_type(types@, type_bits, r),
        r == memory_type_of(types@, type_bits),
{
    let r = match find_memory_type(types, type_bits, MEMORY_PROPERTY_DEVICE_LOCAL) {
        Some(i) => Some(i),
        None => find_memory_type(types, type_bits, MEMORY_PROPERTY_NONE),
    };
    proof {
        assert(export_memory_type(types@, type_bits, r));
        lemma_memory_type_unique(types@, type_bits, r, memory_type_of(types@, type_bits));
    }
    r
}

/// The strictest alignment among the first `k` images.
pub open spec fn max_alignment(reqs: Seq<MemoryRequirements>, k: int) -> int
    decreases k,
{
    if k <= 0 {
        0
    } else {
        let before = max_alignment(reqs, k - 1);
        if reqs[k - 1].alignment > before {
            reqs[k - 1].alignment as int
        } else {
            before
        }
    }
}

/// Offset of image `k`: the first one that leaves room for the images before it and meets the
/// strictest alignment among them and itself.
pub open spec fn plane_offset(reqs: Seq<MemoryRequirements>, k: int) -> int
    decreases k,
{
    if k <= 0 {
        0
    } else {
        round_up(plane_offset(reqs, k - 1) + reqs[k - 1].size, max_alignment(reqs, k + 1))
    }
}

/// Size of the allocation that holds all images.
pub open spec fn total_size(reqs: Seq<MemoryRequirements>) -> int {
    plane_offset(reqs, reqs.len() - 1) + reqs[reqs.len() - 1].size
}

/// The memory types that may back the first `k` images together.
pub open spec fn combined_type_bits(reqs: Seq<MemoryRequirements>, k: int) -> u32
    decreases k,
{
    if k <= 1 {
        reqs[0].type_bits
    } else {
        combined_type_bits(reqs, k - 1) & reqs[k - 1].type_bits
    }
}

/// Every alignment is a power of two and no offset leaves the 64-bit range.
pub open spec fn requirements_in_range(reqs: Seq<MemoryRequirements>) -> bool {
    &&& reqs.len() > 0
    &&& forall|k: int| 0 <= k < reqs.len() ==> is_power_of_two(#[trigger] reqs[k].alignment)
    &&& forall|k: int| 1 <= k < reqs.len() ==> #[trigger] next_offset_in_range(reqs, k)
    &&& total_size(reqs) <= u64::MAX
}

/// The arithmetic that places image `k` behind image `k - 1` stays in the 64-bit range.
pub open spec fn next_offset_in_range(reqs: Seq<MemoryRequirements>, k: int) -> bool {
    plane_offset(reqs, k - 1) + reqs[k - 1].size + max_alignment(reqs, k + 1) - 1 <= u64::MAX
}

/// The smaller of two powers of two divides the larger.
proof fn lemma_power_of_two_divides(a: u64, b: u64)
    requires
        is_power_of_two(a),
        is_power_of_two(b),
        a <= b,
    ensures
        a > 0,
        b as int % a as int == 0,
{
    let i = choose|k: nat| k < 64 && #[trigger] vstd::arithmetic::power2::pow2(k) == a;
    let j = choose|k: nat| k < 64 && #[trigger] vstd::arithmetic::power2::pow2(k) == b;
    vstd::arithmetic::power2::lemma_pow2_pos(i);
    if j < i {
        vstd::arithmetic::power2::lemma_pow2_strictly_increases(j, i);
    }
    let d = (j - i) as nat;
    vstd::arithmetic::power2::lemma_pow2_adds(d, i);
    vstd::arithmetic::div_mod::lemma_mod_multiples_basic(
        vstd::arithmetic::power2::pow2(d) as int,
        a as int,
    );
}

/// The strictest alignment of the first `k` images is one of theirs, and not below any.
proof fn lemma_max_alignment(reqs: Seq<MemoryRequirements>, k: int)
    requires
        1 <= k <= reqs.len(),
        forall|i: int| 0 <= i < reqs.len() ==> is_power_of_two(#[trigger] reqs[i].alignment),
    ensures
        exists|i: int| 0 <= i < k && max_alignment(reqs, k) == #[trigger] reqs[i].alignment,
        forall|i: int| 0 <= i < k ==> #[trigger] reqs[i].alignment <= max_alignment(reqs, k),
        0 < max_alignment(reqs, k) <= u64::MAX,
        is_power_of_two(max_alignment(reqs, k) as u64),
    decreases k,
{
    assert(is_power_of_two(reqs[k - 1].alignment));
    lemma_power_of_two_divides(reqs[k - 1].alignment, reqs[k - 1].alignment);
    if k > 1 {
        lemma_max_alignment(reqs, k - 1);
        let i = choose|i: int|
            0 <= i < k - 1 && max_alignment(reqs, k - 1) == #[trigger] reqs[i].alignment;
        assert(reqs[i].alignment == max_alignment(reqs, k - 1));
    }
}

/// Every image starts at a multiple of its own alignment, behind the end of every image before
/// it, and ends within the allocation.
pub proof fn planes_are_aligned_and_disjoint(reqs: Seq<MemoryRequirements>)
    requires
        requirements_in_range(reqs),
    ensures
        forall|k: int|
            0 <= k < reqs.len() ==> plane_offset(reqs, k) % (#[trigger] reqs[k].alignment as int)
                == 0,
        forall|i: int, j: int|
            0 <= i < j < reqs.len() ==> plane_offset(reqs, i) + (#[trigger] reqs[i]).size
                <= #[trigger] plane_offset(reqs, j),
        forall|k: int|
            0 <= k < reqs.len() ==> 0 <= #[trigger] plane_offset(reqs, k) && plane_offset(reqs, k)
                + reqs[k].size <= total_size(reqs),
{
    assert forall|k: int| 0 <= k < reqs.len() implies plane_offset(reqs, k) % (
    #[trigger] reqs[k].alignment as int) == 0 by {
        lemma_plane_aligned(reqs, k);
    }
    assert forall|i: int, j: int| 0 <= i < j < reqs.len() implies plane_offset(reqs, i) + (
    #[trigger] reqs[i]).size <= #[trigger] plane_offset(reqs, j) by {
        lemma_planes_ordered(reqs, i, j);
    }
    assert forall|k: int| 0 <= k < reqs.len() implies 0 <= #[trigger] plane_offset(reqs, k)
        && plane_offset(reqs, k) + reqs[k].size <= total_size(reqs) by {
        lemma_offset_nonnegative(reqs, k);
        if k < reqs.len() - 1 {
            lemma_planes_ordered(reqs, k, reqs.len() - 1);
        }
    }
}

proof fn lemma_offset_nonnegative(reqs: Seq<MemoryRequirements>, k: int)
    requires
        0 <= k < reqs.len(),
        forall|i: int| 0 <= i < reqs.len() ==> is_power_of_two(#[trigger] reqs[i].alignment),
    ensures
        0 <= plane_offset(reqs, k),
    decreases k,
{
    if k > 0 {
        lemma_offset_nonnegative(reqs, k - 1);
        lemma_max_alignment(reqs, k + 1);
        lemma_round_up(
            plane_offset(reqs, k - 1) + reqs[k - 1].size,
            max_alignment(reqs, k + 1),
        );
    }
}

proof fn lemma_plane_aligned(reqs: Seq<MemoryRequirements>, k: int)
    requires
        requirements_in_range(reqs),
        0 <= k < reqs.len(),
    ensures
        plane_offset(reqs, k) % (reqs[k].alignment as int) == 0,
{
    assert(is_power_of_two(reqs[k].alignment));
    lemma_power_of_two_divides(reqs[k].alignment, reqs[k].alignment);
    if k > 0 {
        lemma_max_alignment(reqs, k + 1);
        let m = max_alignment(reqs, k + 1);
        let a = reqs[k].alignment as int;
        let off = plane_offset(reqs, k);
        lemma_power_of_two_divides(reqs[k].alignment, m as u64);
        lemma_round_up(plane_offset(reqs, k - 1) + reqs[k - 1].size, m);
        vstd::arithmetic::div_mod::lemma_fundamental_div_mod(off, m);
        vstd::arithmetic::div_mod::lemma_fundamental_div_mod(m, a);
        let q = off / m;
        let p = m / a;
        assert(off == (q * p) * a) by (nonlinear_arith)
            requires
                off == m * q,
                m == a * p,
        ;
        vstd::arithmetic::div_mod::lemma_mod_multiples_basic(q * p, a);
    } else {
        vstd::arithmetic::div_mod::lemma_small_mod(0, reqs[k].alignment as nat);
    }
}

proof fn lemma_planes_ordered(reqs: Seq<MemoryRequirements>, i: int, j: int)
    requires
        requirements_in_range(reqs),
        0 <= i < j < reqs.len(),
    ensures
        plane_offset(reqs, i) + reqs[i].size <= plane_offset(reqs, j),
    decreases j - i,
{
    lemma_max_alignment(reqs, j + 1);
    lemma_round_up(plane_offset(reqs, j - 1) + reqs[j - 1].size, max_alignment(reqs, j + 1));
    if i < j - 1 {
        lemma_planes_ordered(reqs, i, j - 1);
    }
}

/// Is `x` a power of two?
fn power_of_two(x: u64) -> (r: bool)
    ensures
        r == is_power_of_two(x),
{
    let mut k: u64 = 0;
    while k < 64
        invariant
            k <= 64,
            forall|i: nat| i < k ==> #[trigger] vstd::arithmetic::power2::pow2(i) != x,
        decreases 64 - k,
    {
        proof {
            vstd::bits::lemma_u64_pow2_no_overflow(k as nat);
            vstd::bits::lemma_u64_shl_is_mul(1, k);
        }
        if 1u64 << k == x {
            assert(vstd::arithmetic::power2::pow2(k as nat) == x);
            return true;
        }
        k = k + 1;
    }
    false
}

/// Can `plan_memory` place these images? Drivers report powers of two and sizes far below the
/// 64-bit range; a caller that has the numbers from a driver asks before planning.
pub fn requirements_fit(reqs: &[MemoryRequirements]) -> (r: bool)
    ensures
        r == requirements_in_range(reqs@),
{
    let n: usize = reqs.len();
    if n == 0 {
        return false;
    }
    let mut i: usize = 0;
    while i < n
        invariant
            n == reqs@.len(),
            i <= n,
            forall|k: int| 0 <= k < i ==> is_power_of_two(#[trigger] reqs@[k].alignment),
        decreases n - i,
    {
        if !power_of_two(reqs[i].alignment) {
            assert(!is_power_of_two(reqs@[i as int].alignment));
            return false;
        }
        i = i + 1;
    }
    let mut k: usize = 1;
    let mut offset: u64 = 0;
    let mut align: u64 = reqs[0].alignment;
    proof {
        reveal_with_fuel(max_alignment, 2);
        lemma_max_alignment(reqs@, 1);
    }
    while k < n
        invariant
            n == reqs@.len(),
            1 <= k <= n,
            forall|j: int| 0 <= j < n ==> is_power_of_two(#[trigger] reqs@[j].alignment),
            forall|j: int| 1 <= j < k ==> #[trigger] next_offset_in_range(reqs@, j),
            offset == plane_offset(reqs@, k - 1),
            align == max_alignment(reqs@, k as int),
        decreases n - k,
    {
        proof {
            lemma_max_alignment(reqs@, k + 1);
        }
        if reqs[k].alignment > align {
            align = reqs[k].alignment;
        }
        let end: u64 = match offset.checked_add(reqs[k - 1].size) {
            Some(end) => end,
            None => {
                assert(!next_offset_in_range(reqs@, k as int));
                return false;
            },
        };
        if end > u64::MAX - (align - 1) {
            assert(!next_offset_in_range(reqs@, k as int));
            return false;
        }
        assert(next_offset_in_range(reqs@, k as int));
        offset = align_up(end, align);
        k = k + 1;
    }
    offset <= u64::MAX - reqs[n - 1].size
}

/// The memory types that may back all of the images together.
pub fn combined_types(reqs: &[MemoryRequirements]) -> (r: u32)
    requires
        reqs@.len() > 0,
    ensures
        r == combined_type_bits(reqs@, reqs@.len() as int),
{
    let mut bits: u32 = reqs[0].type_bits;
    let mut k: usize = 1;
    while k < reqs.len()
        invariant
            1 <= k <= reqs@.len(),
            bits == combined_type_bits(reqs@, k as int),
        decreases reqs@.len() - k,
    {
        bits = bits & reqs[k].type_bits;
        k = k + 1;
    }
    bits
}

/// Place the images in one allocation of memory type `type_index`.
pub fn plan_memory(reqs: &[MemoryRequirements], type_index: u32) -> (plan: MemoryPlan)
    requires
        requirements_in_range(reqs@),
    ensures
        plan.offsets@.len() == reqs@.len(),
        forall|k: int|
            0 <= k < reqs@.len() ==> #[trigger] plan.offsets@[k] == plane_offset(reqs@, k),
        plan.total_size == total_size(reqs@),
        plan.type_index == type_index,
{
    let n: usize = reqs.len();
    let mut offsets: Vec<u64> = Vec::new();
    offsets.push(0);
    let mut k: usize = 1;
    let mut offset: u64 = 0;
    let mut align: u64 = reqs[0].alignment;
    proof {
        reveal_with_fuel(max_alignment, 2);
        lemma_max_alignment(reqs@, 1);
    }
    while k < n
        invariant
            n == reqs@.len(),
            1 <= k <= n,
            requirements_in_range(reqs@),
            offset == plane_offset(reqs@, k - 1),
            align == max_alignment(reqs@, k as int),
            offsets@.len() == k,
            forall|j: int| 0 <= j < k ==> #[trigger] offsets@[j] == plane_offset(reqs@, j),
        decreases n - k,
    {
        proof {
            lemma_max_alignment(reqs@, k + 1);
            assert(next_offset_in_range(reqs@, k as int));
        }
        if reqs[k].alignment > align {
            align = reqs[k].alignment;
        }
        offset = align_up(offset + reqs[k - 1].size, align);
        offsets.push(offset);
        k = k + 1;
    }
    MemoryPlan { offsets, total_size: offset + reqs[n - 1].size, type_index }
}

/// A memory type may back all images together exactly if it may back each of them.
pub proof fn shared_memory_suits_every_image(reqs: Seq<MemoryRequirements>, k: int, bit: u32)
    requires
        1 <= k <= reqs.len(),
        bit < 32,
    ensures
        combined_type_bits(reqs, k) & (1u32 << bit) != 0 <==> forall|i: int|
            0 <= i < k ==> (#[trigger] reqs[i]).type_bits & (1u32 << bit) != 0,
    decreases k,
{
    if k > 1 {
        shared_memory_suits_every_image(reqs, k - 1, bit);
        let a = combined_type_bits(reqs, k - 1);
        let b = reqs[k - 1].type_bits;
        assert((a & b) & (1u32 << bit) != 0 <==> a & (1u32 << bit) != 0 && b & (1u32 << bit) != 0)
            by (bit_vector)
            requires
                bit < 32,
        ;
    }
}

/// The memory type of an export is one that the images allow. It is local to the GPU if any
/// allowed one is, and then the first such; else it is the first allowed. There is none only if
/// no type of the device is allowed.
pub proof fn the_first_local_memory_is_taken(
    types: Seq<u32>,
    type_bits: u32,
    r: Option<u32>,
    i: int,
)
    requires
        export_memory_type(types, type_bits, r),
        0 <= i < types.len(),
        type_bits & (1u32 << (i as u32)) != 0,
    ensures
        r is Some,
        (r->0) < types.len() && type_bits & (1u32 << r->0) != 0,
        types[i] & 1 == 1 ==> types[r->0 as int] & 1 == 1 && r->0 <= i,
        types[r->0 as int] & 1 != 1 ==> r->0 <= i,
{
    let flags = types[i];
    assert(flags & 0 == 0) by (bit_vector);
    assert(memory_type_fits(types, type_bits, MEMORY_PROPERTY_NONE, i));
    assert(types[i] & 1 == 1 ==> memory_type_fits(
        types,
        type_bits,
        MEMORY_PROPERTY_DEVICE_LOCAL,
        i,
    ));
    if let Some(k) = r {
        assert(memory_type_fits(types, type_bits, MEMORY_PROPERTY_DEVICE_LOCAL, k as int)
            || memory_type_fits(types, type_bits, MEMORY_PROPERTY_NONE, k as int));
    }
}

/// No memory is wasted: the first image starts at the beginning, each further one less than the
/// strictest alignment so far behind the one before it, and the allocation ends with the last.
pub proof fn images_lie_close_together(reqs: Seq<MemoryRequirements>, k: int)
    requires
        requirements_in_range(reqs),
        1 <= k < reqs.len(),
    ensures
        plane_offset(reqs, 0) == 0,
        exists|i: int|
            0 <= i <= k && plane_offset(reqs, k) < plane_offset(reqs, k - 1) + reqs[k - 1].size
                + #[trigger] reqs[i].alignment,
        total_size(reqs) == plane_offset(reqs, reqs.len() - 1) + reqs[reqs.len() - 1].size,
{
    lemma_max_alignment(reqs, k + 1);
    lemma_round_up(plane_offset(reqs, k - 1) + reqs[k - 1].size, max_alignment(reqs, k + 1));
    let i = choose|i: int| 0 <= i < k + 1 && max_alignment(reqs, k + 1)
        == #[trigger] reqs[i].alignment;
    assert(reqs[i].alignment == max_alignment(reqs, k + 1));
}

/// A padded extent is the least multiple that is not below the value, and half of a number is
/// the least whole number of which twice is not below it.
pub proof fn padding_and_halving_are_least(value: int, multiple: int, other: int)
    requires
        multiple > 0,
        value >= 0,
    ensures
        round_up(value, multiple) % multiple == 0,
        value <= round_up(value, multiple),
        other % multiple == 0 && value <= other ==> round_up(value, multiple) <= other,
        value <= 2 * div_up(value, 2) <= value + 1,
{
    lemma_round_up(value, multiple);
    if other % multiple == 0 && value <= other && other < round_up(value, multiple) {
        lemma_round_up_unique(value, multiple, other);
    }
}

} // verus!

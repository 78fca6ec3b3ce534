use vstd::prelude::*;

verus! {

/// The Vulkan queue capability bit for graphics work.
pub const QUEUE_GRAPHICS_BIT: u32 = 1;

/// Whether memory type `i` is allowed by `type_filter` and has every property in `required`.
pub open spec fn memory_type_suitable(flags: Seq<u32>, type_filter: u32, required: u32, i: int) -> bool {
    &&& 0 <= i < flags.len()
    &&& type_filter & (1u32 << (i as u32)) != 0
    &&& flags[i] & required == required
}

/// Picks the first memory type that `type_filter` allows and whose property
/// flags (`memory_type_flags[i]` for type `i`) contain all of `required`.
pub fn find_memory_type(memory_type_flags: &[u32], type_filter: u32, required: u32) -> (res: Option<u32>)
    requires
        memory_type_flags@.len() <= 32,
    ensures
        match res {
            Some(i) => {
                &&& memory_type_suitable(memory_type_flags@, type_filter, required, i as int)
                &&& forall|j: int|
                    0 <= j < i ==> !#[trigger] memory_type_suitable(
                        memory_type_flags@,
                        type_filter,
                        required,
                        j,
                    )
            },
            None => forall|j: int|
                0 <= j < memory_type_flags@.len() ==> !#[trigger] memory_type_suitable(
                    memory_type_flags@,
                    type_filter,
                    required,
                    j,
                ),
        },
        res matches Some(i) ==> {
            &&& i < memory_type_flags@.len()
            &&& type_filter & (1u32 << i) != 0
            &&& memory_type_flags@[i as int] & required == required
        },
        res matches Some(i) ==> forall|j: int|
            0 <= j < i ==> !(type_filter & (1u32 << (j as u32)) != 0 && #[trigger] memory_type_flags@[j]
                & required == required),
        res is None ==> forall|j: int|
            0 <= j < memory_type_flags@.len() ==> !(type_filter & (1u32 << (j as u32)) != 0
                && #[trigger] memory_type_flags@[j] & required == required),
{
    let count = memory_type_flags.len();
    let mut i: usize = 0;
    while i < count
        invariant
            count == memory_type_flags@.len(),
            count <= 32,
            i <= count,
            forall|j: int|
                0 <= j < i ==> !#[trigger] memory_type_suitable(
                    memory_type_flags@,
                    type_filter,
                    required,
                    j,
                ),
            forall|j: int|
                0 <= j < i ==> !(type_filter & (1u32 << (j as u32)) != 0 && #[trigger] memory_type_flags@[j]
                    & required == required),
        decreases count - i,
    {
        let bit: u32 = 1u32 << (i as u32);
        if type_filter & bit != 0 && memory_type_flags[i] & required == required {
            return Some(i as u32);
        }
        i += 1;
    }
    None
}

/// A memory type is suitable exactly when it is in range, the filter allows
/// it, and no required property is missing from its flags.
pub proof fn lemma_suitable_means_no_required_bit_missing(
    flags: Seq<u32>,
    type_filter: u32,
    required: u32,
    i: int,
)
    ensures
        memory_type_suitable(flags, type_filter, required, i) <==> (0 <= i < flags.len()
            && type_filter & (1u32 << (i as u32)) != 0 && required & !flags[i] == 0),
{
    if 0 <= i < flags.len() {
        let f = flags[i];
        assert(f & required == required <==> required & !f == 0) by (bit_vector);
    }
}

/// A suitable memory type has every single required property bit.
pub proof fn lemma_suitable_has_each_required_bit(
    flags: Seq<u32>,
    type_filter: u32,
    required: u32,
    i: int,
    k: u32,
)
    requires
        memory_type_suitable(flags, type_filter, required, i),
        k < 32,
        required & (1u32 << k) != 0,
    ensures
        flags[i] & (1u32 << k) != 0,
{
    let f = flags[i];
    assert(f & required == required && required & (1u32 << k) != 0 ==> f & (1u32 << k) != 0)
        by (bit_vector);
}

/// With no required properties, every type the filter allows is suitable.
pub proof fn lemma_no_requirement_any_allowed_type(flags: Seq<u32>, type_filter: u32, i: int)
    requires
        0 <= i < flags.len(),
    ensures
        memory_type_suitable(flags, type_filter, 0, i) <==> type_filter & (1u32 << (i as u32)) != 0,
{
    let f = flags[i];
    assert(f & 0u32 == 0u32) by (bit_vector);
}

/// The little-endian 32-bit word that starts at byte `i`.
pub open spec fn le_word(bytes: Seq<u8>, i: int) -> int {
    bytes[i] + 256 * bytes[i + 1] + 65536 * bytes[i + 2] + 16777216 * bytes[i + 3]
}

/// A word holds its four bytes, least significant first, and fits in 32 bits.
pub proof fn lemma_le_word_bytes(bytes: Seq<u8>, i: int)
    requires
        0 <= i,
        i + 3 < bytes.len(),
    ensures
        0 <= le_word(bytes, i) < 0x1_0000_0000,
        le_word(bytes, i) % 256 == bytes[i],
        (le_word(bytes, i) / 256) % 256 == bytes[i + 1],
        (le_word(bytes, i) / 256 / 256) % 256 == bytes[i + 2],
        le_word(bytes, i) / 256 / 256 / 256 == bytes[i + 3],
{
    let b0 = bytes[i] as int;
    let b1 = bytes[i + 1] as int;
    let b2 = bytes[i + 2] as int;
    let b3 = bytes[i + 3] as int;
    let x = le_word(bytes, i);
    let z = b2 + 256 * b3;
    let y = b1 + 256 * z;
    assert(x == y * 256 + b0);
    vstd::arithmetic::div_mod::lemma_fundamental_div_mod_converse(x, 256, y, b0);
    vstd::arithmetic::div_mod::lemma_fundamental_div_mod_converse(y, 256, z, b1);
    vstd::arithmetic::div_mod::lemma_fundamental_div_mod_converse(z, 256, b3, b2);
}

/// Splits SPIR-V byte code into its 32-bit words (little endian); `None` when
/// the length is not a multiple of four.
pub fn spirv_words(spirv: &[u8]) -> (res: Option<Vec<u32>>)
    ensures
        match res {
            Some(words) => {
                &&& spirv@.len() % 4 == 0
                &&& words@.len() == spirv@.len() / 4
                &&& forall|k: int| 0 <= k < words@.len() ==> #[trigger] words@[k] == le_word(spirv@, 4 * k)
            },
            None => spirv@.len() % 4 != 0,
        },
{
    let len = spirv.len();
    if len % 4 != 0 {
        return None;
    }
    let n = len / 4;
    let mut words: Vec<u32> = Vec::new();
    let mut k: usize = 0;
    while k < n
        invariant
            len == spirv@.len(),
            n == len / 4,
            len % 4 == 0,
            k <= n,
            words@.len() == k,
            forall|j: int| 0 <= j < k ==> #[trigger] words@[j] == le_word(spirv@, 4 * j),
        decreases n - k,
    {
        let b = 4 * k;
        let word: u32 = spirv[b] as u32 + 256 * (spirv[b + 1] as u32) + 65536 * (spirv[b + 2] as u32)
            + 16777216 * (spirv[b + 3] as u32);
        words.push(word);
        k += 1;
    }
    Some(words)
}

/// Whether a queue family with capability flags `flags` supports graphics.
pub open spec fn supports_graphics(flags: u32) -> bool {
    flags & QUEUE_GRAPHICS_BIT == QUEUE_GRAPHICS_BIT
}

/// A queue family supports graphics exactly when its graphics bit is set.
pub proof fn lemma_supports_graphics_means_bit_set(flags: u32)
    ensures
        supports_graphics(flags) <==> flags & 1u32 != 0,
{
    assert(flags & 1u32 == 1u32 <==> flags & 1u32 != 0) by (bit_vector);
}

/// The first queue family (by index) that supports graphics work.
pub fn graphics_queue_family(queue_flags: &[u32]) -> (res: Option<u32>)
    requires
        queue_flags@.len() <= u32::MAX,
    ensures
        match res {
            Some(i) => {
                &&& i < queue_flags@.len()
                &&& supports_graphics(queue_flags@[i as int])
                &&& forall|j: int| 0 <= j < i ==> !supports_graphics(#[trigger] queue_flags@[j])
            },
            None => forall|j: int|
                0 <= j < queue_flags@.len() ==> !supports_graphics(#[trigger] queue_flags@[j]),
        },
        res matches Some(i) ==> i < queue_flags@.len() && queue_flags@[i as int] & 1u32 != 0,
        res matches Some(i) ==> forall|j: int| 0 <= j < i ==> #[trigger] queue_flags@[j] & 1u32 == 0,
        res is None ==> forall|j: int| 0 <= j < queue_flags@.len() ==> #[trigger] queue_flags@[j] & 1u32 == 0,
{
    let n = queue_flags.len();
    let mut i: usize = 0;
    while i < n
        invariant
            n == queue_flags@.len(),
            n <= u32::MAX,
            i <= n,
            forall|j: int| 0 <= j < i ==> !supports_graphics(#[trigger] queue_flags@[j]),
            forall|j: int| 0 <= j < i ==> #[trigger] queue_flags@[j] & 1u32 == 0,
        decreases n - i,
    {
        let x = queue_flags[i];
        if x & QUEUE_GRAPHICS_BIT == QUEUE_GRAPHICS_BIT {
            return Some(i as u32);
        }
        assert(x & 1u32 != 1u32 ==> x & 1u32 == 0) by (bit_vector);
        i += 1;
    }
    None
}

/// The first format of `preferred` that occurs in `supported`.
pub fn choose_swapchain_format(preferred: &[u32], supported: &[u32]) -> (res: Option<u32>)
    ensures
        match res {
            Some(f) => exists|i: int|
                0 <= i < preferred@.len() && preferred@[i] == f && supported@.contains(f)
                    && forall|j: int| 0 <= j < i ==> !supported@.contains(#[trigger] preferred@[j]),
            None => forall|j: int|
                0 <= j < preferred@.len() ==> !supported@.contains(#[trigger] preferred@[j]),
        },
{
    let n = preferred.len();
    let mut i: usize = 0;
    while i < n
        invariant
            n == preferred@.len(),
            i <= n,
            forall|j: int| 0 <= j < i ==> !supported@.contains(#[trigger] preferred@[j]),
        decreases n - i,
    {
        let f = preferred[i];
        let m = supported.len();
        let mut k: usize = 0;
        while k < m
            invariant
                m == supported@.len(),
                k <= m,
                n == preferred@.len(),
                i < n,
                f == preferred@[i as int],
                forall|j: int| 0 <= j < i ==> !supported@.contains(#[trigger] preferred@[j]),
                forall|j: int| 0 <= j < k ==> supported@[j] != f,
            decreases m - k,
        {
            if supported[k] == f {
                assert(supported@.contains(f)) by {
                    assert(supported@[k as int] == f);
                }
                assert(0 <= i < preferred@.len() && preferred@[i as int] == f && supported@.contains(f)
                    && forall|j: int| 0 <= j < i ==> !supported@.contains(#[trigger] preferred@[j]));
                return Some(f);
            }
            k += 1;
        }
        i += 1;
    }
    None
}

} // verus!

//! Constants and plain-value rules of the plugin descriptor ABI.
use vstd::prelude::*;
use vstd::string::StringSliceAdditionalSpecFns;

verus! {

/// Magic bytes identifying a fidius plugin registry.
pub const FIDIUS_MAGIC: [u8; 8] = [70, 73, 68, 73, 85, 83, 0, 0];

/// Current version of the plugin-registry layout.
pub const REGISTRY_VERSION: u32 = 1;

/// Current descriptor layout version, `major * 10000 + minor * 100` of this
/// crate's version while the major version is 0 (see [`abi_version_for`]).
pub const ABI_VERSION: u32 = 100;

/// Buffer management strategy for an interface.
#[derive(Debug, Clone, Copy, PartialEq, Eq)]
pub enum BufferStrategyKind {
    /// Plugin allocates output; host frees it through the descriptor.
    PluginAllocated,
    /// Host provides a reusable arena buffer the plugin writes into.
    Arena,
}

impl BufferStrategyKind {
    /// The discriminant stored in a descriptor (`1` or `2`; `0` is reserved).
    pub open spec fn spec_discriminant(self) -> u8 {
        match self {
            BufferStrategyKind::PluginAllocated => 1,
            BufferStrategyKind::Arena => 2,
        }
    }

    /// The discriminant stored in a descriptor.
    pub fn discriminant(&self) -> (d: u8)
        ensures
            d == self.spec_discriminant(),
    {
        match self {
            BufferStrategyKind::PluginAllocated => 1,
            BufferStrategyKind::Arena => 2,
        }
    }

    /// The strategy's name, as displayed.
    pub fn name(&self) -> (s: &'static str)
        ensures
            s@ == match self {
                BufferStrategyKind::PluginAllocated => "PluginAllocated"@,
                BufferStrategyKind::Arena => "Arena"@,
            },
    {
        match self {
            BufferStrategyKind::PluginAllocated => "PluginAllocated",
            BufferStrategyKind::Arena => "Arena",
        }
    }
}

/// Reads a descriptor's `buffer_strategy` byte; an unknown discriminant is
/// returned as the error so callers can reject a malformed plugin.
pub fn buffer_strategy_kind(raw: u8) -> (r: Result<BufferStrategyKind, u8>)
    ensures
        raw == 1 ==> r == Ok::<BufferStrategyKind, u8>(BufferStrategyKind::PluginAllocated),
        raw == 2 ==> r == Ok::<BufferStrategyKind, u8>(BufferStrategyKind::Arena),
        raw != 1 && raw != 2 ==> r == Err::<BufferStrategyKind, u8>(raw),
{
    if raw == 1 {
        Ok(BufferStrategyKind::PluginAllocated)
    } else if raw == 2 {
        Ok(BufferStrategyKind::Arena)
    } else {
        Err(raw)
    }
}

/// Reading back a stored discriminant gives the strategy again.
pub proof fn lemma_buffer_strategy_roundtrip(k: BufferStrategyKind)
    ensures
        k.spec_discriminant() == 1 || k.spec_discriminant() == 2,
        k.spec_discriminant() == 1 <==> k == BufferStrategyKind::PluginAllocated,
{
}

/// Whether optional-method bit `bit` is set in a capability mask; `false` for
/// bits at or beyond 64.
pub open spec fn capability_bit_set(capabilities: u64, bit: u32) -> bool {
    bit < 64 && (capabilities >> bit) % 2 == 1
}

/// Checks whether optional-method bit `bit` is set in `capabilities`.
pub fn has_capability(capabilities: u64, bit: u32) -> (set: bool)
    ensures
        set == capability_bit_set(capabilities, bit),
{
    if bit >= 64 {
        return false;
    }
    assert((capabilities & (1u64 << bit) != 0) == ((capabilities >> bit) % 2 == 1)) by (bit_vector)
        requires
            bit < 64,
    ;
    capabilities & (1u64 << bit) != 0
}

/// The value of ASCII decimal digits, most significant first (a byte below
/// `'0'` has no value here; bytes above `'9'` count as `byte - '0'`).
pub open spec fn decimal_value(bytes: Seq<u8>) -> int
    decreases bytes.len(),
{
    if bytes.len() == 0 {
        0
    } else {
        decimal_value(bytes.drop_last()) * 10 + (bytes.last() - 48)
    }
}

/// Every byte is at least `'0'`.
pub open spec fn all_at_least_zero_digit(bytes: Seq<u8>) -> bool {
    forall|i: int| 0 <= i < bytes.len() ==> bytes[i] >= 48
}

proof fn lemma_decimal_value_prefix(bytes: Seq<u8>, i: int)
    requires
        all_at_least_zero_digit(bytes),
        0 <= i <= bytes.len(),
    ensures
        0 <= decimal_value(bytes.take(i)) <= decimal_value(bytes),
    decreases bytes.len() - i,
{
    if i < bytes.len() {
        lemma_decimal_value_prefix(bytes, i + 1);
        assert(bytes.take(i + 1).drop_last() =~= bytes.take(i));
        assert(all_at_least_zero_digit(bytes.take(i + 1)));
        assert(all_at_least_zero_digit(bytes.take(i)));
        lemma_decimal_value_nonneg(bytes.take(i));
        assert(bytes.take(i + 1).last() == bytes[i]);
        assert(decimal_value(bytes.take(i + 1)) == decimal_value(bytes.take(i)) * 10 + (bytes[i]
            - 48));
    } else {
        assert(bytes.take(i) =~= bytes);
        lemma_decimal_value_nonneg(bytes);
    }
}

proof fn lemma_decimal_value_nonneg(bytes: Seq<u8>)
    requires
        all_at_least_zero_digit(bytes),
    ensures
        decimal_value(bytes) >= 0,
    decreases bytes.len(),
{
    if bytes.len() > 0 {
        assert(all_at_least_zero_digit(bytes.drop_last()));
        lemma_decimal_value_nonneg(bytes.drop_last());
    }
}

/// Parses an unsigned decimal string (such as a crate's major version).
pub fn parse_u32_const(s: &str) -> (n: u32)
    requires
        all_at_least_zero_digit(s.spec_bytes()),
        decimal_value(s.spec_bytes()) <= u32::MAX,
    ensures
        n == decimal_value(s.spec_bytes()),
{
    let bytes = s.as_bytes();
    let mut i: usize = 0;
    let mut n: u32 = 0;
    while i < bytes.len()
        invariant
            bytes@ == s.spec_bytes(),
            all_at_least_zero_digit(bytes@),
            decimal_value(bytes@) <= u32::MAX,
            i <= bytes@.len(),
            n == decimal_value(bytes@.take(i as int)),
        decreases bytes@.len() - i,
    {
        proof {
            lemma_decimal_value_prefix(bytes@, i as int + 1);
            assert(bytes@.take(i as int + 1).drop_last() =~= bytes@.take(i as int));
            lemma_decimal_value_prefix(bytes@, i as int);
        }
        n = n * 10 + (bytes[i] - 48u8) as u32;
        i += 1;
    }
    assert(bytes@.take(i as int) =~= bytes@);
    n
}

/// The descriptor ABI version for a crate version: `major * 10000 + minor * 100`
/// before 1.0, `major * 10000` after.
pub fn abi_version_for(major: u32, minor: u32) -> (v: u32)
    requires
        major * 10000 + minor * 100 <= u32::MAX,
    ensures
        v == if major == 0 {
            major * 10000 + minor * 100
        } else {
            major * 10000
        },
{
    if major == 0 {
        major * 10000 + minor * 100
    } else {
        major * 10000
    }
}

} // verus!

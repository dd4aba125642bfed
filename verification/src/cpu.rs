//! Which instruction sets the processor can use well.

use crate::text::{opt_text, same};
use raw_cpuid::CpuId;
use vstd::prelude::*;

verus! {

/// The instruction sets that were detected.
#[derive(Clone, Copy, Debug, PartialEq, Eq)]
pub struct CpuFeatures {
    pub avx512f: bool,
    pub bmi2: bool,
    pub avx2: bool,
    pub sse41: bool,
    pub popcnt: bool,
}

/// The family of an AMD processor: the extended family counts only where the base family is at
/// its greatest value.
pub open spec fn amd_family(base: u8, extended: u8) -> int {
    if base < 0xf {
        base as int
    } else {
        base + extended
    }
}

/// The processor is from AMD and older than Zen 3, the first family of which is 0x19. Those
/// before emulate the `pdep` and `pext` instructions of bmi2, which makes them slow. A processor
/// from AMD of an unknown family counts as slow.
pub open spec fn slow_bmi2(vendor: Option<Seq<char>>, family: Option<(u8, u8)>) -> bool {
    &&& vendor == Some("AuthenticAMD"@)
    &&& match family {
        Some((base, extended)) => amd_family(base, extended) < 0x19,
        None => true,
    }
}

/// Tells whether a processor has slow bmi2 instructions, by its vendor and its base and extended
/// family.
pub fn has_slow_bmi2(vendor: Option<&str>, family: Option<(u8, u8)>) -> (r: bool)
    ensures
        r == slow_bmi2(
            match vendor {
                Some(v) => Some(v@),
                None => None,
            },
            family,
        ),
        r <==> vendor is Some && vendor->0@ == "AuthenticAMD"@ && (match family {
            Some((base, extended)) => base < 0xf || base + extended < 0x19,
            None => true,
        }),
{
    let is_amd: bool = match vendor {
        Some(v) => same(v, "AuthenticAMD"),
        None => false,
    };
    if !is_amd {
        return false;
    }
    match family {
        Some((base, extended)) => if base < 0xf {
            true
        } else {
            (base as u16) + (extended as u16) < 0x19
        },
        None => true,
    }
}

/// `CpuId::get_vendor_info` and `VendorInfo::as_str`: the vendor that the processor names. It is
/// a fact of the machine, so nothing is claimed of it.
#[verifier::external_body]
fn vendor_of_this_cpu() -> (r: Option<String>) {
    match CpuId::new().get_vendor_info() {
        Some(info) => Some(info.as_str().to_string()),
        None => None,
    }
}

/// `CpuId::get_feature_info`, with `FeatureInfo::base_family_id` and
/// `FeatureInfo::extended_family_id`: the base and the extended family that the processor names.
/// They are facts of the machine; all that is claimed is that the base family, a field of four
/// bits, is at most 0xf.
#[verifier::external_body]
fn family_of_this_cpu() -> (r: Option<(u8, u8)>)
    ensures
        r matches Some((base, _)) ==> base <= 0xf,
{
    match CpuId::new().get_feature_info() {
        Some(info) => Some((info.base_family_id(), info.extended_family_id())),
        None => None,
    }
}

/// Reading the vendor of this machine's processor can give `vendor`.
pub closed spec fn vendor_read(vendor: Option<String>) -> bool {
    call_ensures(vendor_of_this_cpu, (), vendor)
}

/// Reading the base and extended family of this machine's processor can give `family`.
pub closed spec fn family_read(family: Option<(u8, u8)>) -> bool {
    call_ensures(family_of_this_cpu, (), family)
}

/// A vendor and a family that can be read on this machine make bmi2 slow, or do not, as `slow`
/// says.
pub open spec fn slow_bmi2_read(slow: bool) -> bool {
    exists|vendor: Option<String>, family: Option<(u8, u8)>| #[trigger]
        vendor_read(vendor) && #[trigger] family_read(family) && slow == slow_bmi2(
            opt_text(vendor),
            family,
        )
}

/// Tells whether this machine has an AMD processor with slow bmi2 instructions: the answer is
/// that of `has_slow_bmi2` for the vendor and the family that were read.
///
/// What the processor says of itself is a fact of the machine, so which answer comes is not
/// stated.
pub fn is_amd_slow_bmi2() -> (r: bool)
    ensures
        slow_bmi2_read(r),
{
    let vendor: Option<String> = vendor_of_this_cpu();
    let family: Option<(u8, u8)> = family_of_this_cpu();
    assert(vendor_read(vendor) && family_read(family));
    match &vendor {
        Some(v) => has_slow_bmi2(Some(v.as_str()), family),
        None => has_slow_bmi2(None, family),
    }
}

/// The best tier of instruction sets that a processor can use well.
pub open spec fn tier(f: CpuFeatures, slow_bmi2: bool) -> Seq<char> {
    if f.avx512f {
        "avx512"@
    } else if f.bmi2 && !slow_bmi2 {
        "bmi2"@
    } else if f.avx2 {
        "avx2"@
    } else if f.sse41 && f.popcnt {
        "sse41-popcnt"@
    } else {
        "generic"@
    }
}

/// Picks the tier of a processor with given instruction sets.
pub fn tier_of(f: CpuFeatures, slow_bmi2: bool) -> (r: &'static str)
    ensures
        r@ == tier(f, slow_bmi2),
        f.avx512f ==> r@ == "avx512"@,
        !f.avx512f && f.bmi2 && !slow_bmi2 ==> r@ == "bmi2"@,
        !f.avx512f && !(f.bmi2 && !slow_bmi2) && f.avx2 ==> r@ == "avx2"@,
        !f.avx512f && !(f.bmi2 && !slow_bmi2) && !f.avx2 && f.sse41 && f.popcnt ==> r@
            == "sse41-popcnt"@,
        !f.avx512f && !(f.bmi2 && !slow_bmi2) && !f.avx2 && !(f.sse41 && f.popcnt) ==> r@
            == "generic"@,
{
    if f.avx512f {
        "avx512"
    } else if f.bmi2 && !slow_bmi2 {
        "bmi2"
    } else if f.avx2 {
        "avx2"
    } else if f.sse41 && f.popcnt {
        "sse41-popcnt"
    } else {
        "generic"
    }
}

/// Picks the tier of this machine, given the instruction sets that were detected on it. Where
/// bmi2 was detected, it counts only if the processor, as it was read, is not slow at it.
///
/// Which of two tiers comes there depends on the machine; `tier_of` gives it for each answer.
pub fn cpu_tier(f: CpuFeatures) -> (r: &'static str)
    ensures
        f.bmi2 ==> exists|slow: bool| #[trigger] slow_bmi2_read(slow) && r@ == tier(f, slow),
        f.avx512f || !f.bmi2 ==> r@ == tier(f, true) && r@ == tier(f, false),
{
    let slow: bool = if f.bmi2 {
        is_amd_slow_bmi2()
    } else {
        false
    };
    tier_of(f, slow)
}

/// The place of a tier, from the worst to the best.
pub open spec fn rank(f: CpuFeatures, slow_bmi2: bool) -> int {
    let t = tier(f, slow_bmi2);
    if t == "avx512"@ {
        4
    } else if t == "bmi2"@ {
        3
    } else if t == "avx2"@ {
        2
    } else if t == "sse41-popcnt"@ {
        1
    } else {
        0
    }
}

/// The five tiers differ from one another.
proof fn lemma_tiers_differ()
    ensures
        "avx512"@ != "bmi2"@,
        "avx512"@ != "avx2"@,
        "avx512"@ != "sse41-popcnt"@,
        "avx512"@ != "generic"@,
        "bmi2"@ != "avx2"@,
        "bmi2"@ != "sse41-popcnt"@,
        "bmi2"@ != "generic"@,
        "avx2"@ != "sse41-popcnt"@,
        "avx2"@ != "generic"@,
        "sse41-popcnt"@ != "generic"@,
{
    reveal_strlit("avx512");
    reveal_strlit("bmi2");
    reveal_strlit("avx2");
    reveal_strlit("sse41-popcnt");
    reveal_strlit("generic");
    assert("avx512"@.len() == 6 && "sse41-popcnt"@.len() == 12 && "generic"@.len() == 7);
    assert("bmi2"@.len() == 4 && "avx2"@.len() == 4);
    assert("bmi2"@[0] != "avx2"@[0]);
}

/// A tier is only picked where the processor has its instruction sets and can use them well.
pub proof fn law_tier_is_usable(f: CpuFeatures, slow: bool)
    ensures
        tier(f, slow) == "avx512"@ ==> f.avx512f,
        tier(f, slow) == "bmi2"@ ==> f.bmi2 && !slow,
        tier(f, slow) == "avx2"@ ==> f.avx2,
        tier(f, slow) == "sse41-popcnt"@ ==> f.sse41 && f.popcnt,
{
    lemma_tiers_differ();
}

/// More instruction sets never make the tier worse, nor does a faster bmi2.
pub proof fn law_more_features_are_better(
    f: CpuFeatures,
    g: CpuFeatures,
    slow_f: bool,
    slow_g: bool,
)
    requires
        f.avx512f ==> g.avx512f,
        f.bmi2 ==> g.bmi2,
        f.avx2 ==> g.avx2,
        f.sse41 ==> g.sse41,
        f.popcnt ==> g.popcnt,
        slow_g ==> slow_f,
    ensures
        rank(f, slow_f) <= rank(g, slow_g),
{
    lemma_tiers_differ();
}

/// A processor of another vendor, or of family 0x19 and later, is never held to be slow; one
/// from AMD of family 0x17 always is.
pub proof fn law_slow_is_amd_before_zen3(vendor: Option<Seq<char>>, base: u8, extended: u8)
    ensures
        vendor != Some("AuthenticAMD"@) ==> !slow_bmi2(vendor, Some((base, extended)))
            && !slow_bmi2(vendor, None),
        amd_family(base, extended) >= 0x19 ==> !slow_bmi2(vendor, Some((base, extended))),
        vendor == Some("AuthenticAMD"@) && amd_family(base, extended) == 0x17 ==> slow_bmi2(
            vendor,
            Some((base, extended)),
        ),
{
}

/// The tier is the best one that the processor can use well: none is passed over that it could
/// use.
pub proof fn law_tier_is_the_best(f: CpuFeatures, slow: bool)
    ensures
        f.avx512f ==> tier(f, slow) == "avx512"@,
        f.bmi2 && !slow ==> tier(f, slow) == "avx512"@ || tier(f, slow) == "bmi2"@,
        f.avx2 ==> tier(f, slow) == "avx512"@ || tier(f, slow) == "bmi2"@ || tier(f, slow)
            == "avx2"@,
        f.sse41 && f.popcnt ==> tier(f, slow) != "generic"@,
        tier(f, slow) == "avx512"@ || tier(f, slow) == "bmi2"@ || tier(f, slow) == "avx2"@ || tier(
            f,
            slow,
        ) == "sse41-popcnt"@ || tier(f, slow) == "generic"@,
{
    lemma_tiers_differ();
}

/// A processor is held to be slow exactly if it is from AMD, and its family is not known, or has
/// a base below 0xf, or has a base and an extension that together are below 0x19.
pub proof fn law_slow_exactly(vendor: Option<Seq<char>>, family: Option<(u8, u8)>)
    ensures
        slow_bmi2(vendor, family) <==> vendor == Some("AuthenticAMD"@) && (match family {
            Some((base, extended)) => base < 0xf || base + extended < 0x19,
            None => true,
        }),
{
}

} // verus!

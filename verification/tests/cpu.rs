use ocdb_client::cpu::{cpu_tier, has_slow_bmi2, is_amd_slow_bmi2, tier_of, CpuFeatures};
use raw_cpuid::CpuId;

const NONE: CpuFeatures =
    CpuFeatures { avx512f: false, bmi2: false, avx2: false, sse41: false, popcnt: false };

const AMD: Option<&str> = Some("AuthenticAMD");

fn all_features() -> Vec<CpuFeatures> {
    (0..32u32)
        .map(|n| CpuFeatures {
            avx512f: n & 1 != 0,
            bmi2: n & 2 != 0,
            avx2: n & 4 != 0,
            sse41: n & 8 != 0,
            popcnt: n & 16 != 0,
        })
        .collect()
}

#[test]
fn amd_before_zen_3_is_slow() {
    // Excavator, Zen to Zen 2, Dhyana, Zen 3, Zen 5.
    assert!(has_slow_bmi2(AMD, Some((0xf, 0x06))));
    assert!(has_slow_bmi2(AMD, Some((0xf, 0x08))));
    assert!(has_slow_bmi2(AMD, Some((0xf, 0x09))));
    assert!(!has_slow_bmi2(AMD, Some((0xf, 0x0a))));
    assert!(!has_slow_bmi2(AMD, Some((0xf, 0x0b))));
}

#[test]
fn the_extended_family_counts_only_behind_the_greatest_base() {
    assert!(has_slow_bmi2(AMD, Some((0x6, 0xff))));
    assert!(has_slow_bmi2(AMD, Some((0xe, 0x20))));
    assert!(!has_slow_bmi2(AMD, Some((0xf, 0xff))));
}

#[test]
fn amd_of_an_unknown_family_is_slow() {
    assert!(has_slow_bmi2(AMD, None));
}

#[test]
fn no_other_vendor_is_slow() {
    assert!(!has_slow_bmi2(Some("GenuineIntel"), Some((0x6, 0))));
    assert!(!has_slow_bmi2(Some("GenuineIntel"), None));
    assert!(!has_slow_bmi2(None, None));
    assert!(!has_slow_bmi2(None, Some((0xf, 0x08))));
}

#[test]
fn the_best_tier_is_picked() {
    let all = CpuFeatures { avx512f: true, bmi2: true, avx2: true, sse41: true, popcnt: true };
    assert_eq!(tier_of(all, true), "avx512");
    let modern = CpuFeatures { avx512f: false, ..all };
    assert_eq!(tier_of(modern, false), "bmi2");
    assert_eq!(tier_of(modern, true), "avx2");
    let older = CpuFeatures { bmi2: false, avx2: false, ..modern };
    assert_eq!(tier_of(older, false), "sse41-popcnt");
    assert_eq!(tier_of(CpuFeatures { popcnt: false, ..older }, false), "generic");
    assert_eq!(tier_of(CpuFeatures { sse41: false, ..older }, false), "generic");
    assert_eq!(tier_of(NONE, false), "generic");
    assert_eq!(tier_of(CpuFeatures { bmi2: true, ..NONE }, true), "generic");
}

#[test]
fn more_features_never_make_the_tier_worse() {
    let order = ["generic", "sse41-popcnt", "avx2", "bmi2", "avx512"];
    let rank = |t: &str| order.iter().position(|o| *o == t).unwrap();
    for slow in [false, true] {
        for f in all_features() {
            for g in all_features() {
                let covers = (g.avx512f || !f.avx512f)
                    && (g.bmi2 || !f.bmi2)
                    && (g.avx2 || !f.avx2)
                    && (g.sse41 || !f.sse41)
                    && (g.popcnt || !f.popcnt);
                if covers {
                    assert!(rank(tier_of(f, slow)) <= rank(tier_of(g, slow)));
                }
            }
        }
    }
}

#[test]
fn this_machine_is_read() {
    let id = CpuId::new();
    let vendor = id.get_vendor_info().map(|v| v.as_str().to_string());
    let family = id.get_feature_info().map(|f| (f.base_family_id(), f.extended_family_id()));
    let slow = has_slow_bmi2(vendor.as_deref(), family);
    assert_eq!(is_amd_slow_bmi2(), slow);
    for f in all_features() {
        assert_eq!(cpu_tier(f), tier_of(f, slow));
    }
}

#[test]
fn the_tier_is_one_that_the_processor_can_use() {
    for slow in [false, true] {
        for f in all_features() {
            let usable = match tier_of(f, slow) {
                "avx512" => f.avx512f,
                "bmi2" => f.bmi2 && !slow,
                "avx2" => f.avx2,
                "sse41-popcnt" => f.sse41 && f.popcnt,
                other => other == "generic",
            };
            assert!(usable);
        }
    }
}

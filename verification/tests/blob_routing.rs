//! Where a blob goes: into its column or into the object store.

use wallet_infra::storage::upsert::{inline_blob_bind, needs_r2_fill};

const THRESHOLD: usize = 4096;

#[test]
fn at_or_below_threshold_folds_inline_never_r2() {
    for n in [0usize, 1, 25, THRESHOLD - 1, THRESHOLD] {
        let data = vec![0u8; n];
        assert!(inline_blob_bind(Some(&data)).is_some(), "<= {THRESHOLD} must fold inline (n={n})");
        assert!(!needs_r2_fill(Some(&data)), "<= {THRESHOLD} must NOT route to R2 (n={n})");
    }
}

#[test]
fn over_threshold_routes_to_r2_not_inline() {
    for n in [THRESHOLD + 1, THRESHOLD * 4] {
        let data = vec![0u8; n];
        assert!(inline_blob_bind(Some(&data)).is_none(), "> {THRESHOLD} must NOT fold inline (n={n})");
        assert!(needs_r2_fill(Some(&data)), "> {THRESHOLD} must route to R2 (n={n})");
    }
}

#[test]
fn present_blob_is_exactly_one_of_inline_or_r2() {
    // A present blob is folded inline XOR routed to R2 — never both (an inline
    // blob can't leak to R2) and never neither (a large blob can't be dropped).
    for n in [0usize, 25, 4096, 4097, 100_000] {
        let data = vec![0u8; n];
        let inline = inline_blob_bind(Some(&data)).is_some();
        let r2 = needs_r2_fill(Some(&data));
        assert!(inline ^ r2, "present blob must be inline XOR r2 (n={n}: inline={inline} r2={r2})");
    }
}

#[test]
fn missing_blob_is_neither() {
    assert!(inline_blob_bind(None).is_none());
    assert!(!needs_r2_fill(None));
}

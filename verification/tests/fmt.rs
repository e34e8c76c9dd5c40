use hexplorer::fmt::{date, dl_full, dl_short, truncate};

#[test]
fn dl_short_millions() {
    assert_eq!(dl_short(4_521_003), "4.5M");
}

#[test]
fn dl_short_thousands() {
    assert_eq!(dl_short(890_000), "890K");
}

#[test]
fn dl_short_small() {
    assert_eq!(dl_short(42), "42");
}

#[test]
fn dl_full_separators() {
    assert_eq!(dl_full(4_521_003), "4_521_003");
}

#[test]
fn dl_full_small() {
    assert_eq!(dl_full(42), "42");
}

#[test]
fn date_strips_time() {
    assert_eq!(date("2025-03-21T09:00:00Z"), "2025-03-21");
}

#[test]
fn date_passthrough() {
    assert_eq!(date("2025-03-21"), "2025-03-21");
}

// ── Further cases ────────────────────────────────────────────────────────────

#[test]
fn dl_short_rounds_half_to_even() {
    assert_eq!(dl_short(1_250_000), "1.2M");
    assert_eq!(dl_short(1_350_000), "1.4M");
    assert_eq!(dl_short(2_500), "2K");
    assert_eq!(dl_short(999_999), "1000K");
    assert_eq!(dl_short(1_000), "1K");
    assert_eq!(dl_short(999), "999");
}

#[test]
fn dl_short_rounds_the_double_it_prints() {
    // 1.05 and 1.15 are not doubles: the nearest ones lie above and below.
    assert_eq!(dl_short(1_050_000), "1.1M");
    assert_eq!(dl_short(1_150_000), "1.1M");
    assert_eq!(dl_short(u64::MAX), "18446744073709.6M");
}

#[test]
fn dl_full_boundaries() {
    assert_eq!(dl_full(0), "0");
    assert_eq!(dl_full(999), "999");
    assert_eq!(dl_full(1_000), "1_000");
    assert_eq!(dl_full(u64::MAX), "18_446_744_073_709_551_615");
}

#[test]
fn date_is_idempotent() {
    let once = date("2024-12-01T00:00:00Z");
    assert_eq!(date(once), once);
}

#[test]
fn truncate_cuts_with_ellipsis() {
    assert_eq!(truncate("hello", 10), "hello");
    assert_eq!(truncate("hello world", 6), "hello…");
    assert_eq!(truncate("abc", 0), "…");
}

#[test]
fn truncate_counts_characters() {
    assert_eq!(truncate("aé", 2), "aé");
    assert_eq!(truncate("éé", 2), "éé");
    assert_eq!(truncate("ééé", 2), "é…");
    assert_eq!(truncate("héllo wörld", 6), "héllo…");
}

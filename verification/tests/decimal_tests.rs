use boot_handoff::decimal::format_u64;
use boot_handoff::memory::MemoryInventory;
use boot_handoff::report::total_line;

fn rendered(n: u64) -> String {
    format_u64(n).into_iter().collect()
}

#[test]
fn zero_renders_as_a_single_digit() {
    assert_eq!(rendered(0), "0");
}

#[test]
fn small_numbers_render_exactly() {
    assert_eq!(rendered(1), "1");
    assert_eq!(rendered(9), "9");
    assert_eq!(rendered(10), "10");
    assert_eq!(rendered(256), "256");
    assert_eq!(rendered(4096), "4096");
}

#[test]
fn inventory_figures_render_exactly() {
    assert_eq!(rendered(1048576), "1048576");
    assert_eq!(rendered(1024 * 1024 / 4096), "256");
}

#[test]
fn largest_value_renders_without_truncation() {
    assert_eq!(rendered(u64::MAX), "18446744073709551615");
}

#[test]
fn total_line_lays_out_the_inventory() {
    let inv = MemoryInventory { total_pages: 256, bytes: 1048576, size_mib: 1 };
    let line: String = total_line(&inv).into_iter().collect();
    assert_eq!(line, "Total: 256 pages = 1 MiB");
}

#[test]
fn total_line_for_zero_inventory() {
    let inv = MemoryInventory { total_pages: 0, bytes: 0, size_mib: 0 };
    let line: String = total_line(&inv).into_iter().collect();
    assert_eq!(line, "Total: 0 pages = 0 MiB");
}

#[test]
fn no_leading_zeros() {
    for n in [5u64, 50, 500, 5000, 1000000007] {
        let s = rendered(n);
        assert!(!s.starts_with('0'));
        assert_eq!(s.parse::<u64>().unwrap(), n);
    }
}

use pdf_viewer::size::human_size;

/// The same size by way of floating-point arithmetic.
fn by_floating_point(n: u64) -> String {
    let units = ["B", "KB", "MB", "GB"];
    let mut value = n as f64;
    let mut unit = 0;
    while value >= 1024.0 && unit < units.len() - 1 {
        value /= 1024.0;
        unit += 1;
    }
    if unit == 0 {
        format!("{n} B")
    } else {
        format!("{value:.1} {}", units[unit])
    }
}

#[test]
fn bytes_are_written_as_they_are() {
    assert_eq!(human_size(0), "0 B");
    assert_eq!(human_size(7), "7 B");
    assert_eq!(human_size(1023), "1023 B");
}

#[test]
fn larger_sizes_have_one_decimal() {
    assert_eq!(human_size(1024), "1.0 KB");
    assert_eq!(human_size(1536), "1.5 KB");
    assert_eq!(human_size(16 * 1024 * 1024), "16.0 MB");
    assert_eq!(human_size(11 * 1024 * 1024 + 524288), "11.5 MB");
    assert_eq!(human_size(3 * 1024 * 1024 * 1024), "3.0 GB");
}

#[test]
fn halves_go_to_the_even_tenth() {
    assert_eq!(human_size(1280), "1.2 KB");
    assert_eq!(human_size(1792), "1.8 KB");
}

#[test]
fn the_top_of_a_unit_may_round_up_to_1024() {
    assert_eq!(human_size(1024 * 1024 - 1), "1024.0 KB");
    assert_eq!(human_size(1024 * 1024 * 1024 - 1), "1024.0 MB");
}

#[test]
fn the_largest_size_is_written_in_gigabytes() {
    assert_eq!(human_size(u64::MAX), "17179869184.0 GB");
}

#[test]
fn sizes_agree_with_floating_point() {
    for n in 0..200_000u64 {
        assert_eq!(human_size(n), by_floating_point(n));
    }
    let mut n = 1u64;
    for i in 0..20_000u64 {
        n = n.wrapping_mul(6364136223846793005).wrapping_add(1442695040888963407);
        let size = n >> (i % 64);
        assert_eq!(human_size(size), by_floating_point(size));
    }
    for shift in 50..64u32 {
        for offset in 0..3000u64 {
            let size = (1u64 << shift).wrapping_add(offset).wrapping_sub(1500);
            assert_eq!(human_size(size), by_floating_point(size));
        }
    }
}

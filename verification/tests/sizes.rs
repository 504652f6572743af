use freebucket::size::human_readable_size;

fn by_floating_point(bytes: u64) -> String {
    let units = ["B", "KB", "MB", "GB", "TB", "PB"];
    let mut size = bytes as f64;
    let mut unit = 0;
    while size >= 1024.0 && unit < units.len() - 1 {
        size /= 1024.0;
        unit += 1;
    }
    if unit == 0 {
        format!("{} {}", bytes, units[0])
    } else {
        format!("{:.2} {}", size, units[unit])
    }
}

#[test]
fn small_counts_are_printed_as_they_are() {
    assert_eq!(human_readable_size(0), "0 B");
    assert_eq!(human_readable_size(1), "1 B");
    assert_eq!(human_readable_size(512), "512 B");
    assert_eq!(human_readable_size(1023), "1023 B");
}

#[test]
fn larger_counts_get_two_decimals() {
    assert_eq!(human_readable_size(1024), "1.00 KB");
    assert_eq!(human_readable_size(1536), "1.50 KB");
    assert_eq!(human_readable_size(123_456_789), "117.74 MB");
    assert_eq!(human_readable_size(1_048_576), "1.00 MB");
    assert_eq!(human_readable_size(1_073_741_824), "1.00 GB");
    assert_eq!(human_readable_size(5_905_580_032), "5.50 GB");
    assert_eq!(human_readable_size(1_649_267_441_664), "1.50 TB");
    assert_eq!(human_readable_size(1_125_899_906_842_624), "1.00 PB");
}

#[test]
fn ties_go_to_the_even_hundredth() {
    assert_eq!(human_readable_size(1152), "1.12 KB");
    assert_eq!(human_readable_size(1408), "1.38 KB");
}

#[test]
fn a_count_just_below_a_unit_rounds_up_within_its_unit() {
    assert_eq!(human_readable_size(1_048_575), "1024.00 KB");
}

#[test]
fn petabytes_are_the_last_unit() {
    assert_eq!(human_readable_size(9_007_199_254_740_992), "8.00 PB");
    assert_eq!(human_readable_size(9_007_199_254_740_993), "8.00 PB");
    assert_eq!(human_readable_size(u64::MAX), "16384.00 PB");
}

#[test]
fn agrees_with_double_precision_formatting() {
    let mut samples: Vec<u64> = Vec::new();
    for shift in 0..64u32 {
        let p = 1u64 << shift;
        for delta in 0..40u64 {
            samples.push(p.wrapping_add(delta));
            samples.push(p.wrapping_sub(delta));
            samples.push(p.wrapping_add(delta * 127));
            samples.push(p.wrapping_add(p / 3).wrapping_add(delta));
            samples.push(p.wrapping_add(p / 8).wrapping_add(delta * 128));
        }
    }
    let mut x: u64 = 0x9E37_79B9_7F4A_7C15;
    for _ in 0..20_000 {
        x ^= x << 13;
        x ^= x >> 7;
        x ^= x << 17;
        samples.push(x);
        samples.push(x >> (x % 64));
    }
    for k in 0..4000u64 {
        samples.push(k * 128);
        samples.push(k * 131_072);
        samples.push(k * 134_217_728);
    }
    for bytes in samples {
        assert_eq!(human_readable_size(bytes), by_floating_point(bytes), "for {}", bytes);
    }
}

use workshop_manager::size::format_file_size;

fn float_text(bytes: u64) -> String {
    let units = ["B", "KB", "MB", "GB", "TB"];
    let mut size = bytes as f64;
    let mut unit = 0;
    while size >= 1024.0 && unit < units.len() - 1 {
        size /= 1024.0;
        unit += 1;
    }
    format!("{:.2} {}", size, units[unit])
}

#[test]
fn sizes_below_one_kilobyte_are_given_in_bytes() {
    assert_eq!(format_file_size(0), "0.00 B");
    assert_eq!(format_file_size(1), "1.00 B");
    assert_eq!(format_file_size(1023), "1023.00 B");
}

#[test]
fn sizes_are_scaled_by_powers_of_1024() {
    assert_eq!(format_file_size(1024), "1.00 KB");
    assert_eq!(format_file_size(1536), "1.50 KB");
    assert_eq!(format_file_size(1024 * 1024), "1.00 MB");
    assert_eq!(format_file_size(5 * 1024 * 1024 * 1024), "5.00 GB");
    assert_eq!(format_file_size(1u64 << 40), "1.00 TB");
    assert_eq!(format_file_size(u64::MAX), "16777216.00 TB");
}

#[test]
fn ties_go_to_the_even_hundredth() {
    assert_eq!(format_file_size(1024 + 128), "1.12 KB");
    assert_eq!(format_file_size(1024 + 384), "1.38 KB");
    assert_eq!(format_file_size(1024 * 1024 - 1), "1024.00 KB");
}

#[test]
fn sizes_read_as_a_double_would_print_them() {
    let mut samples: Vec<u64> = Vec::new();
    for shift in 0..64u32 {
        let base = 1u64 << shift;
        for delta in [0u64, 1, 2, 3, 5, 127, 128, 129, 511, 512, 513, 1023] {
            samples.push(base.wrapping_add(delta));
            samples.push(base.wrapping_sub(delta));
            samples.push(base.wrapping_mul(3).wrapping_add(delta));
            samples.push(base.wrapping_mul(5).wrapping_sub(delta));
        }
    }
    let mut x: u64 = 0x9e37_79b9_7f4a_7c15;
    for _ in 0..20000 {
        x ^= x << 13;
        x ^= x >> 7;
        x ^= x << 17;
        samples.push(x);
        samples.push(x >> 20);
        samples.push(x >> 40);
        samples.push(x >> 11);
        samples.push((x >> 11) << 11 | 0x400);
        samples.push((x >> 12) << 12 | 0x400);
    }
    for k in 0..4000u64 {
        samples.push(k * 128);
        samples.push(k * 1024 * 128);
        samples.push(k * 1024 * 1024 * 128);
        samples.push((k << 37) + (1 << 36));
    }
    for bytes in samples {
        assert_eq!(format_file_size(bytes), float_text(bytes), "{}", bytes);
    }
}

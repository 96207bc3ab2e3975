use validador_imagenes::nucleo::tamano::{formatear_bytes, formatear_tamano};

/// The same text computed with floating point, as a size formatter does it.
fn con_flotantes(n: usize) -> String {
    const UNITS: &[&str] = &["B", "KB", "MB", "GB", "TB"];
    let mut value = n as f64;
    let mut unit = UNITS[0];
    for u in &UNITS[1..] {
        if value < 1024.0 {
            break;
        }
        value /= 1024.0;
        unit = u;
    }
    format!("{:.1} {}", value, unit)
}

#[test]
fn formatear_bytes_valores_exactos() {
    assert_eq!(formatear_bytes(0), "0.0 B");
    assert_eq!(formatear_bytes(1023), "1023.0 B");
    assert_eq!(formatear_bytes(1024), "1.0 KB");
    assert_eq!(formatear_bytes(1536), "1.5 KB");
    assert_eq!(formatear_bytes(20 * 1024 * 1024), "20.0 MB");
    assert_eq!(formatear_bytes(1048575), "1024.0 KB");
}

#[test]
fn formatear_bytes_empates_redondean_a_par() {
    // 1.25 KB and 1.75 KB lie exactly halfway between two tenths.
    assert_eq!(formatear_bytes(1280), con_flotantes(1280));
    assert_eq!(formatear_bytes(1792), con_flotantes(1792));
    assert_eq!(formatear_bytes(1280), "1.2 KB");
    assert_eq!(formatear_bytes(1792), "1.8 KB");
}

#[test]
fn formatear_bytes_coincide_con_flotantes() {
    let mut casos: Vec<u64> = vec![
        1, 2, 999, 1000, 1023, 1024, 1025, 1075, 1076, 1126, 1127, 1280, 1331, 10240, 1048575,
        1048576, 1073741823, 1073741824, 1099511627775, 1099511627776, 1125899906842623,
        9007199254740991, 9007199254740992, 9007199254740993, 9007199254740995,
        18014398509481985, 18014398509481987, 1u64 << 60, (1u64 << 60) + 12345,
        u64::MAX, u64::MAX - 1, u64::MAX / 3,
    ];
    let mut x: u64 = 0x9E3779B97F4A7C15;
    for _ in 0..20000 {
        x ^= x << 13;
        x ^= x >> 7;
        x ^= x << 17;
        casos.push(x >> (x % 64));
        casos.push(x % 5_000_000);
    }
    for n in casos {
        let n = n as usize;
        assert_eq!(formatear_bytes(n), con_flotantes(n), "tamaño {}", n);
    }
}

/// The two-decimal text computed with floating point.
fn dos_decimales_con_flotantes(bytes: usize) -> String {
    const KB: f64 = 1024.0;
    const MB: f64 = KB * 1024.0;
    let bytes_f = bytes as f64;
    if bytes_f >= MB {
        format!("{:.2} MB", bytes_f / MB)
    } else if bytes_f >= KB {
        format!("{:.2} KB", bytes_f / KB)
    } else {
        format!("{} B", bytes)
    }
}

#[test]
fn formatear_tamano_valores_exactos() {
    assert_eq!(formatear_tamano(0), "0 B");
    assert_eq!(formatear_tamano(1023), "1023 B");
    assert_eq!(formatear_tamano(1024), "1.00 KB");
    assert_eq!(formatear_tamano(1536), "1.50 KB");
    assert_eq!(formatear_tamano(3 * 1024 * 1024 / 2), "1.50 MB");
    assert_eq!(formatear_tamano(5 * 1024 * 1024 * 1024), "5120.00 MB");
}

#[test]
fn formatear_tamano_coincide_con_flotantes() {
    let mut casos: Vec<u64> = vec![
        0, 1, 1023, 1024, 1029, 1030, 1034, 1035, 1048575, 1048576, 1053818, 9007199254740993,
        u64::MAX, u64::MAX / 7,
    ];
    let mut x: u64 = 0x2545F4914F6CDD1D;
    for _ in 0..20000 {
        x ^= x << 13;
        x ^= x >> 7;
        x ^= x << 17;
        casos.push(x >> (x % 64));
        casos.push(x % 3_000_000);
    }
    for n in casos {
        let n = n as usize;
        assert_eq!(formatear_tamano(n), dos_decimales_con_flotantes(n), "tamaño {}", n);
    }
}

use validador_imagenes::nucleo::texto::{decimal, es_espacio, recortar, unir_cadenas};

#[test]
fn espacio_coincide_con_la_biblioteca_estandar() {
    for u in 0u32..=0x10FFFF {
        if let Some(c) = char::from_u32(u) {
            assert_eq!(es_espacio(c), c.is_whitespace(), "U+{:04X}", u);
        }
    }
}

#[test]
fn recortar_quita_blancos_unicode() {
    assert_eq!(recortar("\u{3000}\t foto.png \u{2029}\n"), "foto.png");
    assert_eq!(recortar("   "), "");
    assert_eq!(recortar("a b"), "a b");
    assert_eq!(recortar(" \u{200B}x"), "\u{200B}x");
}

#[test]
fn decimales_y_uniones() {
    assert_eq!(decimal(0), "0");
    assert_eq!(decimal(30_000_000), "30000000");
    assert_eq!(decimal(u128::MAX), u128::MAX.to_string());
    let partes = vec!["jpg".to_string(), "png".to_string()];
    assert_eq!(unir_cadenas(&partes, ", "), "jpg, png");
    assert_eq!(unir_cadenas(&Vec::new(), ", "), "");
}

#[test]
fn recortar_coincide_con_trim() {
    let piezas = [" ", "\t", "\u{85}", "\u{A0}", "a", "ñ", "\u{200B}", "\u{3000}", ".", "/", "\u{FEFF}"];
    let mut x: u32 = 0xACE1;
    for _ in 0..5000 {
        let mut s = String::new();
        for _ in 0..(x % 7) {
            x ^= x << 13;
            x ^= x >> 17;
            x ^= x << 5;
            s.push_str(piezas[(x % piezas.len() as u32) as usize]);
        }
        x ^= x << 13;
        x ^= x >> 17;
        x ^= x << 5;
        assert_eq!(recortar(&s), s.trim(), "{:?}", s);
    }
}

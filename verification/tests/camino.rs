use std::path::{Component, Path};

use validador_imagenes::nucleo::camino::{
    componentes_de, extension_exec, nombre_final_de, ComponenteRuta,
};

fn con_std(s: &str) -> Vec<ComponenteRuta> {
    Path::new(s)
        .components()
        .map(|c| match c {
            Component::RootDir => ComponenteRuta::Raiz,
            Component::CurDir => ComponenteRuta::Actual,
            Component::ParentDir => ComponenteRuta::Padre,
            Component::Normal(n) => ComponenteRuta::Normal(n.to_str().unwrap().to_string()),
            Component::Prefix(_) => panic!("no prefixes on Unix"),
        })
        .collect()
}

fn muestras() -> Vec<String> {
    let piezas = ["a", "b", ".", "..", "/", "//", "ñ", "x.y", ".z", "t.", " "];
    let mut casos: Vec<String> = vec![String::new()];
    let mut x: u32 = 0x1234_5678;
    for _ in 0..20000 {
        let mut s = String::new();
        x ^= x << 13;
        x ^= x >> 17;
        x ^= x << 5;
        for _ in 0..(x % 8) {
            x ^= x << 13;
            x ^= x >> 17;
            x ^= x << 5;
            s.push_str(piezas[(x % piezas.len() as u32) as usize]);
        }
        casos.push(s);
    }
    casos
}

#[test]
fn componentes_como_path() {
    for s in muestras() {
        assert_eq!(componentes_de(&s), con_std(&s), "{:?}", s);
    }
}

#[test]
fn nombre_final_como_file_name() {
    for s in muestras() {
        let esperado = Path::new(&s).file_name().map(|n| n.to_str().unwrap().to_string());
        assert_eq!(nombre_final_de(&s), esperado, "{:?}", s);
    }
}

#[test]
fn extension_como_path() {
    for s in muestras() {
        let esperado = Path::new(&s).extension().map(|n| n.to_str().unwrap().to_string());
        assert_eq!(extension_exec(&s), esperado, "{:?}", s);
    }
}

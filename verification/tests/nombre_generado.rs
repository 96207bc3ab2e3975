use validador_imagenes::nucleo::nombre_archivo::{
    NombreArchivo, NombreArchivoError, ValidadorNombreArchivo,
};

fn es_uuid_v4(s: &str) -> bool {
    let b = s.as_bytes();
    if b.len() != 36 {
        return false;
    }
    for (i, c) in b.iter().enumerate() {
        let ok = if i == 8 || i == 13 || i == 18 || i == 23 {
            *c == b'-'
        } else {
            c.is_ascii_digit() || (b'a'..=b'f').contains(c)
        };
        if !ok {
            return false;
        }
    }
    b[14] == b'4' && matches!(b[19], b'8' | b'9' | b'a' | b'b')
}

#[test]
fn generado_conserva_la_extension() {
    let n = NombreArchivo::generado("foto.png");
    let s = n.as_str();
    assert_eq!(s.len(), 40);
    assert!(es_uuid_v4(&s[..36]));
    assert_eq!(&s[36..], ".png");
}

#[test]
fn generado_solo_extension_con_punto() {
    let n = NombreArchivo::generado(".png");
    assert_eq!(n.as_str().len(), 36);
    assert!(es_uuid_v4(n.as_str()));
}

#[test]
fn generado_sin_extension() {
    let n = NombreArchivo::generado("  documento  ");
    assert!(es_uuid_v4(n.as_str()));
    let n = NombreArchivo::generado("archivo.");
    assert!(es_uuid_v4(n.as_str()));
}

#[test]
fn generado_desde_ruta_toma_la_ultima_extension() {
    let n = NombreArchivo::generado(" carpeta/sub.dir/foto.tar.gz ");
    assert!(es_uuid_v4(&n.as_str()[..36]));
    assert_eq!(&n.as_str()[36..], ".gz");
}

#[test]
fn generado_da_nombres_distintos() {
    let a = NombreArchivo::generado("a.jpg");
    let b = NombreArchivo::generado("a.jpg");
    assert_ne!(a, b);
}

#[test]
fn new_genera_nombre_valido() {
    let n = NombreArchivo::new("  mi foto.jpeg ").unwrap();
    assert!(es_uuid_v4(&n.as_str()[..36]));
    assert_eq!(&n.as_str()[36..], ".jpeg");
    assert_eq!(ValidadorNombreArchivo::validar(n.as_str()), Ok(()));
}

#[test]
fn fijo_recorta_y_conserva() {
    let n = NombreArchivo::fijo("  foto.png\t").unwrap();
    assert_eq!(n.as_str(), "foto.png");
    let otra = NombreArchivo::fijo(n.as_str()).unwrap();
    assert_eq!(otra, n);
    assert_eq!(n.into_inner(), "foto.png".to_string());
}

#[test]
fn desde_db_no_valida() {
    let n = NombreArchivo::desde_db("  a/b  ");
    assert_eq!(n.as_str(), "  a/b  ");
}

#[test]
fn errores_de_nombre() {
    assert_eq!(NombreArchivo::fijo("   "), Err(NombreArchivoError::Vacio));
    assert_eq!(NombreArchivo::fijo(".."), Err(NombreArchivoError::Reservado));
    assert_eq!(NombreArchivo::fijo("a\\b"), Err(NombreArchivoError::ContieneSeparador));
    assert_eq!(ValidadorNombreArchivo::validar(&"ñ".repeat(128)), Err(NombreArchivoError::LongitudInvalida));
    assert_eq!(ValidadorNombreArchivo::validar(&"ñ".repeat(127)), Ok(()));
    assert_eq!(
        NombreArchivoError::Reservado.mensaje(),
        "El nombre del archivo está reservado por el sistema (ej. '.' o '..')"
    );
}

#[test]
fn rechaza_caracteres_prohibidos() {
    for entrada in [
        "archivo?invalido.png",
        "archivo*invalido.txt",
        "archivo<invalido>.doc",
        "archivo:invalido.pdf",
        "archivo|invalido.mp3",
        "\0archivo_nulo.txt",
    ] {
        assert_eq!(NombreArchivo::new(entrada), Err(NombreArchivoError::Invalido), "{:?}", entrada);
        assert_eq!(ValidadorNombreArchivo::validar(entrada), Err(NombreArchivoError::Invalido));
    }
    // The earlier rules still come first.
    assert_eq!(ValidadorNombreArchivo::validar("a/b?"), Err(NombreArchivoError::ContieneSeparador));
    assert_eq!(ValidadorNombreArchivo::validar("mi documento - borrador (v2).docx"), Ok(()));
    assert_eq!(ValidadorNombreArchivo::validar("a\"b.png"), Ok(()));
}

#[test]
fn con_uuid_es_exacto() {
    let uuid = "123e4567-e89b-42d3-a456-426614174000";
    assert_eq!(NombreArchivo::con_uuid(uuid, " foto.PNG ").as_str(), format!("{uuid}.PNG"));
    assert_eq!(NombreArchivo::con_uuid(uuid, "sin_extension").as_str(), uuid);
    assert_eq!(NombreArchivo::con_uuid(uuid, "a/b.c/d.tar.gz").as_str(), format!("{uuid}.gz"));
}

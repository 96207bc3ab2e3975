use validador_imagenes::nucleo::nombre_archivo::{
    NombreArchivo, NombreArchivoError, ValidadorNombreArchivo,
};

/// Runs the validator on `entrada`, printing what goes in and what comes out.
fn probar_y_notificar(id_test: &str, entrada: &str) -> Result<(), NombreArchivoError> {
    println!("\n--- [Prueba: {}] ---", id_test);
    println!("  📥 Entrada : {:?}", entrada);

    let resultado = ValidadorNombreArchivo::validar(entrada);

    match &resultado {
        Ok(()) => {
            println!("  📤 Salida  : Ok(())");
            println!("  ✅ Estado  : Nombre de archivo válido.");
        }
        Err(err) => {
            println!("  📤 Salida  : Err(NombreArchivoError::{:?})", err);
            println!("  🚨 Mensaje : \"{}\"", err.mensaje());
        }
    }

    resultado
}

#[test]
fn test_01_nombre_valido_estandar() {
    let entrada = "documento.txt";
    let res = probar_y_notificar("01_NombreValidoEstandar", entrada);
    assert!(res.is_ok());
}

#[test]
fn test_02_nombre_vacio() {
    let entrada = "";
    let res = probar_y_notificar("02_NombreVacio", entrada);
    assert_eq!(res, Err(NombreArchivoError::Vacio));
}

#[test]
fn test_03_longitud_excedida() {
    let entrada = "a".repeat(256);
    let res = probar_y_notificar("03_LongitudExcedida", &entrada);
    assert_eq!(res, Err(NombreArchivoError::LongitudInvalida));
}

#[test]
fn test_04_separador_posix_slash() {
    let entrada = "carpeta/archivo.txt";
    let res = probar_y_notificar("04_SeparadorPosixSlash", entrada);
    assert_eq!(res, Err(NombreArchivoError::ContieneSeparador));
}

#[test]
fn test_05_separador_windows_backslash() {
    let entrada = "carpeta\\archivo.txt";
    let res = probar_y_notificar("05_SeparadorWindowsBackslash", entrada);
    assert_eq!(res, Err(NombreArchivoError::ContieneSeparador));
}

#[test]
fn test_06_reservado_punto_simple() {
    let entrada = ".";
    let res = probar_y_notificar("06_ReservadoPuntoSimple", entrada);
    assert_eq!(res, Err(NombreArchivoError::Reservado));
}

#[test]
fn test_07_reservado_doble_punto() {
    let entrada = "..";
    let res = probar_y_notificar("07_ReservadoDoblePunto", entrada);
    assert_eq!(res, Err(NombreArchivoError::Reservado));
}

#[test]
fn test_08_caracteres_unicode_y_emojis() {
    let entrada = "reporte_año_2026_📊.pdf";
    let res = probar_y_notificar("08_CaracteresUnicodeYEmojis", entrada);
    assert!(res.is_ok());
}

#[test]
fn test_09_multiples_extensiones() {
    let entrada = "backup.tar.gz";
    let res = probar_y_notificar("09_MultiplesExtensiones", entrada);
    assert!(res.is_ok());
}

#[test]
fn test_10_espacios_y_simbolos_permitidos() {
    let entrada = "mi documento - borrador (v2).docx";
    let res = probar_y_notificar("10_EspaciosYSimbolosPermitidos", entrada);
    assert!(res.is_ok());
}

#[test]
fn test_diez_entradas_new() {
    let entradas = vec![
        "documento.txt",
        "imagen.png",
        "archivo_sin_extension",
        "ruta/relativa/archivo.pdf",
        "  archivo_con_espacios.rs  ",
        "comprimido.tar.gz",
        ".archivo_oculto.md",
        "documento.FINAL.docx",
        "audio.mp3",
        "script.py",
    ];

    for entrada in entradas {
        match NombreArchivo::new(entrada) {
            Ok(nombre) => println!("Entrada: {:<31} | UUID Generado: {}", entrada, nombre.as_str()),
            Err(e) => println!("Entrada: {:<31} | Error de validación: {:?}", entrada, e),
        }
    }
}

#[test]
fn test_entradas_que_rompen_new() {
    let entradas_invalidas = vec![
        "",
        "   ",
        "archivo/con/slashes/invalidos.txt",
        "archivo\\con\\backslash.txt",
        "archivo?invalido.png",
        "archivo*invalido.txt",
        "archivo<invalido>.doc",
        "archivo:invalido.pdf",
        "archivo|invalido.mp3",
        "\0archivo_nulo.txt",
    ];

    for entrada in entradas_invalidas {
        match NombreArchivo::new(entrada) {
            Ok(nombre) => println!("Inesperado OK para '{}': {}", entrada, nombre.as_str()),
            Err(e) => println!("Error atrapado correctamente para '{}': {:?}", entrada, e),
        }
    }
}

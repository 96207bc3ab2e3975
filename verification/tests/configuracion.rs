use validador_imagenes::nucleo::nombre_archivo::NombreArchivo;
use validador_imagenes::nucleo::ruta::{
    ConfigRuta, ConfigRutaError, DirectorioImagenes, ErrorRuta, LecturaVariable, Ruta,
    ValidadorRuta,
};

#[test]
fn directorios_predefinidos() {
    assert_eq!(DirectorioImagenes::Uploads.as_str(), "static/uploads/imagenes");
    assert_eq!(DirectorioImagenes::Temporales.as_str(), "static/tmp/imagenes");
    assert_eq!(DirectorioImagenes::FotoPerfil.as_str(), "static/uploads/perfiles");
    assert_eq!(DirectorioImagenes::Banner.as_str(), "static/uploads/banners");
    assert_eq!(DirectorioImagenes::default(), DirectorioImagenes::Uploads);
    let config = ConfigRuta::desde_directorio(DirectorioImagenes::Banner);
    assert_eq!(config.directorio_base(), "static/uploads/banners");
}

#[test]
fn configuracion_por_defecto() {
    assert_eq!(ConfigRuta::default().directorio_base(), "uploads/imagenes");
    assert_eq!(ConfigRuta::new("otra/base").directorio_base(), "otra/base");
}

#[test]
fn configuracion_desde_lectura_del_entorno() {
    let ok = ConfigRuta::desde_lectura_env("DIR", LecturaVariable::Valor("datos/fotos".to_string()));
    assert_eq!(ok.unwrap().directorio_base(), "datos/fotos");

    let ausente = ConfigRuta::desde_lectura_env("DIR", LecturaVariable::Ausente);
    let e = ausente.unwrap_err();
    assert_eq!(e, ConfigRutaError::VariableNoDefinida { clave: "DIR".to_string() });
    assert_eq!(e.mensaje(), "La variable de entorno 'DIR' no está definida");

    let no_unicode = ConfigRuta::desde_lectura_env("DIR", LecturaVariable::NoUnicode);
    let e = no_unicode.unwrap_err();
    assert_eq!(e, ConfigRutaError::VariableNoUnicode { clave: "DIR".to_string() });
    assert_eq!(
        e.mensaje(),
        "La variable de entorno 'DIR' contiene caracteres UTF-8 no válidos"
    );
}

#[test]
fn para_archivo_une_base_y_nombre() {
    let config = ConfigRuta::default();
    let nombre = NombreArchivo::fijo("foto.png").unwrap();
    let ruta = Ruta::para_archivo(&nombre, &config).unwrap();
    assert_eq!(ruta.as_path(), "uploads/imagenes/foto.png");
    assert_eq!(ruta.as_path_buf().as_str(), "uploads/imagenes/foto.png");
    assert_eq!(ruta.to_web_string(), "uploads/imagenes/foto.png");
    assert_eq!(ruta.into_inner(), "uploads/imagenes/foto.png".to_string());
}

#[test]
fn para_archivo_con_nombre_generado() {
    let config = ConfigRuta::desde_directorio(DirectorioImagenes::FotoPerfil);
    let nombre = NombreArchivo::new("retrato.JPG").unwrap();
    let ruta = Ruta::para_archivo(&nombre, &config).unwrap();
    let esperado = format!("static/uploads/perfiles/{}", nombre.as_str());
    assert_eq!(ruta.as_path(), esperado.as_str());
}

#[test]
fn para_archivo_rechaza_nombre_de_db_con_separadores() {
    let config = ConfigRuta::default();
    let nombre = NombreArchivo::desde_db("../../etc/passwd");
    assert_eq!(Ruta::para_archivo(&nombre, &config), Err(ErrorRuta::NavegacionProhibida));
}

#[test]
fn ruta_web_cambia_barras_invertidas() {
    let ruta = Ruta::desde_db("uploads\\imagenes\\foto.png");
    assert_eq!(ruta.to_web_string(), "uploads/imagenes/foto.png");
    assert_eq!(ruta.as_path(), "uploads\\imagenes\\foto.png");
}

#[test]
fn rechaza_ruta_vacia() {
    let config = ConfigRuta::default();
    assert_eq!(Ruta::try_new("", &config), Err(ErrorRuta::RutaVacia));
    assert_eq!(ErrorRuta::RutaVacia.mensaje(), "La ruta no puede estar vacía");
}

#[test]
fn rechaza_ruta_demasiado_larga() {
    let config = ConfigRuta::default();
    let mut ruta = String::from("uploads/imagenes");
    while ruta.len() <= 4096 {
        ruta.push_str("/abcdefgh");
    }
    assert_eq!(Ruta::try_new(&ruta, &config), Err(ErrorRuta::RutaDemasiadoLarga));
}

#[test]
fn ruta_de_4096_bytes_se_acepta() {
    let config = ConfigRuta::default();
    let mut ruta = String::from("uploads/imagenes/");
    while ruta.len() < 4096 {
        let falta = 4096 - ruta.len();
        if falta > 200 {
            ruta.push_str(&"b".repeat(199));
            ruta.push('/');
        } else {
            ruta.push_str(&"c".repeat(falta));
        }
    }
    assert_eq!(ruta.len(), 4096);
    assert!(Ruta::try_new(&ruta, &config).is_ok());
}

#[test]
fn componente_de_255_bytes_se_acepta() {
    let config = ConfigRuta::default();
    let ruta = format!("uploads/imagenes/{}", "a".repeat(255));
    assert!(Ruta::try_new(&ruta, &config).is_ok());
    let ruta = format!("uploads/imagenes/{}", "a".repeat(256));
    assert_eq!(Ruta::try_new(&ruta, &config), Err(ErrorRuta::ComponenteDemasiadoLargo));
}

#[test]
fn la_base_sola_no_basta() {
    let config = ConfigRuta::default();
    assert_eq!(Ruta::try_new("uploads/imagenes", &config), Err(ErrorRuta::BaseInvalida));
    assert_eq!(Ruta::try_new("uploads/imagenes/", &config), Err(ErrorRuta::BaseInvalida));
    assert!(Ruta::try_new("./uploads//imagenes/./a.png", &config).is_ok());
}

#[test]
fn validacion_codificada() {
    let config = ConfigRuta::default();
    assert_eq!(
        ValidadorRuta::validar_codificado(b"uploads/imagenes/\xff.png", &config),
        Err(ErrorRuta::CodificacionInvalida)
    );
    assert_eq!(
        ValidadorRuta::validar_codificado(b"/uploads/imagenes/\xff.png", &config),
        Err(ErrorRuta::RutaAbsoluta)
    );
    assert_eq!(ValidadorRuta::validar_codificado(b"", &config), Err(ErrorRuta::RutaVacia));
    assert_eq!(
        ValidadorRuta::validar_codificado("uploads/imagenes/ñ.png".as_bytes(), &config),
        Ok(())
    );
    assert_eq!(
        ValidadorRuta::validar_codificado(b"otros/a.png", &config),
        ValidadorRuta::validar("otros/a.png", &config)
    );
}

#[test]
fn resolucion_simbolica() {
    assert_eq!(
        ValidadorRuta::validar_resolucion_simbolica(None, Some("/srv/app/a.png")),
        Err(ErrorRuta::DirectorioBaseInaccesible)
    );
    assert_eq!(
        ValidadorRuta::validar_resolucion_simbolica(Some("/srv/app"), None),
        Err(ErrorRuta::ArchivoInaccesible)
    );
    assert_eq!(
        ValidadorRuta::validar_resolucion_simbolica(Some("/srv/app"), Some("/srv/app/a.png")),
        Ok(())
    );
    assert_eq!(
        ValidadorRuta::validar_resolucion_simbolica(Some("/srv/app"), Some("/srv/application/a.png")),
        Err(ErrorRuta::EscapeSimbolicoDetectado)
    );
    assert_eq!(
        ValidadorRuta::validar_resolucion_simbolica(Some("/srv/app"), Some("/etc/passwd")),
        Err(ErrorRuta::EscapeSimbolicoDetectado)
    );
    assert_eq!(
        ValidadorRuta::validar_resolucion_simbolica(Some("/srv/app"), Some("/srv/app")),
        Ok(())
    );
}

#[test]
fn mensajes_de_error_de_ruta() {
    assert_eq!(
        ErrorRuta::NavegacionProhibida.mensaje(),
        "La ruta contiene secuencias de navegación inseguras ('..')"
    );
    assert_eq!(
        ErrorRuta::EscapeSimbolicoDetectado.mensaje(),
        "La ruta resuelve simbólicamente fuera del directorio base"
    );
}

#[test]
fn para_archivo_con_cada_directorio_predefinido() {
    let nombre = NombreArchivo::fijo("ñandú 1.webp").unwrap();
    for dir in [
        DirectorioImagenes::Uploads,
        DirectorioImagenes::Temporales,
        DirectorioImagenes::FotoPerfil,
        DirectorioImagenes::Banner,
    ] {
        let base = dir.as_str();
        let config = ConfigRuta::desde_directorio(dir);
        let ruta = Ruta::para_archivo(&nombre, &config).unwrap();
        assert_eq!(ruta.as_path(), format!("{}/ñandú 1.webp", base));
    }
}

#[test]
fn ruta_aceptada_queda_bajo_la_base() {
    let config = ConfigRuta::new("a/b");
    assert!(Ruta::try_new("a/b/c/d.png", &config).is_ok());
    assert_eq!(Ruta::try_new("a/c/../b/d.png", &config), Err(ErrorRuta::NavegacionProhibida));
    assert_eq!(Ruta::try_new("a/bb/d.png", &config), Err(ErrorRuta::BaseInvalida));
}

#[test]
fn ruta_desde_bytes() {
    let config = ConfigRuta::default();
    let ruta = Ruta::desde_bytes("uploads/imagenes/ñ.png".as_bytes(), &config).unwrap();
    assert_eq!(ruta.as_path(), "uploads/imagenes/ñ.png");
    assert_eq!(
        Ruta::desde_bytes(b"uploads/imagenes/\xc3.png", &config),
        Err(ErrorRuta::CodificacionInvalida)
    );
    assert_eq!(Ruta::desde_bytes(b"/etc/x", &config), Err(ErrorRuta::RutaAbsoluta));
    assert_eq!(Ruta::desde_bytes(b"uploads/x.png", &config), Err(ErrorRuta::BaseInvalida));
}

#[test]
fn para_archivo_rechaza_nombre_absoluto() {
    let config = ConfigRuta::default();
    let nombre = NombreArchivo::desde_db("/etc/passwd");
    assert_eq!(Ruta::para_archivo(&nombre, &config), Err(ErrorRuta::RutaAbsoluta));
    let config = ConfigRuta::new("/srv/fotos");
    assert_eq!(Ruta::para_archivo(&nombre, &config), Err(ErrorRuta::RutaAbsoluta));
}

use validador_imagenes::nucleo::ruta::{ConfigRuta, ErrorRuta, Ruta};

#[test]
fn acepta_ruta_dentro_del_directorio_configurado() {
    let config = ConfigRuta::default(); // "uploads/imagenes"
    let ruta = Ruta::try_new("uploads/imagenes/foto.png", &config);
    assert!(ruta.is_ok());
}

#[test]
fn rechaza_ruta_fuera_del_directorio_configurado() {
    let config = ConfigRuta::default();
    let ruta = Ruta::try_new("otros/foto.png", &config);
    assert_eq!(ruta, Err(ErrorRuta::BaseInvalida));
}

#[test]
fn respeta_directorio_base_personalizado() {
    let config = ConfigRuta::new("test/imagenes");
    let ruta = Ruta::try_new("test/imagenes/foto.png", &config);
    assert!(ruta.is_ok());

    let config_default = ConfigRuta::default();
    let ruta_invalida = Ruta::try_new("test/imagenes/foto.png", &config_default);
    assert_eq!(ruta_invalida, Err(ErrorRuta::BaseInvalida));
}

#[test]
fn rechaza_path_traversal() {
    let config = ConfigRuta::default();
    let ruta = Ruta::try_new("uploads/imagenes/../../etc/passwd", &config);
    assert_eq!(ruta, Err(ErrorRuta::NavegacionProhibida));
}

#[test]
fn rechaza_ruta_absoluta() {
    let config = ConfigRuta::default();
    let ruta = Ruta::try_new("/uploads/imagenes/foto.png", &config);
    assert_eq!(ruta, Err(ErrorRuta::RutaAbsoluta));
}

#[test]
fn rechaza_byte_nulo() {
    let config = ConfigRuta::default();
    let ruta = Ruta::try_new("uploads/imagenes/foto\0.png", &config);
    assert_eq!(ruta, Err(ErrorRuta::CaracterInvalido));
}

#[test]
fn rechaza_componente_demasiado_largo() {
    let config = ConfigRuta::default();
    let nombre_largo = "a".repeat(300) + ".png";
    let ruta = Ruta::try_new(&format!("uploads/imagenes/{nombre_largo}"), &config);
    assert_eq!(ruta, Err(ErrorRuta::ComponenteDemasiadoLargo));
}

use std::io::Cursor;

use image::{GrayImage, ImageFormat, Luma, Rgb, RgbImage};
use validador_imagenes::validador::{
    eliminar_exif, obtener_extension, FormatoImagen, ImagenValidationError, ReglasImagen,
};

/// An RGB image of the given size whose pixels vary, so that it does not
/// compress to almost nothing.
fn imagen_rgb(ancho: u32, alto: u32) -> RgbImage {
    let mut x: u32 = 12345;
    RgbImage::from_fn(ancho, alto, |_, _| {
        x ^= x << 13;
        x ^= x >> 17;
        x ^= x << 5;
        Rgb([x as u8, (x >> 8) as u8, (x >> 16) as u8])
    })
}

fn codificar_rgb(img: &RgbImage, formato: ImageFormat) -> Vec<u8> {
    let mut buf = Cursor::new(Vec::new());
    img.write_to(&mut buf, formato).unwrap();
    buf.into_inner()
}

fn png(ancho: u32, alto: u32) -> Vec<u8> {
    codificar_rgb(&imagen_rgb(ancho, alto), ImageFormat::Png)
}

fn detalle(e: &ImagenValidationError, clave: &str) -> Option<String> {
    e.details.iter().find(|(k, _)| k == clave).map(|(_, v)| v.clone())
}

#[test]
fn inspeccion_acepta_png_valido() {
    let reglas = ReglasImagen::default();
    let datos = png(200, 150);
    let r = reglas.inspeccionar(&datos, "foto.PNG").unwrap();
    assert_eq!(r.ancho, 200);
    assert_eq!(r.alto, 150);
    assert_eq!(r.mime, "image/png");
    assert_eq!(r.extension, "png");
    assert_eq!(r.bytes, datos.len());
    assert_eq!(r.formato, FormatoImagen::Png);
    assert_eq!(r.modo, "RGB");
}

#[test]
fn inspeccion_rechaza_datos_vacios() {
    let e = ReglasImagen::default().inspeccionar(&[], "foto.png").unwrap_err();
    assert_eq!(e.message, "Archivo no proporcionado");
    assert!(e.details.is_empty());
}

#[test]
fn inspeccion_rechaza_nombre_en_blanco() {
    let e = ReglasImagen::default().inspeccionar(&png(200, 200), "   ").unwrap_err();
    assert_eq!(e.message, "Nombre de archivo vacío");
}

#[test]
fn inspeccion_rechaza_extension_no_permitida() {
    let e = ReglasImagen::default().inspeccionar(&png(200, 200), "foto.gif").unwrap_err();
    assert_eq!(e.message, "Extensión no permitida: 'gif'");
    assert_eq!(detalle(&e, "permitidas").unwrap(), "jpg, jpeg, png, webp");
    assert_eq!(
        e.mensaje_completo(),
        "Extensión no permitida: 'gif' | {permitidas: jpg, jpeg, png, webp}"
    );
}

#[test]
fn inspeccion_rechaza_nombre_sin_extension() {
    let e = ReglasImagen::default().inspeccionar(&png(200, 200), "foto").unwrap_err();
    assert_eq!(e.message, "Extensión no permitida: ''");
}

#[test]
fn inspeccion_rechaza_extension_falsificada() {
    let e = ReglasImagen::default().inspeccionar(&png(200, 200), "foto.jpg").unwrap_err();
    assert_eq!(e.message, "La extensión del archivo no coincide con su contenido real");
    assert_eq!(detalle(&e, "extension").unwrap(), "jpg");
    assert_eq!(detalle(&e, "mime_detectado").unwrap(), "image/png");
}

#[test]
fn inspeccion_sin_coherencia_acepta_extension_distinta() {
    let mut reglas = ReglasImagen::default();
    reglas.validar_coherencia_extension_mime = false;
    let r = reglas.inspeccionar(&png(200, 200), "foto.jpg").unwrap();
    assert_eq!(r.extension, "jpg");
    assert_eq!(r.mime, "image/png");
}

#[test]
fn inspeccion_rechaza_gif_aunque_este_permitido() {
    let mut reglas = ReglasImagen::default();
    reglas.mimes_permitidos.push("image/gif".to_string());
    let gif = codificar_rgb(&imagen_rgb(200, 200), ImageFormat::Gif);
    let e = reglas.inspeccionar(&gif, "foto.png").unwrap_err();
    assert_eq!(e.message, "GIF no permitido");
}

#[test]
fn inspeccion_rechaza_contenido_no_identificable() {
    let datos = vec![b'x'; 4096];
    let e = ReglasImagen::default().inspeccionar(&datos, "foto.png").unwrap_err();
    assert_eq!(e.message, "Formato de archivo no identificable");
}

#[test]
fn inspeccion_rechaza_mime_no_permitido() {
    let bmp = codificar_rgb(&imagen_rgb(200, 200), ImageFormat::Bmp);
    let mut reglas = ReglasImagen::default();
    reglas.extensiones_permitidas.push("bmp".to_string());
    let e = reglas.inspeccionar(&bmp, "foto.bmp").unwrap_err();
    assert_eq!(e.message, "MIME no soportado: 'image/bmp'");
    assert_eq!(
        detalle(&e, "permitidos").unwrap(),
        "image/jpeg, image/jpg, image/png, image/webp"
    );
}

#[test]
fn inspeccion_rechaza_archivo_pequeno() {
    let mut reglas = ReglasImagen::default();
    reglas.min_bytes = 10_000_000;
    reglas.max_bytes = 20_000_000;
    let datos = png(200, 200);
    let e = reglas.inspeccionar(&datos, "foto.png").unwrap_err();
    assert!(e.message.starts_with("Archivo muy pequeño: "));
    assert_eq!(detalle(&e, "min").unwrap(), "9.5 MB");
}

#[test]
fn inspeccion_rechaza_archivo_grande() {
    let mut reglas = ReglasImagen::default();
    reglas.max_bytes = 2000;
    let e = reglas.inspeccionar(&png(200, 200), "foto.png").unwrap_err();
    assert!(e.message.starts_with("Archivo muy grande: "));
    assert_eq!(detalle(&e, "max").unwrap(), "2.0 KB");
}

#[test]
fn inspeccion_rechaza_png_corrupto() {
    let mut datos = png(200, 200);
    datos.truncate(datos.len() / 2);
    let e = ReglasImagen::default().inspeccionar(&datos, "foto.png").unwrap_err();
    assert!(
        e.message == "Imagen corrupta o inválida"
            || e.message == "Formato de imagen no soportado"
            || e.message.starts_with("Error decodificando imagen: "),
        "{}",
        e.message
    );
}

#[test]
fn inspeccion_rechaza_demasiados_pixeles() {
    let mut reglas = ReglasImagen::default();
    reglas.max_image_pixels = 10_000;
    let e = reglas.inspeccionar(&png(200, 200), "foto.png").unwrap_err();
    assert_eq!(e.message, "Imagen excede el límite de píxeles: 40000");
    assert_eq!(detalle(&e, "max").unwrap(), "10000");
}

#[test]
fn inspeccion_rechaza_dimensiones_insuficientes() {
    let e = ReglasImagen::default().inspeccionar(&png(60, 300), "foto.png").unwrap_err();
    assert_eq!(e.message, "Dimensiones insuficientes: 60x300");
    assert_eq!(detalle(&e, "min").unwrap(), "100x100");
}

#[test]
fn inspeccion_rechaza_dimensiones_excedidas() {
    let mut reglas = ReglasImagen::default();
    reglas.ancho_max = 150;
    let e = reglas.inspeccionar(&png(200, 120), "foto.png").unwrap_err();
    assert_eq!(e.message, "Dimensiones excedidas: 200x120");
    assert_eq!(detalle(&e, "max").unwrap(), "150x8000");
}

#[test]
fn modo_color_gris_y_monocromo() {
    let mut x: u32 = 7;
    let gris = GrayImage::from_fn(200, 200, |_, _| {
        x = x.wrapping_mul(1103515245).wrapping_add(12345);
        Luma([(x >> 16) as u8])
    });
    let mut buf = Cursor::new(Vec::new());
    gris.write_to(&mut buf, ImageFormat::Png).unwrap();
    let datos = buf.into_inner();
    let mut reglas = ReglasImagen::default();
    let r = reglas.inspeccionar(&datos, "gris.png").unwrap();
    assert_eq!(r.modo, "L");
    assert!(reglas.validar_modo_color(&r.modo).is_ok());
    reglas.rechazar_monocromo = true;
    let e = reglas.validar_modo_color(&r.modo).unwrap_err();
    assert_eq!(e.message, "Imagen monocromática no permitida");
    assert_eq!(detalle(&e, "modo").unwrap(), "L");
    let e = reglas.validar_modo_color("LA").unwrap_err();
    assert_eq!(e.message, "Imagen monocromática no permitida");
    assert_eq!(detalle(&e, "modo").unwrap(), "LA");
    assert!(reglas.validar_modo_color("RGB").is_ok());
    assert!(reglas.validar_modo_color("RGBA").is_ok());
    reglas.rechazar_monocromo = false;
    assert!(reglas.validar_modo_color("LA").is_ok());
}

#[test]
fn formato_y_animacion() {
    let reglas = ReglasImagen::default();
    let datos = png(200, 200);
    assert_eq!(reglas.detectar_formato(&datos).unwrap(), FormatoImagen::Png);
    assert!(!reglas.es_imagen_animada(&datos, FormatoImagen::Png));
    assert!(reglas.validar_animacion(&datos, FormatoImagen::Png).is_ok());
    let e = reglas.detectar_formato(b"nada de imagen").unwrap_err();
    assert_eq!(e.message, "Formato de imagen no reconocido");
    let jpeg = codificar_rgb(&imagen_rgb(200, 200), ImageFormat::Jpeg);
    assert_eq!(reglas.detectar_formato(&jpeg).unwrap(), FormatoImagen::Jpeg);
    let r = reglas.inspeccionar(&jpeg, "foto.jpeg").unwrap();
    assert_eq!(r.mime, "image/jpeg");
    assert_eq!(r.modo, "RGB");
}

#[test]
fn configuracion_por_defecto_y_coherencia() {
    let reglas = ReglasImagen::default();
    assert!(reglas.validate().is_ok());
    assert_eq!(reglas.max_bytes, 20 * 1024 * 1024);
    let mut mala = ReglasImagen::default();
    mala.min_bytes = mala.max_bytes;
    assert_eq!(mala.validate().unwrap_err().message, "max_bytes debe ser mayor que min_bytes");
    let mut mala = ReglasImagen::default();
    mala.alto_min = 9000;
    assert_eq!(mala.validate().unwrap_err().message, "Dimensiones min/max inválidas");
}

#[test]
fn coherencia_extension_mime() {
    let reglas = ReglasImagen::default();
    assert!(reglas.validar_coherencia_extension_mime("jpg", "image/jpeg").is_ok());
    assert!(reglas.validar_coherencia_extension_mime("jpeg", "image/jpg").is_ok());
    assert!(reglas.validar_coherencia_extension_mime("png", "image/png").is_ok());
    assert!(reglas.validar_coherencia_extension_mime("webp", "image/webp").is_ok());
    assert!(reglas.validar_coherencia_extension_mime("bmp", "image/png").is_ok());
    assert!(reglas.validar_coherencia_extension_mime("png", "image/webp").is_err());
}

#[test]
fn tamano_mensajes() {
    let reglas = ReglasImagen::default();
    let e = reglas.validar_tamano(10).unwrap_err();
    assert_eq!(e.message, "Archivo muy pequeño: 10.0 B");
    assert_eq!(detalle(&e, "min").unwrap(), "1.0 KB");
    let e = reglas.validar_tamano(30 * 1024 * 1024).unwrap_err();
    assert_eq!(e.message, "Archivo muy grande: 30.0 MB");
    assert_eq!(detalle(&e, "max").unwrap(), "20.0 MB");
    assert!(reglas.validar_tamano(1024).is_ok());
    assert!(reglas.validar_tamano(20 * 1024 * 1024).is_ok());
}

#[test]
fn extension_en_minusculas() {
    assert_eq!(obtener_extension("FOTO.PNG"), Some("png".to_string()));
    assert_eq!(obtener_extension("archivo"), None);
    assert_eq!(obtener_extension(".bashrc"), None);
    assert_eq!(obtener_extension("a.tar.GZ"), Some("gz".to_string()));
    assert_eq!(obtener_extension("dir/foto.JpEg"), Some("jpeg".to_string()));
    assert_eq!(obtener_extension("nombre."), Some("".to_string()));
}

#[test]
fn error_con_detalles_repetidos_conserva_el_ultimo() {
    let e = ImagenValidationError::with_details(
        "mensaje",
        vec![
            ("a".to_string(), "1".to_string()),
            ("b".to_string(), "2".to_string()),
            ("a".to_string(), "3".to_string()),
        ],
    );
    assert_eq!(e.message, "mensaje");
    assert_eq!(e.details.len(), 2);
    assert_eq!(detalle(&e, "a").unwrap(), "3");
    assert_eq!(detalle(&e, "b").unwrap(), "2");
    assert_eq!(e.mensaje_completo(), "mensaje | {a: 3, b: 2}");
    let simple = ImagenValidationError::new("solo mensaje");
    assert_eq!(simple.mensaje_completo(), "solo mensaje");
}

/// A JPEG with an APP1 EXIF segment right after the start-of-image marker.
fn jpeg_con_exif() -> Vec<u8> {
    let jpeg = codificar_rgb(&imagen_rgb(120, 80), ImageFormat::Jpeg);
    let mut carga: Vec<u8> = b"Exif\0\0".to_vec();
    carga.extend_from_slice(b"II*\0\x08\0\0\0");
    carga.extend_from_slice(&[0, 0, 0, 0, 0, 0]);
    let largo = (carga.len() + 2) as u16;
    let mut salida = vec![0xFF, 0xD8, 0xFF, 0xE1, (largo >> 8) as u8, largo as u8];
    salida.extend_from_slice(&carga);
    salida.extend_from_slice(&jpeg[2..]);
    salida
}

fn contiene(datos: &[u8], patron: &[u8]) -> bool {
    datos.windows(patron.len()).any(|w| w == patron)
}

#[test]
fn eliminar_exif_quita_el_segmento() {
    let con_exif = jpeg_con_exif();
    assert!(contiene(&con_exif, b"Exif"));
    let limpio = eliminar_exif(&con_exif, FormatoImagen::Jpeg).unwrap();
    assert_ne!(limpio, con_exif);
    assert!(!contiene(&limpio, b"Exif"));
    let img = image::load_from_memory_with_format(&limpio, ImageFormat::Jpeg).unwrap();
    assert_eq!((img.width(), img.height()), (120, 80));
}

#[test]
fn eliminar_exif_conserva_un_png() {
    let datos = png(64, 48);
    let limpio = eliminar_exif(&datos, FormatoImagen::Png).unwrap();
    let img = image::load_from_memory(&limpio).unwrap();
    assert_eq!((img.width(), img.height()), (64, 48));
}

#[test]
fn eliminar_exif_rechaza_datos_corruptos() {
    let e = eliminar_exif(b"no es una imagen", FormatoImagen::Png).unwrap_err();
    assert!(!e.is_empty());
}

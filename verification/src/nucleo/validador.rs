//! The rules an uploaded image must meet: name and extension, detected MIME
//! type, size in bytes, format, animation, decodability, pixel count,
//! dimensions and color mode.
use vstd::prelude::*;

use crate::nucleo::camino::{extension_de, extension_exec};
use crate::nucleo::error_imagen::{
    claves_unicas, error_con_detalle, error_simple, pares, ImagenValidationError, VistaError,
};
use crate::nucleo::externo::{
    a_minusculas, adivinar_formato, decodificacion, decodificar, es_png_animado,
    es_webp_animado, formato_detectado, mime_de_cabecera, mime_detectado, minusculas,
    png_animado, reencodificado, reencodificar, webp_animado, Decodificacion, FormatoImagen,
    TipoColor, VistaDecodificacion,
};
use crate::nucleo::tamano::{formatear_bytes, texto_tamano};
use crate::nucleo::texto::{
    concatenar, contiene_cadena, decimal, mismo_texto, recortado, recortar, texto_decimal,
    textos, unido, unir_cadenas,
};

verus! {

/// The extension of the file name or path `nombre`, in lowercase.
pub fn obtener_extension(nombre: &str) -> (r: Option<String>)
    ensures
        match r {
            Some(e) => extension_de(nombre@) matches Some(x) && e@ == minusculas(x),
            None => extension_de(nombre@) is None,
        },
{
    match extension_exec(nombre) {
        Some(e) => Some(a_minusculas(e.as_str())),
        None => None,
    }
}

/// The limits and switches an image is checked against.
#[derive(Debug)]
pub struct ReglasImagen {
    pub extensiones_permitidas: Vec<String>,
    pub mimes_permitidos: Vec<String>,
    pub max_bytes: usize,
    pub min_bytes: usize,
    pub ancho_max: u32,
    pub alto_max: u32,
    pub ancho_min: u32,
    pub alto_min: u32,
    /// Limit on the total number of pixels, against huge images.
    pub max_image_pixels: u64,
    /// Refuse animated images (APNG, animated WebP).
    pub validar_animacion: bool,
    /// Refuse grayscale images, with or without alpha.
    pub rechazar_monocromo: bool,
    /// Require the extension to agree with the detected MIME type.
    pub validar_coherencia_extension_mime: bool,
}

/// What an image that passed the checks turned out to be.
#[derive(Debug)]
pub struct InspeccionImagen {
    pub ancho: u32,
    pub alto: u32,
    pub mime: String,
    pub extension: String,
    pub bytes: usize,
    pub formato: FormatoImagen,
    pub modo: String,
}

#[verifier::ext_equal]
pub struct VistaInspeccion {
    pub ancho: u32,
    pub alto: u32,
    pub mime: Seq<char>,
    pub extension: Seq<char>,
    pub bytes: usize,
    pub formato: FormatoImagen,
    pub modo: Seq<char>,
}

impl View for InspeccionImagen {
    type V = VistaInspeccion;

    open spec fn view(&self) -> VistaInspeccion {
        VistaInspeccion {
            ancho: self.ancho,
            alto: self.alto,
            mime: self.mime@,
            extension: self.extension@,
            bytes: self.bytes,
            formato: self.formato,
            modo: self.modo@,
        }
    }
}

/// The result `r` is the one `e` describes.
pub open spec fn coincide(r: Result<(), ImagenValidationError>, e: Result<(), VistaError>) -> bool {
    match r {
        Ok(_) => e is Ok,
        Err(x) => e matches Err(y) && x@ == y,
    }
}

/// The text result `r` is the one `e` describes.
pub open spec fn coincide_texto(
    r: Result<String, ImagenValidationError>,
    e: Result<Seq<char>, VistaError>,
) -> bool {
    match r {
        Ok(s) => e matches Ok(t) && s@ == t,
        Err(x) => e matches Err(y) && x@ == y,
    }
}

pub open spec fn regla_config(r: ReglasImagen) -> Result<(), VistaError> {
    if r.max_bytes <= r.min_bytes {
        Err(error_simple("max_bytes debe ser mayor que min_bytes"@))
    } else if r.ancho_min >= r.ancho_max || r.alto_min >= r.alto_max {
        Err(error_simple("Dimensiones min/max inválidas"@))
    } else {
        Ok(())
    }
}

/// The lowercase extension of `nombre`, empty when it has none.
pub open spec fn extension_efectiva(nombre: Seq<char>) -> Seq<char> {
    match extension_de(nombre) {
        Some(x) => minusculas(x),
        None => Seq::<char>::empty(),
    }
}

pub open spec fn regla_nombre_extension(r: ReglasImagen, nombre: Seq<char>) -> Result<
    Seq<char>,
    VistaError,
> {
    if recortado(nombre).len() == 0 {
        Err(error_simple("Nombre de archivo vacío"@))
    } else {
        let ext = extension_efectiva(nombre);
        let permitidas = textos(r.extensiones_permitidas@);
        if ext.len() == 0 || !permitidas.contains(ext) {
            Err(
                error_con_detalle(
                    "Extensión no permitida: '"@ + ext + "'"@,
                    "permitidas"@,
                    unido(permitidas, ", "@),
                ),
            )
        } else {
            Ok(ext)
        }
    }
}

/// Number of leading bytes read to detect the MIME type.
pub const TAM_CABECERA: usize = 2048;

/// The leading bytes read to detect the MIME type.
pub open spec fn cabecera(datos: Seq<u8>) -> Seq<u8> {
    if datos.len() <= TAM_CABECERA {
        datos
    } else {
        datos.take(TAM_CABECERA as int)
    }
}

pub open spec fn regla_mime(r: ReglasImagen, datos: Seq<u8>) -> Result<Seq<char>, VistaError> {
    match mime_detectado(cabecera(datos)) {
        None => Err(error_simple("Formato de archivo no identificable"@)),
        Some(m) => {
            let permitidos = textos(r.mimes_permitidos@);
            if m == "image/gif"@ {
                Err(error_simple("GIF no permitido"@))
            } else if !permitidos.contains(m) {
                Err(
                    error_con_detalle(
                        "MIME no soportado: '"@ + m + "'"@,
                        "permitidos"@,
                        unido(permitidos, ", "@),
                    ),
                )
            } else {
                Ok(m)
            }
        },
    }
}

/// The extension and the MIME type agree (extensions without a known MIME
/// type agree with any).
pub open spec fn coherentes(ext: Seq<char>, mime: Seq<char>) -> bool {
    if ext == "jpg"@ || ext == "jpeg"@ {
        mime == "image/jpeg"@ || mime == "image/jpg"@
    } else if ext == "png"@ {
        mime == "image/png"@
    } else if ext == "webp"@ {
        mime == "image/webp"@
    } else {
        true
    }
}

pub open spec fn regla_coherencia(ext: Seq<char>, mime: Seq<char>) -> Result<(), VistaError> {
    if coherentes(ext, mime) {
        Ok(())
    } else {
        Err(
            VistaError {
                mensaje: "La extensión del archivo no coincide con su contenido real"@,
                detalles: seq![("extension"@, ext), ("mime_detectado"@, mime)],
            },
        )
    }
}

pub open spec fn regla_tamano(r: ReglasImagen, tam: nat) -> Result<(), VistaError> {
    if tam < r.min_bytes {
        Err(
            error_con_detalle(
                "Archivo muy pequeño: "@ + texto_tamano(tam),
                "min"@,
                texto_tamano(r.min_bytes as nat),
            ),
        )
    } else if tam > r.max_bytes {
        Err(
            error_con_detalle(
                "Archivo muy grande: "@ + texto_tamano(tam),
                "max"@,
                texto_tamano(r.max_bytes as nat),
            ),
        )
    } else {
        Ok(())
    }
}

pub open spec fn regla_formato(datos: Seq<u8>) -> Result<FormatoImagen, VistaError> {
    match formato_detectado(datos) {
        Some(f) => Ok(f),
        None => Err(error_simple("Formato de imagen no reconocido"@)),
    }
}

/// The image is an animated PNG or WebP.
pub open spec fn animada(datos: Seq<u8>, f: FormatoImagen) -> bool {
    match f {
        FormatoImagen::Png => png_animado(datos),
        FormatoImagen::WebP => webp_animado(datos),
        _ => false,
    }
}

pub open spec fn regla_animacion(r: ReglasImagen, datos: Seq<u8>, f: FormatoImagen) -> Result<
    (),
    VistaError,
> {
    if r.validar_animacion && animada(datos, f) {
        Err(error_simple("Imágenes animadas no permitidas"@))
    } else {
        Ok(())
    }
}

/// The color mode name of a pixel layout.
pub open spec fn modo_de(c: TipoColor) -> Seq<char> {
    match c {
        TipoColor::L8 | TipoColor::L16 => "L"@,
        TipoColor::La8 | TipoColor::La16 => "LA"@,
        TipoColor::Rgb8 | TipoColor::Rgb16 | TipoColor::Rgb32F => "RGB"@,
        TipoColor::Rgba8 | TipoColor::Rgba16 | TipoColor::Rgba32F => "RGBA"@,
        TipoColor::Otro => "Other"@,
    }
}

pub open spec fn regla_integridad(r: ReglasImagen, datos: Seq<u8>, f: FormatoImagen) -> Result<
    (u32, u32, Seq<char>),
    VistaError,
> {
    match decodificacion(datos, f) {
        VistaDecodificacion::ErrorEntradaSalida => Err(error_simple("Imagen corrupta o inválida"@)),
        VistaDecodificacion::NoSoportada => Err(error_simple("Formato de imagen no soportado"@)),
        VistaDecodificacion::OtroError(t) => Err(error_simple("Error decodificando imagen: "@ + t)),
        VistaDecodificacion::Imagen { ancho, alto, color } => {
            let total = ancho as nat * alto as nat;
            if total > r.max_image_pixels {
                Err(
                    error_con_detalle(
                        "Imagen excede el límite de píxeles: "@ + texto_decimal(total),
                        "max"@,
                        texto_decimal(r.max_image_pixels as nat),
                    ),
                )
            } else {
                Ok((ancho, alto, modo_de(color)))
            }
        },
    }
}

/// `a` by `b`, as `"{a}x{b}"`.
pub open spec fn por(a: nat, b: nat) -> Seq<char> {
    texto_decimal(a) + "x"@ + texto_decimal(b)
}

pub open spec fn regla_dimensiones(r: ReglasImagen, ancho: u32, alto: u32) -> Result<
    (),
    VistaError,
> {
    if ancho > r.ancho_max || alto > r.alto_max {
        Err(
            error_con_detalle(
                "Dimensiones excedidas: "@ + por(ancho as nat, alto as nat),
                "max"@,
                por(r.ancho_max as nat, r.alto_max as nat),
            ),
        )
    } else if ancho < r.ancho_min || alto < r.alto_min {
        Err(
            error_con_detalle(
                "Dimensiones insuficientes: "@ + por(ancho as nat, alto as nat),
                "min"@,
                por(r.ancho_min as nat, r.alto_min as nat),
            ),
        )
    } else {
        Ok(())
    }
}

/// A grayscale color mode, with or without alpha.
pub open spec fn modo_gris(modo: Seq<char>) -> bool {
    modo == "L"@ || modo == "LA"@
}

pub open spec fn regla_modo_color(r: ReglasImagen, modo: Seq<char>) -> Result<(), VistaError> {
    if r.rechazar_monocromo && modo_gris(modo) {
        Err(error_con_detalle("Imagen monocromática no permitida"@, "modo"@, modo))
    } else {
        Ok(())
    }
}

/// All checks up to the dimensions, in order; the first that fails gives
/// the error.
pub open spec fn regla_inspeccion(r: ReglasImagen, datos: Seq<u8>, nombre: Seq<char>) -> Result<
    VistaInspeccion,
    VistaError,
> {
    if datos.len() == 0 {
        Err(error_simple("Archivo no proporcionado"@))
    } else {
        match regla_nombre_extension(r, nombre) {
            Err(e) => Err(e),
            Ok(ext) => match regla_mime(r, datos) {
                Err(e) => Err(e),
                Ok(mime) => match (if r.validar_coherencia_extension_mime {
                    regla_coherencia(ext, mime)
                } else {
                    Ok(())
                }) {
                    Err(e) => Err(e),
                    Ok(_) => match regla_tamano(r, datos.len()) {
                        Err(e) => Err(e),
                        Ok(_) => match regla_formato(datos) {
                            Err(e) => Err(e),
                            Ok(f) => match regla_animacion(r, datos, f) {
                                Err(e) => Err(e),
                                Ok(_) => match regla_integridad(r, datos, f) {
                                    Err(e) => Err(e),
                                    Ok((ancho, alto, modo)) => match regla_dimensiones(
                                        r,
                                        ancho,
                                        alto,
                                    ) {
                                        Err(e) => Err(e),
                                        Ok(_) => Ok(
                                            VistaInspeccion {
                                                ancho,
                                                alto,
                                                mime,
                                                extension: ext,
                                                bytes: datos.len() as usize,
                                                formato: f,
                                                modo,
                                            },
                                        ),
                                    },
                                },
                            },
                        },
                    },
                },
            },
        }
    }
}

/// An error with one detail.
fn error_detalle(mensaje: &str, clave: &str, valor: String) -> (r: ImagenValidationError)
    ensures
        r@ == error_con_detalle(mensaje@, clave@, valor@),
{
    let mut detalles: Vec<(String, String)> = Vec::new();
    detalles.push((clave.to_owned(), valor));
    let r = ImagenValidationError::with_details(mensaje, detalles);
    assert(pares(detalles@) =~= seq![(clave@, valor@)]);
    r
}

/// The color mode name of a pixel layout.
fn modo_color(c: TipoColor) -> (r: &'static str)
    ensures
        r@ == modo_de(c),
{
    match c {
        TipoColor::L8 | TipoColor::L16 => "L",
        TipoColor::La8 | TipoColor::La16 => "LA",
        TipoColor::Rgb8 | TipoColor::Rgb16 | TipoColor::Rgb32F => "RGB",
        TipoColor::Rgba8 | TipoColor::Rgba16 | TipoColor::Rgba32F => "RGBA",
        TipoColor::Otro => "Other",
    }
}

/// `a` by `b`, as `"{a}x{b}"`.
fn por_exec(a: u32, b: u32) -> (r: String)
    ensures
        r@ == por(a as nat, b as nat),
{
    let x = decimal(a as u128);
    let x = concatenar(x.as_str(), "x");
    let y = decimal(b as u128);
    concatenar(x.as_str(), y.as_str())
}

impl ReglasImagen {
    /// Checks that the limits make sense: more bytes allowed at most than at
    /// least, and minimum dimensions below the maximum ones.
    pub fn validate(&self) -> (r: Result<(), ImagenValidationError>)
        ensures
            coincide(r, regla_config(*self)),
    {
        if self.max_bytes <= self.min_bytes {
            return Err(ImagenValidationError::new("max_bytes debe ser mayor que min_bytes"));
        }
        if self.ancho_min >= self.ancho_max || self.alto_min >= self.alto_max {
            return Err(ImagenValidationError::new("Dimensiones min/max inválidas"));
        }
        Ok(())
    }

    /// The name is not blank and has an allowed extension; gives the
    /// extension in lowercase.
    pub fn validar_nombre_extension(&self, nombre: &str) -> (r: Result<
        String,
        ImagenValidationError,
    >)
        ensures
            coincide_texto(r, regla_nombre_extension(*self, nombre@)),
    {
        let limpio = recortar(nombre);
        if limpio.as_str().is_empty() {
            return Err(ImagenValidationError::new("Nombre de archivo vacío"));
        }
        let ext = match obtener_extension(nombre) {
            Some(e) => e,
            None => String::new(),
        };
        if ext.as_str().is_empty() || !contiene_cadena(&self.extensiones_permitidas, &ext) {
            let m = concatenar("Extensión no permitida: '", ext.as_str());
            let m = concatenar(m.as_str(), "'");
            let lista = unir_cadenas(&self.extensiones_permitidas, ", ");
            return Err(error_detalle(m.as_str(), "permitidas", lista));
        }
        Ok(ext)
    }

    /// The MIME type detected from the first 2 KB of `datos` is known, not
    /// GIF, and allowed; gives it.
    pub fn validar_mime_rapido(&self, datos: &[u8]) -> (r: Result<String, ImagenValidationError>)
        ensures
            coincide_texto(r, regla_mime(*self, datos@)),
    {
        let n = if datos.len() <= TAM_CABECERA {
            datos.len()
        } else {
            TAM_CABECERA
        };
        let cab = vstd::slice::slice_subrange(datos, 0, n);
        proof {
            if datos@.len() <= TAM_CABECERA {
                assert(cab@ =~= datos@);
            } else {
                assert(cab@ =~= datos@.take(TAM_CABECERA as int));
            }
        }
        let mime = match mime_de_cabecera(cab) {
            Some(m) => m,
            None => {
                return Err(ImagenValidationError::new("Formato de archivo no identificable"));
            },
        };
        if mismo_texto(mime.as_str(), "image/gif") {
            return Err(ImagenValidationError::new("GIF no permitido"));
        }
        if !contiene_cadena(&self.mimes_permitidos, &mime) {
            let m = concatenar("MIME no soportado: '", mime.as_str());
            let m = concatenar(m.as_str(), "'");
            let lista = unir_cadenas(&self.mimes_permitidos, ", ");
            return Err(error_detalle(m.as_str(), "permitidos", lista));
        }
        Ok(mime)
    }

    /// The extension agrees with the MIME type detected from the content,
    /// against files with a forged extension.
    pub fn validar_coherencia_extension_mime(&self, ext: &str, mime: &str) -> (r: Result<
        (),
        ImagenValidationError,
    >)
        ensures
            coincide(r, regla_coherencia(ext@, mime@)),
    {
        let coherente = if mismo_texto(ext, "jpg") || mismo_texto(ext, "jpeg") {
            mismo_texto(mime, "image/jpeg") || mismo_texto(mime, "image/jpg")
        } else if mismo_texto(ext, "png") {
            mismo_texto(mime, "image/png")
        } else if mismo_texto(ext, "webp") {
            mismo_texto(mime, "image/webp")
        } else {
            true
        };
        if !coherente {
            let mut detalles: Vec<(String, String)> = Vec::new();
            detalles.push(("extension".to_owned(), ext.to_owned()));
            detalles.push(("mime_detectado".to_owned(), mime.to_owned()));
            proof {
                reveal_strlit("extension");
                reveal_strlit("mime_detectado");
                assert(pares(detalles@) =~= seq![("extension"@, ext@), ("mime_detectado"@, mime@)]);
                assert("extension"@ != "mime_detectado"@) by {
                    assert("extension"@.len() != "mime_detectado"@.len());
                }
            }
            let e = ImagenValidationError::with_details(
                "La extensión del archivo no coincide con su contenido real",
                detalles,
            );
            return Err(e);
        }
        Ok(())
    }

    /// The size in bytes lies within the configured range.
    pub fn validar_tamano(&self, size: usize) -> (r: Result<(), ImagenValidationError>)
        ensures
            coincide(r, regla_tamano(*self, size as nat)),
    {
        if size < self.min_bytes {
            let m = concatenar("Archivo muy pequeño: ", formatear_bytes(size).as_str());
            return Err(error_detalle(m.as_str(), "min", formatear_bytes(self.min_bytes)));
        }
        if size > self.max_bytes {
            let m = concatenar("Archivo muy grande: ", formatear_bytes(size).as_str());
            return Err(error_detalle(m.as_str(), "max", formatear_bytes(self.max_bytes)));
        }
        Ok(())
    }

    /// The image format recognised from the content.
    pub fn detectar_formato(&self, datos: &[u8]) -> (r: Result<
        FormatoImagen,
        ImagenValidationError,
    >)
        ensures
            match regla_formato(datos@) {
                Ok(f) => r == Ok::<FormatoImagen, ImagenValidationError>(f),
                Err(e) => r matches Err(x) && x@ == e,
            },
    {
        match adivinar_formato(datos) {
            Some(f) => Ok(f),
            None => Err(ImagenValidationError::new("Formato de imagen no reconocido")),
        }
    }

    /// Refuses animated PNG and WebP images when so configured.
    pub fn validar_animacion(&self, datos: &[u8], formato: FormatoImagen) -> (r: Result<
        (),
        ImagenValidationError,
    >)
        ensures
            coincide(r, regla_animacion(*self, datos@, formato)),
    {
        if !self.validar_animacion {
            return Ok(());
        }
        if self.es_imagen_animada(datos, formato) {
            return Err(ImagenValidationError::new("Imágenes animadas no permitidas"));
        }
        Ok(())
    }

    /// Whether `datos` is an animated image (only PNG and WebP can be).
    pub fn es_imagen_animada(&self, datos: &[u8], formato: FormatoImagen) -> (r: bool)
        ensures
            r == animada(datos@, formato),
    {
        match formato {
            FormatoImagen::Png => es_png_animado(datos),
            FormatoImagen::WebP => es_webp_animado(datos),
            _ => false,
        }
    }

    /// Decodes the whole image, checks its pixel count and gives its width,
    /// height and color mode.
    pub fn validar_integridad_profunda(&self, datos: &[u8], formato: FormatoImagen) -> (r: Result<
        (u32, u32, String),
        ImagenValidationError,
    >)
        ensures
            match regla_integridad(*self, datos@, formato) {
                Ok((a, h, m)) => r matches Ok((a2, h2, m2)) && a2 == a && h2 == h && m2@ == m,
                Err(e) => r matches Err(x) && x@ == e,
            },
    {
        match decodificar(datos, formato) {
            Decodificacion::ErrorEntradaSalida => Err(
                ImagenValidationError::new("Imagen corrupta o inválida"),
            ),
            Decodificacion::NoSoportada => Err(
                ImagenValidationError::new("Formato de imagen no soportado"),
            ),
            Decodificacion::OtroError(t) => {
                let m = concatenar("Error decodificando imagen: ", t.as_str());
                Err(ImagenValidationError::new(m.as_str()))
            },
            Decodificacion::Imagen { ancho, alto, color } => {
                assert(ancho as u64 * alto as u64 <= 0xFFFF_FFFF * 0xFFFF_FFFF) by (nonlinear_arith)
                    requires
                        ancho <= 0xFFFF_FFFF,
                        alto <= 0xFFFF_FFFF,
                ;
                let total = ancho as u64 * alto as u64;
                if total > self.max_image_pixels {
                    let m = concatenar(
                        "Imagen excede el límite de píxeles: ",
                        decimal(total as u128).as_str(),
                    );
                    return Err(
                        error_detalle(m.as_str(), "max", decimal(self.max_image_pixels as u128)),
                    );
                }
                Ok((ancho, alto, modo_color(color).to_owned()))
            },
        }
    }

    /// Width and height lie within the configured limits.
    pub fn validar_dimensiones(&self, ancho: u32, alto: u32) -> (r: Result<
        (),
        ImagenValidationError,
    >)
        ensures
            coincide(r, regla_dimensiones(*self, ancho, alto)),
    {
        if ancho > self.ancho_max || alto > self.alto_max {
            let m = concatenar("Dimensiones excedidas: ", por_exec(ancho, alto).as_str());
            return Err(error_detalle(m.as_str(), "max", por_exec(self.ancho_max, self.alto_max)));
        }
        if ancho < self.ancho_min || alto < self.alto_min {
            let m = concatenar("Dimensiones insuficientes: ", por_exec(ancho, alto).as_str());
            return Err(error_detalle(m.as_str(), "min", por_exec(self.ancho_min, self.alto_min)));
        }
        Ok(())
    }

    /// Refuses grayscale images (`"L"` or `"LA"` mode) when so configured.
    pub fn validar_modo_color(&self, modo: &str) -> (r: Result<(), ImagenValidationError>)
        ensures
            coincide(r, regla_modo_color(*self, modo@)),
    {
        if self.rechazar_monocromo && (mismo_texto(modo, "L") || mismo_texto(modo, "LA")) {
            return Err(error_detalle("Imagen monocromática no permitida", "modo", modo.to_owned()));
        }
        Ok(())
    }

    /// Runs, in order, every check that needs no floating point: name and
    /// extension, MIME type, their agreement (when so configured), size,
    /// format, animation, decoding and pixel count, dimensions. Cheap checks
    /// come first so that invalid files are refused before decoding.
    pub fn inspeccionar(&self, datos: &[u8], filename: &str) -> (r: Result<
        InspeccionImagen,
        ImagenValidationError,
    >)
        ensures
            match regla_inspeccion(*self, datos@, filename@) {
                Ok(v) => r matches Ok(i) && i@ == v,
                Err(e) => r matches Err(x) && x@ == e,
            },
    {
        if datos.len() == 0 {
            return Err(ImagenValidationError::new("Archivo no proporcionado"));
        }
        let ext = self.validar_nombre_extension(filename)?;
        let mime = self.validar_mime_rapido(datos)?;
        if self.validar_coherencia_extension_mime {
            self.validar_coherencia_extension_mime(ext.as_str(), mime.as_str())?;
        }
        self.validar_tamano(datos.len())?;
        let formato = self.detectar_formato(datos)?;
        self.validar_animacion(datos, formato)?;
        let (ancho, alto, modo) = self.validar_integridad_profunda(datos, formato)?;
        self.validar_dimensiones(ancho, alto)?;
        Ok(
            InspeccionImagen {
                ancho,
                alto,
                mime,
                extension: ext,
                bytes: datos.len(),
                formato,
                modo,
            },
        )
    }
}

/// The image in `data` decoded as `formato` and encoded again in the same
/// format, which leaves out the metadata the decoder does not keep, EXIF
/// among it; on failure, the text of the decoding or encoding error.
pub fn eliminar_exif(data: &[u8], formato: FormatoImagen) -> (r: Result<Vec<u8>, String>)
    ensures
        match reencodificado(data@, formato) {
            Ok(v) => r matches Ok(w) && w@ == v,
            Err(t) => r matches Err(m) && m@ == t,
        },
{
    reencodificar(data, formato)
}

/// The default limits.
pub open spec fn reglas_por_defecto(r: ReglasImagen) -> bool {
    &&& textos(r.extensiones_permitidas@) == seq!["jpg"@, "jpeg"@, "png"@, "webp"@]
    &&& textos(r.mimes_permitidos@) == seq![
        "image/jpeg"@,
        "image/jpg"@,
        "image/png"@,
        "image/webp"@,
    ]
    &&& r.max_bytes == 20 * 1024 * 1024
    &&& r.min_bytes == 1024
    &&& r.ancho_max == 8000
    &&& r.alto_max == 8000
    &&& r.ancho_min == 100
    &&& r.alto_min == 100
    &&& r.max_image_pixels == 30_000_000
    &&& r.validar_animacion
    &&& !r.rechazar_monocromo
    &&& r.validar_coherencia_extension_mime
}

impl Default for ReglasImagen {
    fn default() -> (r: Self)
        ensures
            reglas_por_defecto(r),
    {
        let mut extensiones: Vec<String> = Vec::new();
        extensiones.push("jpg".to_owned());
        extensiones.push("jpeg".to_owned());
        extensiones.push("png".to_owned());
        extensiones.push("webp".to_owned());
        let mut mimes: Vec<String> = Vec::new();
        mimes.push("image/jpeg".to_owned());
        mimes.push("image/jpg".to_owned());
        mimes.push("image/png".to_owned());
        mimes.push("image/webp".to_owned());
        let r = ReglasImagen {
            extensiones_permitidas: extensiones,
            mimes_permitidos: mimes,
            max_bytes: 20 * 1024 * 1024,
            min_bytes: 1024,
            ancho_max: 8000,
            alto_max: 8000,
            ancho_min: 100,
            alto_min: 100,
            max_image_pixels: 30_000_000,
            validar_animacion: true,
            rechazar_monocromo: false,
            validar_coherencia_extension_mime: true,
        };
        assert(textos(r.extensiones_permitidas@) =~= seq!["jpg"@, "jpeg"@, "png"@, "webp"@]);
        assert(textos(r.mimes_permitidos@) =~= seq![
            "image/jpeg"@,
            "image/jpg"@,
            "image/png"@,
            "image/webp"@,
        ]);
        r
    }
}

} // verus!

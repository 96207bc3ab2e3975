//! What the validator learns from the `image` and `infer` crates and from
//! Unicode case mapping, behind trusted items. Each result that depends on
//! its arguments alone is named by a specification function without a body.
use vstd::prelude::*;

use image::ColorType as C;
use image::ImageFormat as F;

verus! {

/// Image formats that can be recognised from the first bytes of a file.
#[derive(Debug, Clone, Copy, PartialEq, Eq, Structural)]
pub enum FormatoImagen {
    Png,
    Jpeg,
    Gif,
    WebP,
    Pnm,
    Tiff,
    Tga,
    Dds,
    Bmp,
    Ico,
    Hdr,
    OpenExr,
    Farbfeld,
    Avif,
    Qoi,
}

/// Pixel layouts a decoded image can have.
#[derive(Debug, Clone, Copy, PartialEq, Eq, Structural)]
pub enum TipoColor {
    L8,
    La8,
    Rgb8,
    Rgba8,
    L16,
    La16,
    Rgb16,
    Rgba16,
    Rgb32F,
    Rgba32F,
    /// A layout not listed above.
    Otro,
}

/// What decoding a whole image gave.
#[derive(Debug)]
pub enum Decodificacion {
    Imagen { ancho: u32, alto: u32, color: TipoColor },
    /// The decoder reported an input/output error.
    ErrorEntradaSalida,
    /// The decoder does not support the image.
    NoSoportada,
    /// Any other decoding error, with its message.
    OtroError(String),
}

pub enum VistaDecodificacion {
    Imagen { ancho: u32, alto: u32, color: TipoColor },
    ErrorEntradaSalida,
    NoSoportada,
    OtroError(Seq<char>),
}

impl Decodificacion {
    pub open spec fn vista(&self) -> VistaDecodificacion {
        match self {
            Decodificacion::Imagen { ancho, alto, color } => VistaDecodificacion::Imagen {
                ancho: *ancho,
                alto: *alto,
                color: *color,
            },
            Decodificacion::ErrorEntradaSalida => VistaDecodificacion::ErrorEntradaSalida,
            Decodificacion::NoSoportada => VistaDecodificacion::NoSoportada,
            Decodificacion::OtroError(m) => VistaDecodificacion::OtroError(m@),
        }
    }
}

#[verifier::external_type_specification]
#[verifier::external_body]
pub struct ExImageFormat(image::ImageFormat);

#[verifier::external_type_specification]
#[verifier::external_body]
pub struct ExColorType(image::ColorType);

/// The format that `image::guess_format` recognises from the magic bytes at
/// the start of `datos`, if any.
pub uninterp spec fn formato_detectado(datos: Seq<u8>) -> Option<FormatoImagen>;

/// What `image::load_from_memory_with_format` gives for `datos` read as
/// `formato`: the size and pixel layout of the image, or the kind of error.
pub uninterp spec fn decodificacion(datos: Seq<u8>, formato: FormatoImagen) -> VistaDecodificacion;

/// Whether `image`'s PNG decoder reads `datos` as an animated PNG (APNG);
/// `false` when the decoder cannot read the header.
pub uninterp spec fn png_animado(datos: Seq<u8>) -> bool;

/// Whether `image`'s WebP decoder reads `datos` as an animated WebP;
/// `false` when the decoder cannot read the header.
pub uninterp spec fn webp_animado(datos: Seq<u8>) -> bool;

/// The MIME type that `infer::get` finds from the bytes `cabecera`, if any.
pub uninterp spec fn mime_detectado(cabecera: Seq<u8>) -> Option<Seq<char>>;

/// What decoding `datos` as `formato` (`image::load_from_memory_with_format`)
/// and encoding the decoded image again in the same format
/// (`DynamicImage::write_to`) gives: the new bytes, or the text of the error.
pub uninterp spec fn reencodificado(datos: Seq<u8>, formato: FormatoImagen) -> Result<
    Seq<u8>,
    Seq<char>,
>;

/// `s` in lowercase, as `str::to_lowercase` maps it (full Unicode case mapping).
pub uninterp spec fn minusculas(s: Seq<char>) -> Seq<char>;

/// `b` starts with the bytes `firma`.
pub open spec fn empieza_por(b: Seq<u8>, firma: Seq<u8>) -> bool {
    firma.len() <= b.len() && b.take(firma.len() as int) == firma
}

/// `b` holds `RIFF` at its start and `WEBP` at bytes 8 to 11.
pub open spec fn firma_webp(b: Seq<u8>) -> bool {
    &&& empieza_por(b, seq![0x52u8, 0x49, 0x46, 0x46])
    &&& b.len() >= 12
    &&& b.subrange(8, 12) == seq![0x57u8, 0x45, 0x42, 0x50]
}

/// The format of the first rows of `image::guess_format`'s magic-byte
/// table, which no earlier row can take: the PNG signature, `FF D8 FF`
/// (JPEG), `GIF87a` or `GIF89a`, and the WebP signature.
pub open spec fn formato_por_firma(b: Seq<u8>) -> Option<FormatoImagen> {
    if empieza_por(b, seq![0x89u8, 0x50, 0x4E, 0x47, 0x0D, 0x0A, 0x1A, 0x0A]) {
        Some(FormatoImagen::Png)
    } else if empieza_por(b, seq![0xFFu8, 0xD8, 0xFF]) {
        Some(FormatoImagen::Jpeg)
    } else if empieza_por(b, seq![0x47u8, 0x49, 0x46, 0x38, 0x39, 0x61]) || empieza_por(
        b,
        seq![0x47u8, 0x49, 0x46, 0x38, 0x37, 0x61],
    ) {
        Some(FormatoImagen::Gif)
    } else if firma_webp(b) {
        Some(FormatoImagen::WebP)
    } else {
        None
    }
}

/// `b` holds `BOOKMOBI` at bytes 60 to 67, which `infer` reads as a
/// Mobipocket book before it tries any image matcher.
pub open spec fn firma_mobi(b: Seq<u8>) -> bool {
    b.len() > 67 && b.subrange(60, 68) == seq![0x42u8, 0x4F, 0x4F, 0x4B, 0x4D, 0x4F, 0x42, 0x49]
}

/// The MIME type that `infer::get` gives for a header that starts with the
/// JPEG (`FF D8 FF`), PNG (`89 50 4E 47`), GIF (`47 49 46`) or WebP
/// (`RIFF`, then `WEBP` at byte 8) signature and is not a Mobipocket book:
/// no matcher that `infer` tries before the image ones accepts such a start.
pub open spec fn mime_por_firma(b: Seq<u8>) -> Option<Seq<char>> {
    if firma_mobi(b) {
        None
    } else if empieza_por(b, seq![0xFFu8, 0xD8, 0xFF]) {
        Some("image/jpeg"@)
    } else if empieza_por(b, seq![0x89u8, 0x50, 0x4E, 0x47]) {
        Some("image/png"@)
    } else if empieza_por(b, seq![0x47u8, 0x49, 0x46]) {
        Some("image/gif"@)
    } else if firma_webp(b) {
        Some("image/webp"@)
    } else {
        None
    }
}

/// An ASCII character.
pub open spec fn es_ascii(c: char) -> bool {
    c as u32 <= 0x7F
}

/// An ASCII character in lowercase: `A` to `Z` become `a` to `z`.
pub open spec fn minuscula_ascii(c: char) -> char {
    if 'A' <= c <= 'Z' {
        ((c as u32) + 32) as char
    } else {
        c
    }
}

/// Turns `image::ImageFormat` into the library's enum, variant by variant
/// (the first eight here, the rest in `formato_propio_resto`).
#[verifier::external_body]
fn formato_propio(f: image::ImageFormat) -> Option<FormatoImagen> {
    match f {
        F::Png => Some(FormatoImagen::Png),
        F::Jpeg => Some(FormatoImagen::Jpeg),
        F::Gif => Some(FormatoImagen::Gif),
        F::WebP => Some(FormatoImagen::WebP),
        F::Pnm => Some(FormatoImagen::Pnm),
        F::Tiff => Some(FormatoImagen::Tiff),
        F::Tga => Some(FormatoImagen::Tga),
        F::Dds => Some(FormatoImagen::Dds),
        _ => formato_propio_resto(f),
    }
}

/// The remaining variants of `image::ImageFormat`; any other is `None`.
#[verifier::external_body]
fn formato_propio_resto(f: image::ImageFormat) -> Option<FormatoImagen> {
    match f {
        F::Bmp => Some(FormatoImagen::Bmp),
        F::Ico => Some(FormatoImagen::Ico),
        F::Hdr => Some(FormatoImagen::Hdr),
        F::OpenExr => Some(FormatoImagen::OpenExr),
        F::Farbfeld => Some(FormatoImagen::Farbfeld),
        F::Avif => Some(FormatoImagen::Avif),
        F::Qoi => Some(FormatoImagen::Qoi),
        _ => None,
    }
}

/// Turns the library's format enum into `image::ImageFormat`, variant by
/// variant (the first eight here, the rest in `formato_externo_resto`).
#[verifier::external_body]
fn formato_externo(f: FormatoImagen) -> image::ImageFormat {
    match f {
        FormatoImagen::Png => F::Png,
        FormatoImagen::Jpeg => F::Jpeg,
        FormatoImagen::Gif => F::Gif,
        FormatoImagen::WebP => F::WebP,
        FormatoImagen::Pnm => F::Pnm,
        FormatoImagen::Tiff => F::Tiff,
        FormatoImagen::Tga => F::Tga,
        FormatoImagen::Dds => F::Dds,
        _ => formato_externo_resto(f),
    }
}

/// The remaining variants of the library's format enum.
#[verifier::external_body]
fn formato_externo_resto(f: FormatoImagen) -> image::ImageFormat {
    match f {
        FormatoImagen::Bmp => F::Bmp,
        FormatoImagen::Ico => F::Ico,
        FormatoImagen::Hdr => F::Hdr,
        FormatoImagen::OpenExr => F::OpenExr,
        FormatoImagen::Farbfeld => F::Farbfeld,
        FormatoImagen::Avif => F::Avif,
        _ => F::Qoi,
    }
}

/// Turns `image::ColorType` into the library's enum, variant by variant.
#[verifier::external_body]
fn color_propio(c: image::ColorType) -> TipoColor {
    match c {
        C::L8 => TipoColor::L8,
        C::La8 => TipoColor::La8,
        C::Rgb8 => TipoColor::Rgb8,
        C::Rgba8 => TipoColor::Rgba8,
        C::L16 => TipoColor::L16,
        C::La16 => TipoColor::La16,
        C::Rgb16 => TipoColor::Rgb16,
        C::Rgba16 => TipoColor::Rgba16,
        C::Rgb32F => TipoColor::Rgb32F,
        C::Rgba32F => TipoColor::Rgba32F,
        _ => TipoColor::Otro,
    }
}

/// Calls `image::guess_format`; the result is named `formato_detectado`.
/// For the signatures of `formato_por_firma`, the table's first rows, the
/// format is stated.
#[verifier::external_body]
pub(crate) fn adivinar_formato(datos: &[u8]) -> (r: Option<FormatoImagen>)
    ensures
        r == formato_detectado(datos@),
        formato_por_firma(datos@) is Some ==> r == formato_por_firma(datos@),
{
    match image::guess_format(datos) {
        Ok(f) => formato_propio(f),
        Err(_) => None,
    }
}

/// Calls `image::load_from_memory_with_format` and reads the decoded image's
/// width, height and color type; the result is named `decodificacion`.
#[verifier::external_body]
pub(crate) fn decodificar(datos: &[u8], formato: FormatoImagen) -> (r: Decodificacion)
    ensures
        r.vista() == decodificacion(datos@, formato),
{
    match image::load_from_memory_with_format(datos, formato_externo(formato)) {
        Ok(img) => Decodificacion::Imagen {
            ancho: img.width(),
            alto: img.height(),
            color: color_propio(img.color()),
        },
        Err(image::ImageError::IoError(_)) => Decodificacion::ErrorEntradaSalida,
        Err(image::ImageError::Unsupported(_)) => Decodificacion::NoSoportada,
        Err(e) => Decodificacion::OtroError(e.to_string()),
    }
}

/// Opens `datos` with `image::codecs::png::PngDecoder::new` and asks
/// `is_apng`; a decoder or query error counts as not animated. The result is
/// named `png_animado`.
#[verifier::external_body]
pub(crate) fn es_png_animado(datos: &[u8]) -> (r: bool)
    ensures
        r == png_animado(datos@),
{
    match image::codecs::png::PngDecoder::new(std::io::Cursor::new(datos)) {
        Ok(d) => d.is_apng().unwrap_or(false),
        Err(_) => false,
    }
}

/// Opens `datos` with `image::codecs::webp::WebPDecoder::new` and asks
/// `has_animation`; a decoder error counts as not animated. The result is
/// named `webp_animado`.
#[verifier::external_body]
pub(crate) fn es_webp_animado(datos: &[u8]) -> (r: bool)
    ensures
        r == webp_animado(datos@),
{
    match image::codecs::webp::WebPDecoder::new(std::io::Cursor::new(datos)) {
        Ok(d) => d.has_animation(),
        Err(_) => false,
    }
}

/// Calls `infer::get` and reads the MIME type of what it found; the result
/// is named `mime_detectado`. For the image signatures of `mime_por_firma`
/// the MIME type is stated.
#[verifier::external_body]
pub(crate) fn mime_de_cabecera(cabecera: &[u8]) -> (r: Option<String>)
    ensures
        match r {
            Some(m) => mime_detectado(cabecera@) == Some(m@) && (mime_por_firma(cabecera@) is None
                || mime_por_firma(cabecera@) == Some(m@)),
            None => mime_detectado(cabecera@) is None && mime_por_firma(cabecera@) is None,
        },
{
    match infer::get(cabecera) {
        Some(tipo) => Some(tipo.mime_type().to_string()),
        None => None,
    }
}

/// Calls `str::to_lowercase`; the result is named `minusculas`. On ASCII
/// text the mapping is stated: `A` to `Z` become `a` to `z`, every other
/// character stays.
#[verifier::external_body]
pub(crate) fn a_minusculas(s: &str) -> (r: String)
    ensures
        r@ == minusculas(s@),
        (forall|i: int| 0 <= i < s@.len() ==> es_ascii(#[trigger] s@[i])) ==> r@ == s@.map_values(
            |c: char| minuscula_ascii(c),
        ),
{
    s.to_lowercase()
}

/// Decodes `datos` as `formato` with `image::load_from_memory_with_format`
/// and writes the image again in the same format with
/// `DynamicImage::write_to` into memory; an error becomes its text. The
/// result is named `reencodificado`.
#[verifier::external_body]
pub(crate) fn reencodificar(datos: &[u8], formato: FormatoImagen) -> (r: Result<Vec<u8>, String>)
    ensures
        match r {
            Ok(v) => reencodificado(datos@, formato) == Ok::<Seq<u8>, Seq<char>>(v@),
            Err(t) => reencodificado(datos@, formato) == Err::<Seq<u8>, Seq<char>>(t@),
        },
{
    let f = formato_externo(formato);
    let imagen = match image::load_from_memory_with_format(datos, f) {
        Ok(i) => i,
        Err(e) => return Err(e.to_string()),
    };
    let mut salida = std::io::Cursor::new(Vec::new());
    match imagen.write_to(&mut salida, f) {
        Ok(()) => Ok(salida.into_inner()),
        Err(e) => Err(e.to_string()),
    }
}

} // verus!

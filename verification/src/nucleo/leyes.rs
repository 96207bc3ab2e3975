//! Properties of the library as a whole, stated over the specifications
//! that its functions' contracts use, and proved.
use vstd::prelude::*;

use crate::nucleo::camino::{
    clasificar, componentes, con_raiz, extension_de, extension_nombre, lema_ultimo_punto,
    lema_ultimo_punto_rango, nombre_final, ultimo_punto, es_doble_punto, es_punto, filtrar, filtrar_resto,
    lema_componentes_nombre_simple, lema_filtrar_concat, lema_nombres_concat,
    lema_trozos_concat, lema_trozos_no_vacio, nombre_simple, nombres_normales, normales,
    prefijo_raiz, trozos, Componente,
};
use crate::nucleo::externo::{
    decodificacion, formato_detectado, mime_detectado, png_animado, webp_animado, FormatoImagen,
    TipoColor, VistaDecodificacion,
};
use crate::nucleo::nombre_archivo::{
    caracter_prohibido, forma_uuid_v4, nombre_generado_para, regla_nombre, sufijo_extension,
    tiene_prohibido, NombreArchivoError,
};
use crate::nucleo::ruta::{
    base_por_defecto, texto_directorio, DirectorioImagenes, ErrorRuta,
    algun_normal_largo, con_barras_web, regla_resolucion, regla_ruta_codificada, es_normal_largo, regla_ruta, tiene_prefijo, unir,
    MAX_LONGITUD_COMPONENTE, MAX_LONGITUD_RUTA,
};
use crate::nucleo::texto::{
    es_blanco, lema_der_sin_blanco_final, lema_izq_sin_blanco_inicial, lema_longitud_empujar,
    lema_recortado_idempotente, lema_utf8_concat, longitud_utf8, recortado, sin_blancos_der,
    sin_blancos_izq, textos,
};
use crate::nucleo::validador::{
    animada, cabecera, coherentes, extension_efectiva, modo_de, regla_animacion, regla_coherencia,
    regla_config, regla_inspeccion, reglas_por_defecto, ReglasImagen,
};

verus! {

/// Validation reports `Invalido` only for a name that holds a character
/// file systems forbid: a name that meets the other rules is read as a
/// single normal file name, so the structure rule never refuses it.
pub proof fn ley_invalido_solo_por_caracteres_prohibidos(n: Seq<char>)
    ensures
        regla_nombre(n) == Err::<(), NombreArchivoError>(NombreArchivoError::Invalido)
            ==> tiene_prohibido(n),
{
    if n.len() > 0 && !(n.contains('/') || n.contains('\\')) && !(n == seq!['.'] || n == seq![
        '.',
        '.',
    ]) {
        assert(!es_punto(n)) by {
            if es_punto(n) {
                assert(n =~= seq!['.']);
            }
        }
        assert(!es_doble_punto(n)) by {
            if es_doble_punto(n) {
                assert(n =~= seq!['.', '.']);
            }
        }
        assert(nombre_simple(n));
        lema_componentes_nombre_simple(n);
    }
}

/// Fixing a name that was already fixed gives it back unchanged and accepts
/// it: what `NombreArchivo::fijo` keeps passes `fijo` again as it is.
pub proof fn ley_nombre_fijo_estable(n: Seq<char>)
    ensures
        recortado(recortado(n)) == recortado(n),
        regla_nombre(recortado(recortado(n))) == regla_nombre(recortado(n)),
{
    lema_recortado_idempotente(n);
}

/// The web form of a path holds no `\`, keeps its length, and is its own
/// web form.
pub proof fn ley_ruta_web_sin_barra_invertida(s: Seq<char>)
    ensures
        !con_barras_web(s).contains('\\'),
        con_barras_web(s).len() == s.len(),
        con_barras_web(con_barras_web(s)) == con_barras_web(s),
{
    let w = con_barras_web(s);
    assert forall|i: int| 0 <= i < w.len() implies w[i] != '\\' by {}
    assert(con_barras_web(w) =~= w);
}

/// The web form of a path changes only backslashes: each `\\` becomes `/`
/// and every other character stays where it was.
pub proof fn ley_ruta_web_solo_cambia_barras_invertidas(s: Seq<char>)
    ensures
        con_barras_web(s).len() == s.len(),
        forall|i: int|
            0 <= i < s.len() ==> #[trigger] con_barras_web(s)[i] == (if s[i] == '\\' {
                '/'
            } else {
                s[i]
            }),
        forall|i: int|
            0 <= i < s.len() && s[i] != '\\' ==> #[trigger] con_barras_web(s)[i] == s[i],
{
}

/// The default limits are coherent: `validate` accepts them.
pub proof fn ley_reglas_por_defecto_coherentes(r: ReglasImagen)
    requires
        reglas_por_defecto(r),
    ensures
        regla_config(r) is Ok,
{
}

/// A GIF never passes inspection, whatever the configuration allows.
pub proof fn ley_gif_siempre_rechazado(r: ReglasImagen, datos: Seq<u8>, nombre: Seq<char>)
    requires
        mime_detectado(cabecera(datos)) == Some("image/gif"@),
    ensures
        regla_inspeccion(r, datos, nombre) is Err,
{
}

/// An image that passes inspection meets every configured limit: an allowed
/// extension and MIME type that agree (when so configured), a size in
/// bytes, dimensions and a pixel count within range.
pub proof fn ley_inspeccion_cumple_limites(r: ReglasImagen, datos: Seq<u8>, nombre: Seq<char>)
    ensures
        regla_inspeccion(r, datos, nombre) matches Ok(v) ==> {
            &&& textos(r.extensiones_permitidas@).contains(v.extension)
            &&& textos(r.mimes_permitidos@).contains(v.mime)
            &&& v.mime != "image/gif"@
            &&& r.validar_coherencia_extension_mime ==> coherentes(v.extension, v.mime)
            &&& r.min_bytes <= v.bytes <= r.max_bytes
            &&& v.bytes == datos.len()
            &&& r.ancho_min <= v.ancho <= r.ancho_max
            &&& r.alto_min <= v.alto <= r.alto_max
            &&& v.ancho as nat * v.alto as nat <= r.max_image_pixels
            &&& v.extension == extension_efectiva(nombre)
            &&& mime_detectado(cabecera(datos)) == Some(v.mime)
            &&& formato_detectado(datos) == Some(v.formato)
            &&& r.validar_animacion ==> !animada(datos, v.formato)
            &&& decodificacion(datos, v.formato) == (VistaDecodificacion::Imagen {
                ancho: v.ancho,
                alto: v.alto,
                color: decodificacion(datos, v.formato)->color,
            })
            &&& v.modo == modo_de(decodificacion(datos, v.formato)->color)
        },
{
}

/// A name that meets the file-name rules is a plain name.
proof fn lema_nombre_valido_simple(n: Seq<char>)
    requires
        regla_nombre(n) is Ok,
    ensures
        nombre_simple(n),
        longitud_utf8(n) <= MAX_LONGITUD_COMPONENTE,
        !n.contains('/'),
        !n.contains('\0'),
{
    assert(!n.contains('\0')) by {
        if n.contains('\0') {
            let k = choose|k: int| 0 <= k < n.len() && n[k] == '\0';
            assert(caracter_prohibido(n[k]));
        }
    }
    assert(!es_punto(n)) by {
        if es_punto(n) {
            assert(n =~= seq!['.']);
        }
    }
    assert(!es_doble_punto(n)) by {
        if es_doble_punto(n) {
            assert(n =~= seq!['.', '.']);
        }
    }
}

/// Placing a plain name under a non-empty relative base adds one normal
/// component to the base's components.
proof fn lema_componentes_unir(b: Seq<char>, n: Seq<char>)
    requires
        nombre_simple(n),
        b.len() > 0,
        !con_raiz(b),
    ensures
        componentes(unir(b, n)) == componentes(b) + seq![Componente::Normal(n)],
        !con_raiz(unir(b, n)),
{
    lema_componentes_nombre_simple(n);
    assert(!con_raiz(n)) by {
        assert(n[0] != '/');
    }
    if b.last() == '/' {
        let b2 = b.drop_last();
        assert(b2 + seq!['/'] =~= b);
        assert(unir(b, n) == b + n);
        assert(b + n =~= b2 + seq!['/'] + n);
        lema_trozos_concat(b2, n);
        lema_trozos_concat(b2, Seq::<char>::empty());
        assert(b2 + seq!['/'] + Seq::<char>::empty() =~= b);
        lema_trozos_no_vacio(b2);
        let raiz = con_raiz(b);
        assert(con_raiz(b + n) == raiz) by {
            assert((b + n)[0] == b[0]);
        }
        lema_filtrar_concat(trozos(b2), trozos(n), raiz);
        lema_filtrar_concat(trozos(b2), trozos(Seq::<char>::empty()), raiz);
        let vacio = trozos(Seq::<char>::empty());
        assert(vacio == seq![Seq::<char>::empty()]);
        assert(vacio.drop_last() =~= Seq::<Seq<char>>::empty());
        assert(clasificar(Seq::<char>::empty(), false, raiz) is None);
        assert(filtrar_resto(vacio.drop_last(), raiz) == Seq::<Componente>::empty());
        assert(filtrar_resto(vacio, raiz) =~= Seq::<Componente>::empty());
        assert(filtrar(trozos(b), raiz) =~= filtrar(trozos(b2), raiz));
        assert(componentes(unir(b, n)) =~= componentes(b) + seq![Componente::Normal(n)]);
    } else {
        assert(unir(b, n) == b + seq!['/'] + n);
        lema_trozos_concat(b, n);
        lema_trozos_no_vacio(b);
        let raiz = con_raiz(b);
        assert(con_raiz(b + seq!['/'] + n) == raiz) by {
            assert((b + seq!['/'] + n)[0] == b[0]);
        }
        lema_filtrar_concat(trozos(b), trozos(n), raiz);
        assert(componentes(unir(b, n)) =~= componentes(b) + seq![Componente::Normal(n)]);
    }
}

/// A base directory under which stored files can be placed: relative,
/// without NUL characters, without `..` components and without normal
/// components longer than 255 bytes.
pub open spec fn base_sana(b: Seq<char>) -> bool {
    &&& !con_raiz(b)
    &&& !b.contains('\0')
    &&& !componentes(b).contains(Componente::Padre)
    &&& !algun_normal_largo(componentes(b))
}

/// A file name that meets the rules, placed under a sound base directory, gives a path that the path rules accept
/// (so `Ruta::para_archivo` succeeds), as long as `base/nombre` fits in
/// 4096 bytes.
pub proof fn ley_para_archivo_acepta_nombres_validos(base: Seq<char>, nombre: Seq<char>)
    requires
        regla_nombre(nombre) is Ok,
        base_sana(base),
        longitud_utf8(base) + 1 + longitud_utf8(nombre) <= MAX_LONGITUD_RUTA,
    ensures
        regla_ruta(unir(base, nombre), base) is Ok,
{
    lema_nombre_valido_simple(nombre);
    lema_componentes_nombre_simple(nombre);
    let p = unir(base, nombre);
    if base.len() == 0 {
        assert(!con_raiz(nombre)) by {
            assert(nombre[0] != '/');
        }
        assert(p == nombre);
        let vacio = trozos(base);
        assert(componentes(base) =~= Seq::<Componente>::empty()) by {
            assert(vacio.len() == 1 && vacio.last() == Seq::<char>::empty());
            assert(vacio.drop_last() =~= Seq::<Seq<char>>::empty());
            assert(clasificar(Seq::<char>::empty(), true, false) is None);
            assert(filtrar(vacio.drop_last(), false) == Seq::<Componente>::empty());
            assert(filtrar(vacio, false) =~= Seq::<Componente>::empty());
        }
        assert(normales(base) == Seq::<Seq<char>>::empty());
        assert(nombres_normales(seq![Componente::Normal(nombre)]) =~= seq![nombre]) by {
            let u = seq![Componente::Normal(nombre)];
            assert(u.drop_last() =~= Seq::<Componente>::empty());
            assert(u.last() == Componente::Normal(nombre));
            assert(nombres_normales(u.drop_last()) == Seq::<Seq<char>>::empty());
        }
        assert(!algun_normal_largo(componentes(p))) by {
            assert forall|i: int| 0 <= i < componentes(p).len() implies !es_normal_largo(
                #[trigger] componentes(p)[i],
            ) by {}
        }
        assert(!componentes(p).contains(Componente::Padre)) by {
            assert(componentes(p)[0] != Componente::Padre);
        }
        assert(tiene_prefijo(normales(p), normales(base)));
    } else {
        lema_componentes_unir(base, nombre);
        let cb = componentes(base);
        let cp = componentes(p);
        let extra = seq![Componente::Normal(nombre)];
        lema_nombres_concat(cb, extra);
        assert(nombres_normales(extra) =~= seq![nombre]) by {
            assert(extra.drop_last() =~= Seq::<Componente>::empty());
            assert(extra.last() == Componente::Normal(nombre));
            assert(nombres_normales(extra.drop_last()) == Seq::<Seq<char>>::empty());
        }
        assert(!cp.contains(Componente::Padre)) by {
            if cp.contains(Componente::Padre) {
                let k = choose|k: int| 0 <= k < cp.len() && cp[k] == Componente::Padre;
                if k < cb.len() {
                    assert(cb[k] == Componente::Padre);
                }
            }
        }
        assert(!algun_normal_largo(cp)) by {
            assert forall|i: int| 0 <= i < cp.len() implies !es_normal_largo(#[trigger] cp[i]) by {
                if i < cb.len() {
                    assert(cp[i] == cb[i]);
                }
            }
        }
        assert(tiene_prefijo(normales(p), normales(base)));
        // Lengths and characters of `base/nombre`.
        if base.last() == '/' {
            assert(p == base + nombre);
            lema_utf8_concat(base, nombre);
            assert(!p.contains('\0')) by {
                if p.contains('\0') {
                    let k = choose|k: int| 0 <= k < p.len() && p[k] == '\0';
                    if k < base.len() {
                        assert(base[k] == '\0');
                    } else {
                        assert(nombre[k - base.len()] == '\0');
                    }
                }
            }
        } else {
            let bb = base.push('/');
            assert(p =~= bb + nombre);
            lema_longitud_empujar(base, '/');
            lema_utf8_concat(bb, nombre);
            assert(longitud_utf8(bb) == longitud_utf8(base) + 1) by {
                assert(vstd::utf8::encode_scalar('/' as u32).len() == 1);
            }
            assert(!p.contains('\0')) by {
                if p.contains('\0') {
                    let k = choose|k: int| 0 <= k < p.len() && p[k] == '\0';
                    if k < base.len() {
                        assert(base[k] == '\0');
                    } else if k == base.len() {
                        assert(p[k] == '/');
                    } else {
                        assert(nombre[k - base.len() - 1] == '\0');
                    }
                }
            }
        }
        assert(p.len() > 0);
    }
}

/// The default base directory, `uploads/imagenes`, is sound.
pub proof fn ley_base_por_defecto_sana()
    ensures
        base_sana(base_por_defecto()),
        longitud_utf8(base_por_defecto()) == 16,
{
    reveal_strlit("uploads/imagenes");
    let b = base_por_defecto();
    let a = seq!['u', 'p', 'l', 'o', 'a', 'd', 's'];
    let c = seq!['i', 'm', 'a', 'g', 'e', 'n', 'e', 's'];
    assert(b =~= a + seq!['/'] + c);
    assert(nombre_simple(a)) by {
        assert(!a.contains('/')) by {
            assert forall|i: int| 0 <= i < a.len() implies a[i] != '/' by {}
        }
    }
    assert(nombre_simple(c)) by {
        assert(!c.contains('/')) by {
            assert forall|i: int| 0 <= i < c.len() implies c[i] != '/' by {}
        }
    }
    lema_componentes_nombre_simple(a);
    assert(!con_raiz(a));
    assert(unir(a, c) == b);
    lema_componentes_unir(a, c);
    let cs = componentes(b);
    assert(cs =~= seq![Componente::Normal(a), Componente::Normal(c)]);
    assert(vstd::utf8::is_ascii_chars(a));
    assert(vstd::utf8::is_ascii_chars(c));
    assert(vstd::utf8::is_ascii_chars(b));
    vstd::utf8::is_ascii_chars_encode_utf8(a);
    vstd::utf8::is_ascii_chars_encode_utf8(c);
    vstd::utf8::is_ascii_chars_encode_utf8(b);
    assert(!algun_normal_largo(cs)) by {
        assert forall|i: int| 0 <= i < cs.len() implies !es_normal_largo(#[trigger] cs[i]) by {}
    }
    assert(!cs.contains(Componente::Padre)) by {
        assert(cs[0] != Componente::Padre);
        assert(cs[1] != Componente::Padre);
    }
    assert(!b.contains('\0')) by {
        assert forall|i: int| 0 <= i < b.len() implies b[i] != '\0' by {}
    }
}

/// Under the default configuration, every file name that meets the rules
/// gets a path: `Ruta::para_archivo` succeeds.
pub proof fn ley_para_archivo_con_config_por_defecto(nombre: Seq<char>)
    requires
        regla_nombre(nombre) is Ok,
    ensures
        regla_ruta(unir(base_por_defecto(), nombre), base_por_defecto()) is Ok,
{
    ley_base_por_defecto_sana();
    ley_para_archivo_acepta_nombres_validos(base_por_defecto(), nombre);
}

/// The first byte of the UTF-8 encoding of a character is `/` exactly when
/// the character is `/`.
proof fn lema_primer_byte(c: char)
    ensures
        vstd::utf8::encode_scalar(c as u32).len() >= 1,
        (vstd::utf8::encode_scalar(c as u32)[0] == 0x2Fu8) == (c == '/'),
{
    vstd::utf8::char_is_scalar(c);
    let u = c as u32;
    if vstd::utf8::has_width_1_encoding(u) {
        assert(((u & 0x7F) as u8 == 0x2Fu8) == (u == 0x2Fu32)) by (bit_vector)
            requires
                u <= 0x7F,
        ;
    } else if vstd::utf8::has_width_2_encoding(u) {
        assert((0xC0u8 | ((u >> 6) & 0x1F) as u8) != 0x2Fu8) by (bit_vector);
    } else if vstd::utf8::has_width_3_encoding(u) {
        assert((0xE0u8 | ((u >> 12) & 0x0F) as u8) != 0x2Fu8) by (bit_vector);
    } else {
        assert((0xF0u8 | ((u >> 18) & 0x7) as u8) != 0x2Fu8) by (bit_vector);
    }
}

/// Checking a path given as raw bytes agrees with checking it as text: for
/// the bytes of a text, `ValidadorRuta::validar_codificado` answers what
/// `ValidadorRuta::validar` answers for the text.
pub proof fn ley_validacion_codificada_coincide(s: Seq<char>, base: Seq<char>)
    ensures
        regla_ruta_codificada(vstd::utf8::encode_utf8(s), base) == regla_ruta(s, base),
{
    let b = vstd::utf8::encode_utf8(s);
    vstd::utf8::encode_utf8_valid_utf8(s);
    vstd::utf8::encode_utf8_decode_utf8(s);
    if s.len() > 0 {
        lema_primer_byte(s[0]);
        assert(b == vstd::utf8::encode_scalar(s[0] as u32) + vstd::utf8::encode_utf8(
            s.drop_first(),
        ));
        assert(b[0] == vstd::utf8::encode_scalar(s[0] as u32)[0]);
    } else {
        assert(b.len() == 0);
    }
}

/// The extension a generated name keeps: the input's, when it has a
/// non-empty one.
pub open spec fn extension_conservada(e: Option<Seq<char>>) -> Option<Seq<char>> {
    match e {
        Some(x) => if x.len() > 0 {
            Some(x)
        } else {
            None
        },
        None => None,
    }
}

/// A name generated for an input that meets the file-name rules meets them
/// too, and keeps the input's extension, as long as `.` and the extension
/// take at most 219 bytes (the UUID takes 36 of the 255 allowed).
pub proof fn ley_nombre_generado_valido(s: Seq<char>, entrada: Seq<char>)
    requires
        regla_nombre(recortado(entrada)) is Ok,
        nombre_generado_para(s, entrada),
        longitud_utf8(sufijo_extension(extension_de(recortado(entrada)))) <= 219,
    ensures
        regla_nombre(s) is Ok,
        extension_de(s) == extension_conservada(extension_de(recortado(entrada))),
{
    let t = recortado(entrada);
    lema_nombre_valido_simple(t);
    lema_componentes_nombre_simple(t);
    let u = s.take(36);
    let suf = s.skip(36);
    assert(s =~= u + suf);
    assert(forma_uuid_v4(u));
    // The UUID holds no `.`, `/` or `\` and is ASCII.
    assert forall|i: int| 0 <= i < u.len() implies u[i] != '.' && u[i] != '/' && u[i] != '\\'
        && '\0' <= #[trigger] u[i] <= '\u{7f}' by {
        if i == 8 || i == 13 || i == 18 || i == 23 {
        } else {
        }
    }
    vstd::utf8::is_ascii_chars_encode_utf8(u);
    lema_utf8_concat(u, suf);
    // What follows the UUID.
    let e_opt = extension_de(t);
    let hay_ext = e_opt matches Some(x) && x.len() > 0;
    if hay_ext {
        let e = e_opt->0;
        let k = ultimo_punto(t)->0;
        lema_ultimo_punto_rango(t);
        assert(e == t.subrange(k + 1, t.len() as int));
        assert(suf == seq!['.'] + e);
        assert forall|i: int| 0 <= i < e.len() implies e[i] != '.' && e[i] != '/' && e[i]
            != '\\' by {
            assert(e[i] == t[k + 1 + i]);
            if t[k + 1 + i] == '/' {
                assert(t.contains('/'));
            }
            if t[k + 1 + i] == '\\' {
                assert(t.contains('\\'));
            }
        }
        // `s` is the UUID, a dot and the extension.
        assert(s =~= u + seq!['.'] + e);
        assert(!s.contains('/') && !s.contains('\\')) by {
            if s.contains('/') || s.contains('\\') {
                let j = choose|j: int| 0 <= j < s.len() && (s[j] == '/' || s[j] == '\\');
                if j < 36 {
                    assert(s[j] == u[j]);
                } else if j > 36 {
                    assert(s[j] == e[j - 37]);
                }
            }
        }
        lema_ultimo_punto(s, 37);
        assert(s.take(37).last() == '.');
        assert(ultimo_punto(s) == Some(36int)) by {
            assert forall|m: int| 37 <= m < s.len() implies #[trigger] s[m] != '.' by {
                assert(s[m] == e[m - 37]);
            }
            lema_ultimo_punto(s, 37);
        }
        assert(nombre_simple(s)) by {
            assert(!es_punto(s) && !es_doble_punto(s));
        }
        lema_componentes_nombre_simple(s);
        assert(nombre_final(s) == Some(s));
        assert(extension_nombre(s) == Some(s.subrange(37, s.len() as int)));
        assert(s.subrange(37, s.len() as int) =~= e);
    } else {
        assert(suf =~= Seq::<char>::empty());
        assert(s =~= u);
        assert(!s.contains('/') && !s.contains('\\')) by {
            if s.contains('/') || s.contains('\\') {
                let j = choose|j: int| 0 <= j < s.len() && (s[j] == '/' || s[j] == '\\');
                assert(s[j] == u[j]);
            }
        }
        assert(nombre_simple(s)) by {
            assert(!es_punto(s) && !es_doble_punto(s));
        }
        lema_componentes_nombre_simple(s);
        assert(ultimo_punto(s) is None) by {
            assert forall|m: int| 0 <= m < s.len() implies #[trigger] s[m] != '.' by {
                assert(s[m] == u[m]);
            }
            lema_ultimo_punto(s, 0);
            assert(s.take(0) =~= Seq::<char>::empty());
        }
    }
}

/// A path that the rules accept stays lexically inside the base directory:
/// it is relative, holds no `..` component and no NUL character, and its
/// names begin with all the names of the base and go on past them.
pub proof fn ley_ruta_aceptada_bajo_la_base(p: Seq<char>, base: Seq<char>)
    requires
        regla_ruta(p, base) is Ok,
    ensures
        !con_raiz(p),
        !componentes(p).contains(Componente::Padre),
        !p.contains('\0'),
        normales(p).len() > normales(base).len(),
        normales(p).take(normales(base).len() as int) == normales(base),
{
    assert(normales(p).take(normales(base).len() as int) =~= normales(base));
}

/// A non-empty word of lowercase ASCII letters.
pub open spec fn palabra(w: Seq<char>) -> bool {
    w.len() > 0 && forall|i: int| 0 <= i < w.len() ==> 'a' <= #[trigger] w[i] <= 'z'
}

/// A word is a plain name that takes one byte per letter.
proof fn lema_palabra(w: Seq<char>)
    requires
        palabra(w),
    ensures
        nombre_simple(w),
        longitud_utf8(w) == w.len(),
        !w.contains('\0'),
        w.last() != '/',
{
    assert(!w.contains('/'));
    assert(!es_punto(w) && !es_doble_punto(w)) by {
        assert(w[0] != '.');
    }
    assert(vstd::utf8::is_ascii_chars(w));
    vstd::utf8::is_ascii_chars_encode_utf8(w);
}

/// Three words joined by `/` make a sound base of three normal components.
proof fn lema_base_de_tres_palabras(a: Seq<char>, b: Seq<char>, c: Seq<char>)
    requires
        palabra(a),
        palabra(b),
        palabra(c),
        a.len() <= MAX_LONGITUD_COMPONENTE,
        b.len() <= MAX_LONGITUD_COMPONENTE,
        c.len() <= MAX_LONGITUD_COMPONENTE,
    ensures
        base_sana(a + seq!['/'] + b + seq!['/'] + c),
        longitud_utf8(a + seq!['/'] + b + seq!['/'] + c) == a.len() + b.len() + c.len() + 2,
{
    lema_palabra(a);
    lema_palabra(b);
    lema_palabra(c);
    lema_componentes_nombre_simple(a);
    assert(!con_raiz(a));
    let ab = unir(a, b);
    assert(ab == a + seq!['/'] + b);
    lema_componentes_unir(a, b);
    assert(ab.last() == b.last());
    let abc = unir(ab, c);
    assert(abc == ab + seq!['/'] + c);
    lema_componentes_unir(ab, c);
    let cs = componentes(abc);
    assert(cs =~= seq![Componente::Normal(a), Componente::Normal(b), Componente::Normal(c)]);
    assert(!algun_normal_largo(cs)) by {
        assert forall|i: int| 0 <= i < cs.len() implies !es_normal_largo(#[trigger] cs[i]) by {}
    }
    assert(!cs.contains(Componente::Padre)) by {
        assert(cs[0] != Componente::Padre);
        assert(cs[1] != Componente::Padre);
        assert(cs[2] != Componente::Padre);
    }
    assert(!abc.contains('\0')) by {
        assert forall|i: int| 0 <= i < abc.len() implies abc[i] != '\0' by {
            if i < a.len() {
                assert(abc[i] == a[i]);
            } else if i == a.len() {
            } else if i < a.len() + 1 + b.len() {
                assert(abc[i] == b[i - a.len() - 1]);
            } else if i == a.len() + 1 + b.len() {
            } else {
                assert(abc[i] == c[i - a.len() - 2 - b.len()]);
            }
        }
    }
    assert(abc == a + seq!['/'] + b + seq!['/'] + c);
    assert(vstd::utf8::is_ascii_chars(abc)) by {
        assert forall|i: int| 0 <= i < abc.len() implies '\0' <= #[trigger] abc[i] <= '\u{7f}' by {
            if i < a.len() {
                assert(abc[i] == a[i]);
            } else if i == a.len() {
            } else if i < a.len() + 1 + b.len() {
                assert(abc[i] == b[i - a.len() - 1]);
            } else if i == a.len() + 1 + b.len() {
            } else {
                assert(abc[i] == c[i - a.len() - 2 - b.len()]);
            }
        }
    }
    vstd::utf8::is_ascii_chars_encode_utf8(abc);
}

/// Every predefined directory is a sound base of at most 23 bytes.
pub proof fn ley_directorios_predefinidos_sanos(d: DirectorioImagenes)
    ensures
        base_sana(texto_directorio(d)),
        longitud_utf8(texto_directorio(d)) <= 23,
{
    let st = seq!['s', 't', 'a', 't', 'i', 'c'];
    let up = seq!['u', 'p', 'l', 'o', 'a', 'd', 's'];
    let tm = seq!['t', 'm', 'p'];
    let im = seq!['i', 'm', 'a', 'g', 'e', 'n', 'e', 's'];
    let pe = seq!['p', 'e', 'r', 'f', 'i', 'l', 'e', 's'];
    let ba = seq!['b', 'a', 'n', 'n', 'e', 'r', 's'];
    match d {
        DirectorioImagenes::Uploads => {
            reveal_strlit("static/uploads/imagenes");
            assert(texto_directorio(d) =~= st + seq!['/'] + up + seq!['/'] + im);
            lema_base_de_tres_palabras(st, up, im);
        },
        DirectorioImagenes::Temporales => {
            reveal_strlit("static/tmp/imagenes");
            assert(texto_directorio(d) =~= st + seq!['/'] + tm + seq!['/'] + im);
            lema_base_de_tres_palabras(st, tm, im);
        },
        DirectorioImagenes::FotoPerfil => {
            reveal_strlit("static/uploads/perfiles");
            assert(texto_directorio(d) =~= st + seq!['/'] + up + seq!['/'] + pe);
            lema_base_de_tres_palabras(st, up, pe);
        },
        DirectorioImagenes::Banner => {
            reveal_strlit("static/uploads/banners");
            assert(texto_directorio(d) =~= st + seq!['/'] + up + seq!['/'] + ba);
            lema_base_de_tres_palabras(st, up, ba);
        },
    }
}

/// With a predefined directory as base, every file name that meets the
/// rules gets a path: `Ruta::para_archivo` succeeds.
pub proof fn ley_para_archivo_con_directorio_predefinido(d: DirectorioImagenes, nombre: Seq<char>)
    requires
        regla_nombre(nombre) is Ok,
    ensures
        regla_ruta(unir(texto_directorio(d), nombre), texto_directorio(d)) is Ok,
{
    ley_directorios_predefinidos_sanos(d);
    ley_para_archivo_acepta_nombres_validos(texto_directorio(d), nombre);
}

/// Where the leading white space of `s` ends.
proof fn lema_inicio_sin_blancos(s: Seq<char>) -> (i: int)
    ensures
        0 <= i <= s.len(),
        sin_blancos_izq(s) == s.subrange(i, s.len() as int),
        forall|k: int| 0 <= k < i ==> es_blanco(#[trigger] s[k]),
    decreases s.len(),
{
    if s.len() > 0 && es_blanco(s[0]) {
        let i0 = lema_inicio_sin_blancos(s.drop_first());
        assert(s.drop_first().subrange(i0, s.drop_first().len() as int) =~= s.subrange(
            i0 + 1,
            s.len() as int,
        ));
        assert forall|k: int| 0 <= k < i0 + 1 implies es_blanco(#[trigger] s[k]) by {
            if k > 0 {
                assert(s[k] == s.drop_first()[k - 1]);
            }
        }
        i0 + 1
    } else {
        assert(s.subrange(0, s.len() as int) =~= s);
        0
    }
}

/// Where the trailing white space of `s` starts.
proof fn lema_fin_sin_blancos(s: Seq<char>) -> (j: int)
    ensures
        0 <= j <= s.len(),
        sin_blancos_der(s) == s.subrange(0, j),
        forall|k: int| j <= k < s.len() ==> es_blanco(#[trigger] s[k]),
    decreases s.len(),
{
    if s.len() > 0 && es_blanco(s.last()) {
        let j0 = lema_fin_sin_blancos(s.drop_last());
        assert(s.drop_last().subrange(0, j0) =~= s.subrange(0, j0));
        assert forall|k: int| j0 <= k < s.len() implies es_blanco(#[trigger] s[k]) by {
            if k < s.len() - 1 {
                assert(s[k] == s.drop_last()[k]);
            }
        }
        j0
    } else {
        assert(s.subrange(0, s.len() as int) =~= s);
        s.len() as int
    }
}

/// Trimming takes white space off both ends and nothing else: the trimmed
/// text is a stretch of the input, all that comes before and after it is
/// white space, and it neither starts nor ends with white space.
pub proof fn ley_recorte_solo_quita_blancos_de_los_bordes(s: Seq<char>)
    ensures
        exists|i: int, j: int|
            #![trigger s.subrange(i, j)]
            0 <= i <= j <= s.len() && recortado(s) == s.subrange(i, j) && (forall|k: int|
                0 <= k < i ==> es_blanco(#[trigger] s[k])) && (forall|k: int|
                j <= k < s.len() ==> es_blanco(#[trigger] s[k])),
        recortado(s).len() > 0 ==> !es_blanco(recortado(s)[0]) && !es_blanco(
            recortado(s).last(),
        ),
{
    let i = lema_inicio_sin_blancos(s);
    let l = sin_blancos_izq(s);
    let j = lema_fin_sin_blancos(l);
    assert(recortado(s) =~= s.subrange(i, i + j));
    assert forall|k: int| i + j <= k < s.len() implies es_blanco(#[trigger] s[k]) by {
        assert(s[k] == l[k - i]);
    }
    assert(recortado(s) == s.subrange(i, i + j));
    lema_izq_sin_blanco_inicial(s);
    lema_der_sin_blanco_final(l);
    if recortado(s).len() > 0 {
        assert(recortado(s)[0] == l[0]);
    }
}

/// A file name that starts at the root replaces the base when it is
/// joined to it, so the path built for it is refused as absolute, whatever
/// the base: an absolute name never escapes the base directory.
pub proof fn ley_para_archivo_rechaza_nombre_absoluto(base: Seq<char>, nombre: Seq<char>)
    requires
        con_raiz(nombre),
    ensures
        regla_ruta(unir(base, nombre), base) == Err::<(), ErrorRuta>(ErrorRuta::RutaAbsoluta),
{
}

/// The animation check refuses an image exactly when the switch is on and
/// the image decoder of its format reports an animation: the PNG decoder
/// for an APNG, the WebP decoder for an animated WebP. Other formats are
/// never refused for animation.
pub proof fn ley_animacion_segun_el_decodificador(r: ReglasImagen, datos: Seq<u8>, f: FormatoImagen)
    ensures
        regla_animacion(r, datos, f) is Err <==> r.validar_animacion && ((f == FormatoImagen::Png
            && png_animado(datos)) || (f == FormatoImagen::WebP && webp_animado(datos))),
        f == FormatoImagen::WebP ==> (animada(datos, f) <==> webp_animado(datos)),
        f == FormatoImagen::Png ==> (animada(datos, f) <==> png_animado(datos)),
        f != FormatoImagen::Png && f != FormatoImagen::WebP ==> !animada(datos, f),
{
}

/// An animated image never passes inspection while the switch is on,
/// whatever its name: an APNG, or a WebP that the WebP decoder reports as
/// animated.
pub proof fn ley_animada_nunca_pasa(r: ReglasImagen, datos: Seq<u8>, nombre: Seq<char>)
    requires
        r.validar_animacion,
        (formato_detectado(datos) == Some(FormatoImagen::WebP) && webp_animado(datos)) || (
        formato_detectado(datos) == Some(FormatoImagen::Png) && png_animado(datos)),
    ensures
        regla_inspeccion(r, datos, nombre) is Err,
{
}

/// The four extensions with a known MIME type differ from one another.
proof fn lema_extensiones_distintas()
    ensures
        "jpg"@ != "jpeg"@,
        "jpg"@ != "png"@,
        "jpg"@ != "webp"@,
        "jpeg"@ != "png"@,
        "jpeg"@ != "webp"@,
        "png"@ != "webp"@,
{
    reveal_strlit("jpg");
    reveal_strlit("jpeg");
    reveal_strlit("png");
    reveal_strlit("webp");
    assert("jpg"@.len() != "jpeg"@.len());
    assert("jpg"@[0] != "png"@[0]);
    assert("jpg"@.len() != "webp"@.len());
    assert("jpeg"@.len() != "png"@.len());
    assert("jpeg"@[0] != "webp"@[0]);
    assert("png"@.len() != "webp"@.len());
}

/// Agreement between extension and detected MIME type: `jpg` and `jpeg`
/// agree only with `image/jpeg` and `image/jpg`, `png` only with
/// `image/png`, `webp` only with `image/webp`; any other extension agrees
/// with every MIME type.
pub proof fn ley_coherencia_extension_mime(ext: Seq<char>, mime: Seq<char>)
    ensures
        ext == "jpg"@ ==> (regla_coherencia(ext, mime) is Ok <==> (mime == "image/jpeg"@ || mime
            == "image/jpg"@)),
        ext == "jpeg"@ ==> (regla_coherencia(ext, mime) is Ok <==> (mime == "image/jpeg"@ || mime
            == "image/jpg"@)),
        ext == "png"@ ==> (regla_coherencia(ext, mime) is Ok <==> mime == "image/png"@),
        ext == "webp"@ ==> (regla_coherencia(ext, mime) is Ok <==> mime == "image/webp"@),
        ext != "jpg"@ && ext != "jpeg"@ && ext != "png"@ && ext != "webp"@ ==> regla_coherencia(
            ext,
            mime,
        ) is Ok,
{
    lema_extensiones_distintas();
}

/// When the agreement check is on, an image that passes inspection with a
/// `jpg` or `jpeg` name is a JPEG by content, one with a `png` name a PNG,
/// one with a `webp` name a WebP.
pub proof fn ley_inspeccion_extension_coherente(r: ReglasImagen, datos: Seq<u8>, nombre: Seq<char>)
    ensures
        regla_inspeccion(r, datos, nombre) matches Ok(v) ==> (r.validar_coherencia_extension_mime
            ==> {
            &&& (v.extension == "jpg"@ || v.extension == "jpeg"@) ==> (v.mime == "image/jpeg"@
                || v.mime == "image/jpg"@)
            &&& v.extension == "png"@ ==> v.mime == "image/png"@
            &&& v.extension == "webp"@ ==> v.mime == "image/webp"@
        }),
{
    lema_extensiones_distintas();
}

/// The color mode names the decoded layout's channels: `L` for gray, `LA`
/// for gray with alpha, `RGB` for color, `RGBA` for color with alpha,
/// whatever the bit depth; `Other` for any other layout. The five names
/// differ from one another.
pub proof fn ley_modo_nombra_los_canales(c: TipoColor)
    ensures
        (c == TipoColor::L8 || c == TipoColor::L16) ==> modo_de(c) == "L"@,
        (c == TipoColor::La8 || c == TipoColor::La16) ==> modo_de(c) == "LA"@,
        (c == TipoColor::Rgb8 || c == TipoColor::Rgb16 || c == TipoColor::Rgb32F) ==> modo_de(c)
            == "RGB"@,
        (c == TipoColor::Rgba8 || c == TipoColor::Rgba16 || c == TipoColor::Rgba32F) ==> modo_de(
            c,
        ) == "RGBA"@,
        c == TipoColor::Otro ==> modo_de(c) == "Other"@,
        "L"@ != "LA"@ && "L"@ != "RGB"@ && "L"@ != "RGBA"@ && "LA"@ != "RGB"@ && "LA"@ != "RGBA"@
            && "RGB"@ != "RGBA"@,
{
    reveal_strlit("L");
    reveal_strlit("LA");
    reveal_strlit("RGB");
    reveal_strlit("RGBA");
    assert("L"@.len() != "LA"@.len());
    assert("L"@.len() != "RGB"@.len());
    assert("L"@.len() != "RGBA"@.len());
    assert("LA"@.len() != "RGB"@.len());
    assert("LA"@.len() != "RGBA"@.len());
    assert("RGB"@.len() != "RGBA"@.len());
}

/// An image that passes inspection reports the color mode of the layout
/// that decoding gave: `RGBA` for a color image with alpha, `RGB` for one
/// without, `LA` and `L` for gray with and without alpha.
pub proof fn ley_inspeccion_informa_el_modo(r: ReglasImagen, datos: Seq<u8>, nombre: Seq<char>)
    ensures
        regla_inspeccion(r, datos, nombre) matches Ok(v) ==> {
            let c = decodificacion(datos, v.formato)->color;
            &&& (c == TipoColor::Rgba8 || c == TipoColor::Rgba16 || c == TipoColor::Rgba32F)
                ==> v.modo == "RGBA"@
            &&& (c == TipoColor::Rgb8 || c == TipoColor::Rgb16 || c == TipoColor::Rgb32F) ==> v.modo
                == "RGB"@
            &&& (c == TipoColor::La8 || c == TipoColor::La16) ==> v.modo == "LA"@
            &&& (c == TipoColor::L8 || c == TipoColor::L16) ==> v.modo == "L"@
        },
{
    if regla_inspeccion(r, datos, nombre) is Ok {
        let v = regla_inspeccion(r, datos, nombre)->Ok_0;
        ley_modo_nombra_los_canales(decodificacion(datos, v.formato)->color);
    }
}

/// The symbolic-link check accepts exactly the resolved paths whose
/// components are the resolved base's components followed by any further
/// ones, a file in any subdirectory of the base included.
pub proof fn ley_resolucion_acepta_lo_que_cuelga_de_la_base(b: Seq<char>, p: Seq<char>)
    ensures
        (exists|extra: Seq<Componente>| componentes(p) == componentes(b) + extra) <==> regla_resolucion(
            Some(b),
            Some(p),
        ) is Ok,
        forall|extra: Seq<Componente>|
            componentes(p) == #[trigger] (componentes(b) + extra) ==> regla_resolucion(
                Some(b),
                Some(p),
            ) is Ok,
{
    let cb = componentes(b);
    let cp = componentes(p);
    assert forall|extra: Seq<Componente>| cp == #[trigger] (cb + extra) implies regla_resolucion(
        Some(b),
        Some(p),
    ) is Ok by {
        assert forall|i: int| 0 <= i < cb.len() implies #[trigger] cp[i] == cb[i] by {
            assert((cb + extra)[i] == cb[i]);
        }
    }
    if regla_resolucion(Some(b), Some(p)) is Ok {
        let extra = cp.skip(cb.len() as int);
        assert(cp =~= cb + extra);
    }
}

} // verus!

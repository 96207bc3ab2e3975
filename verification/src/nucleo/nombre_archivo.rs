//! Value object for a stored file's name, and the rules a name must meet.
use vstd::prelude::*;

use crate::nucleo::camino::{extension_de, extension_exec, nombre_final, nombre_final_de};
use crate::nucleo::texto::{
    caracteres, concatenar, contiene, longitud_utf8_hasta, lema_recortado_idempotente, longitud_utf8, recortado,
    recortar,
};

verus! {

/// Why a file name is refused.
#[derive(Debug, PartialEq, Eq, Structural)]
pub enum NombreArchivoError {
    Vacio,
    LongitudInvalida,
    ContieneSeparador,
    Invalido,
    Reservado,
}

impl NombreArchivoError {
    /// The message that describes the error.
    pub fn mensaje(&self) -> (r: &'static str)
        ensures
            r@ == mensaje_nombre(*self),
    {
        match self {
            NombreArchivoError::Vacio => "El nombre del archivo no puede estar vacío",
            NombreArchivoError::LongitudInvalida =>
                "La longitud del nombre del archivo debe estar entre 1 y 255 caracteres",
            NombreArchivoError::ContieneSeparador =>
                "El nombre del archivo no puede contener separadores de ruta ('/' o '\\')",
            NombreArchivoError::Invalido =>
                "El nombre del archivo no es un nombre válido para el sistema de archivos",
            NombreArchivoError::Reservado =>
                "El nombre del archivo está reservado por el sistema (ej. '.' o '..')",
        }
    }
}

pub open spec fn mensaje_nombre(e: NombreArchivoError) -> Seq<char> {
    match e {
        NombreArchivoError::Vacio => "El nombre del archivo no puede estar vacío"@,
        NombreArchivoError::LongitudInvalida =>
            "La longitud del nombre del archivo debe estar entre 1 y 255 caracteres"@,
        NombreArchivoError::ContieneSeparador =>
            "El nombre del archivo no puede contener separadores de ruta ('/' o '\\')"@,
        NombreArchivoError::Invalido =>
            "El nombre del archivo no es un nombre válido para el sistema de archivos"@,
        NombreArchivoError::Reservado =>
            "El nombre del archivo está reservado por el sistema (ej. '.' o '..')"@,
    }
}

/// Longest accepted file name, in bytes.
pub const MAX_LONGITUD_NOMBRE: usize = 255;

/// A character that file systems forbid in a name: NUL and
/// `<`, `>`, `:`, `|`, `?`, `*`.
pub open spec fn caracter_prohibido(c: char) -> bool {
    c == '\0' || c == '<' || c == '>' || c == ':' || c == '|' || c == '?' || c == '*'
}

/// `n` holds a forbidden character.
pub open spec fn tiene_prohibido(n: Seq<char>) -> bool {
    exists|i: int| 0 <= i < n.len() && #[trigger] caracter_prohibido(n[i])
}

/// The rules a file name must meet, checked in this order; the first that
/// fails gives the error.
pub open spec fn regla_nombre(n: Seq<char>) -> Result<(), NombreArchivoError> {
    if n.len() == 0 {
        Err(NombreArchivoError::Vacio)
    } else if !(1 <= longitud_utf8(n) <= MAX_LONGITUD_NOMBRE) {
        Err(NombreArchivoError::LongitudInvalida)
    } else if n.contains('/') || n.contains('\\') {
        Err(NombreArchivoError::ContieneSeparador)
    } else if n == seq!['.'] || n == seq!['.', '.'] {
        Err(NombreArchivoError::Reservado)
    } else if tiene_prohibido(n) {
        Err(NombreArchivoError::Invalido)
    } else if nombre_final(n) is None {
        Err(NombreArchivoError::Invalido)
    } else {
        Ok(())
    }
}

/// A lowercase hexadecimal digit.
pub open spec fn es_hex_minuscula(c: char) -> bool {
    ('0' <= c && c <= '9') || ('a' <= c && c <= 'f')
}

/// `s` is a version-4 UUID written in its hyphenated lowercase form
/// (`xxxxxxxx-xxxx-4xxx-yxxx-xxxxxxxxxxxx`, `y` one of `8 9 a b`).
pub open spec fn forma_uuid_v4(s: Seq<char>) -> bool {
    &&& s.len() == 36
    &&& forall|i: int|
        0 <= i < 36 ==> (if i == 8 || i == 13 || i == 18 || i == 23 {
            #[trigger] s[i] == '-'
        } else {
            es_hex_minuscula(s[i])
        })
    &&& s[14] == '4'
    &&& (s[19] == '8' || s[19] == '9' || s[19] == 'a' || s[19] == 'b')
}

/// What follows the UUID in a generated name: `.` and the extension, or nothing.
pub open spec fn sufijo_extension(e: Option<Seq<char>>) -> Seq<char> {
    match e {
        Some(x) => if x.len() > 0 {
            seq!['.'] + x
        } else {
            Seq::<char>::empty()
        },
        None => Seq::<char>::empty(),
    }
}

/// `s` is a name that `generado` can return for the input `entrada`.
pub open spec fn nombre_generado_para(s: Seq<char>, entrada: Seq<char>) -> bool {
    &&& s.len() >= 36
    &&& forma_uuid_v4(s.take(36))
    &&& s.skip(36) == sufijo_extension(extension_de(recortado(entrada)))
}

/// A fresh random version-4 UUID in its hyphenated lowercase text form
/// (`uuid::Uuid::new_v4` rendered by its `Display`). The claim is the
/// form alone: the value is random.
#[verifier::external_body]
fn uuid_v4_texto() -> (s: String)
    ensures
        forma_uuid_v4(s@),
{
    uuid::Uuid::new_v4().to_string()
}

/// The name of a stored file.
#[derive(Debug, PartialEq, Eq)]
pub struct NombreArchivo(String);

impl View for NombreArchivo {
    type V = Seq<char>;

    closed spec fn view(&self) -> Seq<char> {
        self.0@
    }
}

impl NombreArchivo {
    /// Validates the trimmed `nombre` and, if it is accepted, returns a fresh
    /// UUID-based name that keeps its extension.
    pub fn new(nombre: &str) -> (r: Result<Self, NombreArchivoError>)
        ensures
            match r {
                Ok(v) => regla_nombre(recortado(nombre@)) is Ok && nombre_generado_para(
                    v@,
                    nombre@,
                ),
                Err(e) => regla_nombre(recortado(nombre@)) == Err::<(), NombreArchivoError>(e),
            },
    {
        let nombre_limpio = recortar(nombre);
        ValidadorNombreArchivo::validar(nombre_limpio.as_str())?;
        let r = Self::generado(nombre_limpio.as_str());
        proof {
            lema_recortado_idempotente(nombre@);
        }
        Ok(r)
    }

    /// The name as text.
    pub fn as_str(&self) -> (r: &str)
        ensures
            r@ == self@,
    {
        self.0.as_str()
    }

    /// The name as an owned `String`.
    pub fn into_inner(self) -> (r: String)
        ensures
            r@ == self@,
    {
        self.0
    }

    /// Rebuilds a stored name as it is, with no check and no trimming.
    pub fn desde_db(nombre: &str) -> (r: Self)
        ensures
            r@ == nombre@,
    {
        NombreArchivo(nombre.to_owned())
    }

    /// Validates the trimmed `nombre` and keeps it as the name.
    pub fn fijo(nombre: &str) -> (r: Result<Self, NombreArchivoError>)
        ensures
            match r {
                Ok(v) => regla_nombre(recortado(nombre@)) is Ok && v@ == recortado(nombre@),
                Err(e) => regla_nombre(recortado(nombre@)) == Err::<(), NombreArchivoError>(e),
            },
    {
        let nombre_limpio = recortar(nombre);
        ValidadorNombreArchivo::validar(nombre_limpio.as_str())?;
        Ok(NombreArchivo(nombre_limpio))
    }

    /// A fresh UUID-based name that keeps the extension of the trimmed
    /// name or path `nombre_o_extension`.
    pub fn generado(nombre_o_extension: &str) -> (r: Self)
        ensures
            nombre_generado_para(r@, nombre_o_extension@),
    {
        let uuid = uuid_v4_texto();
        let r = Self::con_uuid(uuid.as_str(), nombre_o_extension);
        proof {
            assert(r@.take(36) =~= uuid@);
            assert(r@.skip(36) =~= sufijo_extension(extension_de(recortado(nombre_o_extension@))));
        }
        r
    }

    /// The name made of `uuid` followed by `.` and the extension of the
    /// trimmed name or path `nombre_o_extension`, when it has a non-empty
    /// one.
    pub fn con_uuid(uuid: &str, nombre_o_extension: &str) -> (r: Self)
        ensures
            r@ == uuid@ + sufijo_extension(extension_de(recortado(nombre_o_extension@))),
    {
        let limpio = recortar(nombre_o_extension);
        let extension = extension_exec(limpio.as_str());
        let nombre = match extension {
            Some(e) => {
                if e.as_str().is_empty() {
                    uuid.to_owned()
                } else {
                    let con_punto = concatenar(uuid, ".");
                    proof {
                        reveal_strlit(".");
                    }
                    concatenar(con_punto.as_str(), e.as_str())
                }
            },
            None => uuid.to_owned(),
        };
        proof {
            assert(nombre@ =~= uuid@ + sufijo_extension(extension_de(recortado(nombre_o_extension@))));
        }
        NombreArchivo(nombre)
    }
}

/// The rules a file name must meet.
pub struct ValidadorNombreArchivo;

impl ValidadorNombreArchivo {
    /// Checks `nombre` against the rules, in order, and reports the first
    /// one it breaks.
    pub fn validar(nombre: &str) -> (r: Result<(), NombreArchivoError>)
        ensures
            r == regla_nombre(nombre@),
    {
        Self::validar_no_vacio(nombre)?;
        Self::validar_longitud(nombre)?;
        Self::validar_sin_separadores(nombre)?;
        Self::validar_no_reservado(nombre)?;
        Self::validar_caracteres(nombre)?;
        Self::validar_estructura_path(nombre)?;
        Ok(())
    }

    /// Rule 1: the name is not empty.
    fn validar_no_vacio(nombre: &str) -> (r: Result<(), NombreArchivoError>)
        ensures
            r == (if nombre@.len() == 0 {
                Err(NombreArchivoError::Vacio)
            } else {
                Ok(())
            }),
    {
        if nombre.is_empty() {
            Err(NombreArchivoError::Vacio)
        } else {
            Ok(())
        }
    }

    /// Rule 2: the name takes between 1 and 255 bytes.
    fn validar_longitud(nombre: &str) -> (r: Result<(), NombreArchivoError>)
        ensures
            r == (if !(1 <= longitud_utf8(nombre@) <= MAX_LONGITUD_NOMBRE) {
                Err(NombreArchivoError::LongitudInvalida)
            } else {
                Ok(())
            }),
    {
        let v = caracteres(nombre);
        let longitud = longitud_utf8_hasta(&v, MAX_LONGITUD_NOMBRE);
        if !(1 <= longitud && longitud <= MAX_LONGITUD_NOMBRE) {
            Err(NombreArchivoError::LongitudInvalida)
        } else {
            Ok(())
        }
    }

    /// Rule 3: the name holds no path separator (`/` or `\`).
    fn validar_sin_separadores(nombre: &str) -> (r: Result<(), NombreArchivoError>)
        ensures
            r == (if nombre@.contains('/') || nombre@.contains('\\') {
                Err(NombreArchivoError::ContieneSeparador)
            } else {
                Ok(())
            }),
    {
        let v = caracteres(nombre);
        if contiene(&v, '/') || contiene(&v, '\\') {
            Err(NombreArchivoError::ContieneSeparador)
        } else {
            Ok(())
        }
    }

    /// Rule 4: the name is neither `.` nor `..`.
    fn validar_no_reservado(nombre: &str) -> (r: Result<(), NombreArchivoError>)
        ensures
            r == (if nombre@ == seq!['.'] || nombre@ == seq!['.', '.'] {
                Err(NombreArchivoError::Reservado)
            } else {
                Ok(())
            }),
    {
        let v = caracteres(nombre);
        let es_punto = v.len() == 1 && v[0] == '.';
        let es_doble = v.len() == 2 && v[0] == '.' && v[1] == '.';
        proof {
            if v@ =~= seq!['.'] {
            }
            if v@ =~= seq!['.', '.'] {
            }
        }
        if es_punto || es_doble {
            Err(NombreArchivoError::Reservado)
        } else {
            Ok(())
        }
    }

    /// Rule 5: the name holds no character that file systems forbid.
    fn validar_caracteres(nombre: &str) -> (r: Result<(), NombreArchivoError>)
        ensures
            r == (if tiene_prohibido(nombre@) {
                Err(NombreArchivoError::Invalido)
            } else {
                Ok(())
            }),
    {
        let v = caracteres(nombre);
        let mut i: usize = 0;
        while i < v.len()
            invariant
                v@ == nombre@,
                i <= v.len(),
                forall|k: int| 0 <= k < i ==> !caracter_prohibido(#[trigger] v@[k]),
            decreases v.len() - i,
        {
            let c = v[i];
            if c == '\0' || c == '<' || c == '>' || c == ':' || c == '|' || c == '?'
                || c == '*' {
                assert(caracter_prohibido(v@[i as int]));
                return Err(NombreArchivoError::Invalido);
            }
            i = i + 1;
        }
        Ok(())
    }

    /// Rule 6: read as a path, the name ends in a normal file name.
    fn validar_estructura_path(nombre: &str) -> (r: Result<(), NombreArchivoError>)
        ensures
            r == (if nombre_final(nombre@) is None {
                Err(NombreArchivoError::Invalido)
            } else {
                Ok(())
            }),
    {
        if nombre_final_de(nombre).is_none() {
            Err(NombreArchivoError::Invalido)
        } else {
            Ok(())
        }
    }
}

} // verus!

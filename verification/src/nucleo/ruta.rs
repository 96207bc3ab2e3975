//! Value object for the relative path of a stored image, the configured
//! base directory it must live under, and the rules a path must meet.
use vstd::prelude::*;

use crate::nucleo::camino::{
    componentes, componentes_de, con_raiz, nombres_normales, normales, vistas, Componente,
    ComponenteRuta,
};
use crate::nucleo::nombre_archivo::NombreArchivo;
use crate::nucleo::texto::{
    caracteres, concatenar, contiene, empujar, longitud_utf8, longitud_utf8_hasta, textos,
};

verus! {

/// Predefined directories for storing images.
#[derive(Debug, PartialEq, Eq, Structural)]
pub enum DirectorioImagenes {
    /// Default directory for general uploads.
    Uploads,
    Temporales,
    FotoPerfil,
    Banner,
}

/// The relative path of each predefined directory.
pub open spec fn texto_directorio(d: DirectorioImagenes) -> Seq<char> {
    match d {
        DirectorioImagenes::Uploads => "static/uploads/imagenes"@,
        DirectorioImagenes::Temporales => "static/tmp/imagenes"@,
        DirectorioImagenes::FotoPerfil => "static/uploads/perfiles"@,
        DirectorioImagenes::Banner => "static/uploads/banners"@,
    }
}

impl DirectorioImagenes {
    /// The relative path of the directory.
    pub fn as_str(&self) -> (r: &'static str)
        ensures
            r@ == texto_directorio(*self),
    {
        match self {
            DirectorioImagenes::Uploads => "static/uploads/imagenes",
            DirectorioImagenes::Temporales => "static/tmp/imagenes",
            DirectorioImagenes::FotoPerfil => "static/uploads/perfiles",
            DirectorioImagenes::Banner => "static/uploads/banners",
        }
    }
}

impl Default for DirectorioImagenes {
    fn default() -> (r: Self)
        ensures
            r == DirectorioImagenes::Uploads,
    {
        DirectorioImagenes::Uploads
    }
}

/// Why a base directory could not be read from the environment.
#[derive(Debug, PartialEq, Eq)]
pub enum ConfigRutaError {
    VariableNoDefinida { clave: String },
    VariableNoUnicode { clave: String },
}

impl ConfigRutaError {
    /// The message that describes the error.
    pub fn mensaje(&self) -> (r: String)
        ensures
            r@ == mensaje_config(*self),
    {
        proof {
            reveal_strlit("La variable de entorno '");
            reveal_strlit("' no está definida");
            reveal_strlit("' contiene caracteres UTF-8 no válidos");
        }
        match self {
            ConfigRutaError::VariableNoDefinida { clave } => {
                let a = concatenar("La variable de entorno '", clave.as_str());
                concatenar(a.as_str(), "' no está definida")
            },
            ConfigRutaError::VariableNoUnicode { clave } => {
                let a = concatenar("La variable de entorno '", clave.as_str());
                concatenar(a.as_str(), "' contiene caracteres UTF-8 no válidos")
            },
        }
    }
}

pub open spec fn mensaje_config(e: ConfigRutaError) -> Seq<char> {
    match e {
        ConfigRutaError::VariableNoDefinida { clave } => "La variable de entorno '"@ + clave@
            + "' no está definida"@,
        ConfigRutaError::VariableNoUnicode { clave } => "La variable de entorno '"@ + clave@
            + "' contiene caracteres UTF-8 no válidos"@,
    }
}

/// What reading an environment variable gave.
#[derive(Debug, PartialEq, Eq)]
pub enum LecturaVariable {
    /// The variable holds this text.
    Valor(String),
    /// The variable is not set.
    Ausente,
    /// The variable is set but its value is not valid Unicode.
    NoUnicode,
}

/// The base directory under which stored paths must live.
#[derive(Debug, PartialEq, Eq)]
pub struct ConfigRuta {
    directorio_base: String,
}

impl View for ConfigRuta {
    type V = Seq<char>;

    closed spec fn view(&self) -> Seq<char> {
        self.directorio_base@
    }
}

/// The base directory that `ConfigRuta::default` configures.
pub open spec fn base_por_defecto() -> Seq<char> {
    "uploads/imagenes"@
}

impl ConfigRuta {
    /// A configuration with `directorio_base` as its base directory.
    pub fn new(directorio_base: &str) -> (r: Self)
        ensures
            r@ == directorio_base@,
    {
        ConfigRuta { directorio_base: directorio_base.to_owned() }
    }

    /// The configuration that the environment variable `clave` gives, from
    /// what reading it returned.
    pub fn desde_lectura_env(clave: &str, lectura: LecturaVariable) -> (r: Result<
        Self,
        ConfigRutaError,
    >)
        ensures
            match lectura {
                LecturaVariable::Valor(v) => r matches Ok(c) && c@ == v@,
                LecturaVariable::Ausente => r matches Err(ConfigRutaError::VariableNoDefinida {
                    clave: k,
                }) && k@ == clave@,
                LecturaVariable::NoUnicode => r matches Err(ConfigRutaError::VariableNoUnicode {
                    clave: k,
                }) && k@ == clave@,
            },
    {
        match lectura {
            LecturaVariable::Valor(v) => Ok(ConfigRuta { directorio_base: v }),
            LecturaVariable::Ausente => Err(
                ConfigRutaError::VariableNoDefinida { clave: clave.to_owned() },
            ),
            LecturaVariable::NoUnicode => Err(
                ConfigRutaError::VariableNoUnicode { clave: clave.to_owned() },
            ),
        }
    }

    /// A configuration whose base is a predefined directory.
    pub fn desde_directorio(dir: DirectorioImagenes) -> (r: Self)
        ensures
            r@ == texto_directorio(dir),
    {
        Self::new(dir.as_str())
    }

    /// The base directory.
    pub fn directorio_base(&self) -> (r: &str)
        ensures
            r@ == self@,
    {
        self.directorio_base.as_str()
    }

    /// The names of the normal components of the base directory.
    fn componentes(&self) -> (r: Vec<String>)
        ensures
            textos(r@) == normales(self@),
    {
        let cs = componentes_de(self.directorio_base.as_str());
        nombres_de(&cs)
    }
}

/// The default base is `uploads/imagenes`, which is not the path of
/// `DirectorioImagenes::default()` (`static/uploads/imagenes`): the default
/// configuration and `desde_directorio(DirectorioImagenes::default())` are
/// two different bases.
impl Default for ConfigRuta {
    fn default() -> (r: Self)
        ensures
            r@ == base_por_defecto(),
    {
        Self::new("uploads/imagenes")
    }
}

/// The names of the normal components among `cs`.
fn nombres_de(cs: &Vec<ComponenteRuta>) -> (r: Vec<String>)
    ensures
        textos(r@) == nombres_normales(vistas(cs@)),
{
    let mut r: Vec<String> = Vec::new();
    let mut i: usize = 0;
    assert(vistas(cs@.take(0)) =~= Seq::<Componente>::empty());
    while i < cs.len()
        invariant
            i <= cs.len(),
            textos(r@) == nombres_normales(vistas(cs@.take(i as int))),
        decreases cs.len() - i,
    {
        let ghost antes = r@;
        let ghost vs = vistas(cs@.take(i + 1));
        proof {
            assert(vs.drop_last() =~= vistas(cs@.take(i as int)));
            assert(vs.last() == cs@[i as int].vista());
        }
        match &cs[i] {
            ComponenteRuta::Normal(n) => {
                r.push(n.clone());
                assert(textos(r@) =~= textos(antes).push(n@));
            },
            _ => {},
        }
        i = i + 1;
    }
    assert(cs@.take(cs.len() as int) =~= cs@);
    r
}

/// Longest accepted path, in bytes (`PATH_MAX` on Linux).
pub const MAX_LONGITUD_RUTA: usize = 4096;

/// Longest accepted component, in bytes.
pub const MAX_LONGITUD_COMPONENTE: usize = 255;

/// A normal component longer than `MAX_LONGITUD_COMPONENTE` bytes.
pub open spec fn es_normal_largo(c: Componente) -> bool {
    match c {
        Componente::Normal(n) => longitud_utf8(n) > MAX_LONGITUD_COMPONENTE,
        _ => false,
    }
}

pub open spec fn algun_normal_largo(cs: Seq<Componente>) -> bool {
    exists|i: int| 0 <= i < cs.len() && #[trigger] es_normal_largo(cs[i])
}

/// `np` goes on past `nb` and begins with all of `nb`.
pub open spec fn tiene_prefijo(np: Seq<Seq<char>>, nb: Seq<Seq<char>>) -> bool {
    np.len() > nb.len() && forall|i: int| 0 <= i < nb.len() ==> #[trigger] np[i] == nb[i]
}

/// The rules a stored path must meet under the base directory `base`,
/// checked in this order; the first that fails gives the error.
pub open spec fn regla_ruta(p: Seq<char>, base: Seq<char>) -> Result<(), ErrorRuta> {
    if p.len() == 0 {
        Err(ErrorRuta::RutaVacia)
    } else if con_raiz(p) {
        Err(ErrorRuta::RutaAbsoluta)
    } else if p.contains('\0') {
        Err(ErrorRuta::CaracterInvalido)
    } else if longitud_utf8(p) > MAX_LONGITUD_RUTA {
        Err(ErrorRuta::RutaDemasiadoLarga)
    } else if algun_normal_largo(componentes(p)) {
        Err(ErrorRuta::ComponenteDemasiadoLargo)
    } else if componentes(p).contains(Componente::Padre) {
        Err(ErrorRuta::NavegacionProhibida)
    } else if !tiene_prefijo(normales(p), normales(base)) {
        Err(ErrorRuta::BaseInvalida)
    } else {
        Ok(())
    }
}

/// The same rules on a path given as raw bytes, which may not be UTF-8.
pub open spec fn regla_ruta_codificada(p: Seq<u8>, base: Seq<char>) -> Result<(), ErrorRuta> {
    if p.len() == 0 {
        Err(ErrorRuta::RutaVacia)
    } else if p[0] == 0x2F {
        Err(ErrorRuta::RutaAbsoluta)
    } else if !vstd::utf8::valid_utf8(p) {
        Err(ErrorRuta::CodificacionInvalida)
    } else {
        regla_ruta(vstd::utf8::decode_utf8(p), base)
    }
}

/// `nombre` placed under `base` (`Path::join` on Unix): an absolute name
/// replaces the base; otherwise a `/` goes between them unless the base is
/// empty or already ends with one.
pub open spec fn unir(base: Seq<char>, nombre: Seq<char>) -> Seq<char> {
    if con_raiz(nombre) {
        nombre
    } else if base.len() == 0 || base.last() == '/' {
        base + nombre
    } else {
        base + seq!['/'] + nombre
    }
}

/// `comps` begins with all of `prefijo`, component by component
/// (`Path::starts_with`).
pub open spec fn empieza_con(comps: Seq<Componente>, prefijo: Seq<Componente>) -> bool {
    prefijo.len() <= comps.len() && forall|i: int| 0 <= i < prefijo.len() ==> #[trigger] comps[i]
        == prefijo[i]
}

/// The outcome of checking, on resolved paths, that a file stays inside the
/// base directory: `None` stands for a path that could not be resolved.
pub open spec fn regla_resolucion(base: Option<Seq<char>>, ruta: Option<Seq<char>>) -> Result<
    (),
    ErrorRuta,
> {
    match base {
        None => Err(ErrorRuta::DirectorioBaseInaccesible),
        Some(b) => match ruta {
            None => Err(ErrorRuta::ArchivoInaccesible),
            Some(r) => if empieza_con(componentes(r), componentes(b)) {
                Ok(())
            } else {
                Err(ErrorRuta::EscapeSimbolicoDetectado)
            },
        },
    }
}

/// `s` with every `\` turned into `/`.
pub open spec fn con_barras_web(s: Seq<char>) -> Seq<char> {
    s.map_values(|c: char| if c == '\\' { '/' } else { c })
}

/// A validated relative path of a stored file.
#[derive(Debug, PartialEq, Eq)]
pub struct Ruta(String);

impl View for Ruta {
    type V = Seq<char>;

    closed spec fn view(&self) -> Seq<char> {
        self.0@
    }
}

impl Ruta {
    /// Checks `path` against the rules under the base of `config` and keeps it.
    pub fn try_new(path: &str, config: &ConfigRuta) -> (r: Result<Self, ErrorRuta>)
        ensures
            match r {
                Ok(v) => regla_ruta(path@, config@) is Ok && v@ == path@,
                Err(e) => regla_ruta(path@, config@) == Err::<(), ErrorRuta>(e),
            },
    {
        ValidadorRuta::validar(path, config)?;
        Ok(Ruta(path.to_owned()))
    }

    /// Checks a path given as raw bytes (as an OS path may be) against the
    /// rules under the base of `config` and keeps it; bytes that are not
    /// UTF-8 are refused.
    pub fn desde_bytes(path: &[u8], config: &ConfigRuta) -> (r: Result<Self, ErrorRuta>)
        ensures
            match r {
                Ok(v) => regla_ruta_codificada(path@, config@) is Ok && vstd::utf8::encode_utf8(v@)
                    == path@,
                Err(e) => regla_ruta_codificada(path@, config@) == Err::<(), ErrorRuta>(e),
            },
    {
        ValidadorRuta::validar_codificado(path, config)?;
        match texto_utf8(path) {
            Some(s) => Ok(Ruta(s.to_owned())),
            None => Err(ErrorRuta::CodificacionInvalida),
        }
    }

    /// The path of the file `filename` inside the base directory of `config`,
    /// checked against the rules.
    pub fn para_archivo(filename: &NombreArchivo, config: &ConfigRuta) -> (r: Result<
        Self,
        ErrorRuta,
    >)
        ensures
            match r {
                Ok(v) => regla_ruta(unir(config@, filename@), config@) is Ok && v@ == unir(
                    config@,
                    filename@,
                ),
                Err(e) => regla_ruta(unir(config@, filename@), config@) == Err::<(), ErrorRuta>(e),
            },
    {
        let path = unir_exec(config.directorio_base(), filename.as_str());
        Self::try_new(path.as_str(), config)
    }

    /// The path as text.
    pub fn as_path(&self) -> (r: &str)
        ensures
            r@ == self@,
    {
        self.0.as_str()
    }

    /// The path as the owned `String` it is kept in.
    pub fn as_path_buf(&self) -> (r: &String)
        ensures
            r@ == self@,
    {
        &self.0
    }

    /// The path for use in a web URL: every `\` becomes `/`.
    pub fn to_web_string(&self) -> (r: String)
        ensures
            r@ == con_barras_web(self@),
    {
        let v = caracteres(self.0.as_str());
        let mut r = String::new();
        let mut i: usize = 0;
        while i < v.len()
            invariant
                v@ == self@,
                i <= v.len(),
                r@ == con_barras_web(v@.take(i as int)),
            decreases v.len() - i,
        {
            let c = v[i];
            if c == '\\' {
                empujar(&mut r, '/');
            } else {
                empujar(&mut r, c);
            }
            assert(con_barras_web(v@.take(i + 1)) =~= con_barras_web(v@.take(i as int)).push(
                if c == '\\' {
                    '/'
                } else {
                    c
                },
            ));
            i = i + 1;
        }
        assert(v@.take(v.len() as int) =~= v@);
        r
    }

    /// The path as an owned `String`.
    pub fn into_inner(self) -> (r: String)
        ensures
            r@ == self@,
    {
        self.0
    }

    /// Rebuilds a stored path as it is, with no check.
    pub fn desde_db(path: &str) -> (r: Self)
        ensures
            r@ == path@,
    {
        Ruta(path.to_owned())
    }
}

/// `nombre` placed under `base` (see `unir`).
fn unir_exec(base: &str, nombre: &str) -> (r: String)
    ensures
        r@ == unir(base@, nombre@),
{
    let vn = caracteres(nombre);
    if vn.len() > 0 && vn[0] == '/' {
        return nombre.to_owned();
    }
    let vb = caracteres(base);
    if vb.len() == 0 || vb[vb.len() - 1] == '/' {
        concatenar(base, nombre)
    } else {
        let mut con_barra = base.to_owned();
        empujar(&mut con_barra, '/');
        assert(con_barra@ == base@ + seq!['/']);
        concatenar(con_barra.as_str(), nombre)
    }
}

/// The rules a stored path must meet.
pub struct ValidadorRuta;

impl ValidadorRuta {
    /// Checks `path` against the rules, in order, under the base of `config`,
    /// and reports the first one it breaks.
    pub fn validar(path: &str, config: &ConfigRuta) -> (r: Result<(), ErrorRuta>)
        ensures
            r == regla_ruta(path@, config@),
    {
        Self::validar_no_vacio(path)?;
        Self::validar_no_absoluta(path)?;
        Self::validar_utf8_y_sin_bytes_nulos(path)?;
        Self::validar_longitudes(path)?;
        Self::validar_seguridad_path_traversal(path)?;
        Self::validar_prefijo_base(path, config)?;
        Ok(())
    }

    /// The same checks on a path given as raw bytes (as an OS path may be):
    /// bytes that are not UTF-8 are refused after the emptiness and
    /// absoluteness checks.
    pub fn validar_codificado(path: &[u8], config: &ConfigRuta) -> (r: Result<(), ErrorRuta>)
        ensures
            r == regla_ruta_codificada(path@, config@),
    {
        if path.len() == 0 {
            return Err(ErrorRuta::RutaVacia);
        }
        if path[0] == 0x2Fu8 {
            return Err(ErrorRuta::RutaAbsoluta);
        }
        match texto_utf8(path) {
            None => Err(ErrorRuta::CodificacionInvalida),
            Some(s) => {
                proof {
                    vstd::utf8::encode_utf8_decode_utf8(s@);
                }
                Self::validar(s, config)
            },
        }
    }

    /// Rule 1: the path is not empty.
    fn validar_no_vacio(path: &str) -> (r: Result<(), ErrorRuta>)
        ensures
            r == (if path@.len() == 0 {
                Err(ErrorRuta::RutaVacia)
            } else {
                Ok(())
            }),
    {
        if path.is_empty() {
            Err(ErrorRuta::RutaVacia)
        } else {
            Ok(())
        }
    }

    /// Rule 2: the path is relative. An absolute path would make `join`
    /// drop the base directory.
    fn validar_no_absoluta(path: &str) -> (r: Result<(), ErrorRuta>)
        ensures
            r == (if con_raiz(path@) {
                Err(ErrorRuta::RutaAbsoluta)
            } else {
                Ok(())
            }),
    {
        let v = caracteres(path);
        if v.len() > 0 && v[0] == '/' {
            Err(ErrorRuta::RutaAbsoluta)
        } else {
            Ok(())
        }
    }

    /// Rule 3: the path holds no NUL character, which low-level APIs read as
    /// the end of the path. (Being text, it is UTF-8 already.)
    fn validar_utf8_y_sin_bytes_nulos(path: &str) -> (r: Result<(), ErrorRuta>)
        ensures
            r == (if path@.contains('\0') {
                Err(ErrorRuta::CaracterInvalido)
            } else {
                Ok(())
            }),
    {
        let v = caracteres(path);
        if contiene(&v, '\0') {
            Err(ErrorRuta::CaracterInvalido)
        } else {
            Ok(())
        }
    }

    /// Rule 4: the whole path takes at most 4096 bytes and each normal
    /// component at most 255.
    fn validar_longitudes(path: &str) -> (r: Result<(), ErrorRuta>)
        ensures
            r == (if longitud_utf8(path@) > MAX_LONGITUD_RUTA {
                Err(ErrorRuta::RutaDemasiadoLarga)
            } else if algun_normal_largo(componentes(path@)) {
                Err(ErrorRuta::ComponenteDemasiadoLargo)
            } else {
                Ok(())
            }),
    {
        let v = caracteres(path);
        if longitud_utf8_hasta(&v, MAX_LONGITUD_RUTA) > MAX_LONGITUD_RUTA {
            return Err(ErrorRuta::RutaDemasiadoLarga);
        }
        let cs = componentes_de(path);
        let ghost vs = vistas(cs@);
        let mut i: usize = 0;
        while i < cs.len()
            invariant
                i <= cs.len(),
                vs == vistas(cs@),
                vs == componentes(path@),
                longitud_utf8(path@) <= MAX_LONGITUD_RUTA,
                forall|j: int| 0 <= j < i ==> !es_normal_largo(#[trigger] vs[j]),
            decreases cs.len() - i,
        {
            assert(vs[i as int] == cs@[i as int].vista());
            match &cs[i] {
                ComponenteRuta::Normal(n) => {
                    let w = caracteres(n.as_str());
                    if longitud_utf8_hasta(&w, MAX_LONGITUD_COMPONENTE) > MAX_LONGITUD_COMPONENTE {
                        assert(es_normal_largo(vs[i as int]));
                        return Err(ErrorRuta::ComponenteDemasiadoLargo);
                    }
                },
                _ => {},
            }
            i = i + 1;
        }
        Ok(())
    }

    /// Rule 5: no `..` component, so the path cannot climb out of the base.
    fn validar_seguridad_path_traversal(path: &str) -> (r: Result<(), ErrorRuta>)
        ensures
            r == (if componentes(path@).contains(Componente::Padre) {
                Err(ErrorRuta::NavegacionProhibida)
            } else {
                Ok(())
            }),
    {
        let cs = componentes_de(path);
        let ghost vs = vistas(cs@);
        let mut i: usize = 0;
        while i < cs.len()
            invariant
                i <= cs.len(),
                vs == vistas(cs@),
                vs == componentes(path@),
                forall|j: int| 0 <= j < i ==> #[trigger] vs[j] != Componente::Padre,
            decreases cs.len() - i,
        {
            assert(vs[i as int] == cs@[i as int].vista());
            match &cs[i] {
                ComponenteRuta::Padre => {
                    assert(vs[i as int] == Componente::Padre);
                    return Err(ErrorRuta::NavegacionProhibida);
                },
                _ => {},
            }
            i = i + 1;
        }
        Ok(())
    }

    /// Rule 6: the path's normal components begin with those of the base
    /// directory, and at least one more follows.
    fn validar_prefijo_base(path: &str, config: &ConfigRuta) -> (r: Result<(), ErrorRuta>)
        ensures
            r == (if !tiene_prefijo(normales(path@), normales(config@)) {
                Err(ErrorRuta::BaseInvalida)
            } else {
                Ok(())
            }),
    {
        let prefijo_esperado = config.componentes();
        let cs = componentes_de(path);
        let normales_ruta = nombres_de(&cs);
        if normales_ruta.len() <= prefijo_esperado.len() {
            return Err(ErrorRuta::BaseInvalida);
        }
        let mut i: usize = 0;
        while i < prefijo_esperado.len()
            invariant
                i <= prefijo_esperado.len() < normales_ruta.len(),
                textos(normales_ruta@) == normales(path@),
                textos(prefijo_esperado@) == normales(config@),
                forall|j: int|
                    0 <= j < i ==> #[trigger] textos(normales_ruta@)[j] == textos(
                        prefijo_esperado@,
                    )[j],
            decreases prefijo_esperado.len() - i,
        {
            if normales_ruta[i] != prefijo_esperado[i] {
                assert(textos(normales_ruta@)[i as int] != textos(prefijo_esperado@)[i as int]);
                return Err(ErrorRuta::BaseInvalida);
            }
            i = i + 1;
        }
        Ok(())
    }

    /// The decision of the check, made on resolved paths, that a file does not
    /// escape the base directory through symbolic links: `base_canonica` and
    /// `ruta_canonica` are the resolved base directory and file path, `None`
    /// where resolving failed. The resolved path must begin with the
    /// resolved base, component by component.
    pub fn validar_resolucion_simbolica(
        base_canonica: Option<&str>,
        ruta_canonica: Option<&str>,
    ) -> (r: Result<(), ErrorRuta>)
        ensures
            r == regla_resolucion(
                match base_canonica {
                    Some(b) => Some(b@),
                    None => None,
                },
                match ruta_canonica {
                    Some(p) => Some(p@),
                    None => None,
                },
            ),
    {
        let base = match base_canonica {
            Some(b) => b,
            None => {
                return Err(ErrorRuta::DirectorioBaseInaccesible);
            },
        };
        let ruta = match ruta_canonica {
            Some(p) => p,
            None => {
                return Err(ErrorRuta::ArchivoInaccesible);
            },
        };
        let cb = componentes_de(base);
        let cr = componentes_de(ruta);
        if cb.len() > cr.len() {
            return Err(ErrorRuta::EscapeSimbolicoDetectado);
        }
        let mut i: usize = 0;
        while i < cb.len()
            invariant
                i <= cb.len() <= cr.len(),
                base_canonica == Some(base),
                ruta_canonica == Some(ruta),
                vistas(cb@) == componentes(base@),
                vistas(cr@) == componentes(ruta@),
                forall|j: int| 0 <= j < i ==> #[trigger] vistas(cr@)[j] == vistas(cb@)[j],
            decreases cb.len() - i,
        {
            if !mismo_componente(&cr[i], &cb[i]) {
                assert(vistas(cr@)[i as int] != vistas(cb@)[i as int]);
                assert(!empieza_con(componentes(ruta@), componentes(base@)));
                return Err(ErrorRuta::EscapeSimbolicoDetectado);
            }
            i = i + 1;
        }
        Ok(())
    }
}

/// Whether two components are the same.
fn mismo_componente(a: &ComponenteRuta, b: &ComponenteRuta) -> (r: bool)
    ensures
        r == (a.vista() == b.vista()),
{
    match (a, b) {
        (ComponenteRuta::Raiz, ComponenteRuta::Raiz) => true,
        (ComponenteRuta::Actual, ComponenteRuta::Actual) => true,
        (ComponenteRuta::Padre, ComponenteRuta::Padre) => true,
        (ComponenteRuta::Normal(x), ComponenteRuta::Normal(y)) => x.eq(y),
        _ => false,
    }
}

/// The text that `bytes` encode, when they are valid UTF-8
/// (`std::str::from_utf8`): `Some` exactly when they are, and then its bytes
/// are `bytes`.
#[verifier::external_body]
fn texto_utf8(bytes: &[u8]) -> (r: Option<&str>)
    ensures
        r is Some <==> vstd::utf8::valid_utf8(bytes@),
        r matches Some(s) ==> vstd::utf8::encode_utf8(s@) == bytes@,
{
    std::str::from_utf8(bytes).ok()
}

/// Why a path is refused.
#[derive(Debug, Clone, Copy, PartialEq, Eq, Structural)]
pub enum ErrorRuta {
    BaseInvalida,
    NavegacionProhibida,
    RutaVacia,
    RutaAbsoluta,
    CaracterInvalido,
    CodificacionInvalida,
    RutaDemasiadoLarga,
    ComponenteDemasiadoLargo,
    DirectorioBaseInaccesible,
    ArchivoInaccesible,
    EscapeSimbolicoDetectado,
}

pub open spec fn mensaje_ruta(e: ErrorRuta) -> Seq<char> {
    match e {
        ErrorRuta::BaseInvalida => "La ruta debe comenzar con la jerarquía 'uploads/imagenes/'"@,
        ErrorRuta::NavegacionProhibida =>
            "La ruta contiene secuencias de navegación inseguras ('..')"@,
        ErrorRuta::RutaVacia => "La ruta no puede estar vacía"@,
        ErrorRuta::RutaAbsoluta =>
            "La ruta no puede ser absoluta; debe ser relativa al directorio base"@,
        ErrorRuta::CaracterInvalido => "La ruta contiene caracteres nulos no permitidos"@,
        ErrorRuta::CodificacionInvalida => "La ruta no es UTF-8 válida"@,
        ErrorRuta::RutaDemasiadoLarga =>
            "La longitud total de la ruta excede el límite permitido"@,
        ErrorRuta::ComponenteDemasiadoLargo =>
            "Un componente de la ruta excede la longitud máxima permitida"@,
        ErrorRuta::DirectorioBaseInaccesible => "El directorio base no es accesible o no existe"@,
        ErrorRuta::ArchivoInaccesible => "La ruta indicada no es accesible o no existe"@,
        ErrorRuta::EscapeSimbolicoDetectado =>
            "La ruta resuelve simbólicamente fuera del directorio base"@,
    }
}

impl ErrorRuta {
    /// The message that describes the error.
    pub fn mensaje(&self) -> (r: &'static str)
        ensures
            r@ == mensaje_ruta(*self),
    {
        match self {
            ErrorRuta::BaseInvalida => "La ruta debe comenzar con la jerarquía 'uploads/imagenes/'",
            ErrorRuta::NavegacionProhibida =>
                "La ruta contiene secuencias de navegación inseguras ('..')",
            ErrorRuta::RutaVacia => "La ruta no puede estar vacía",
            ErrorRuta::RutaAbsoluta =>
                "La ruta no puede ser absoluta; debe ser relativa al directorio base",
            ErrorRuta::CaracterInvalido => "La ruta contiene caracteres nulos no permitidos",
            ErrorRuta::CodificacionInvalida => "La ruta no es UTF-8 válida",
            ErrorRuta::RutaDemasiadoLarga =>
                "La longitud total de la ruta excede el límite permitido",
            ErrorRuta::ComponenteDemasiadoLargo =>
                "Un componente de la ruta excede la longitud máxima permitida",
            ErrorRuta::DirectorioBaseInaccesible => "El directorio base no es accesible o no existe",
            ErrorRuta::ArchivoInaccesible => "La ruta indicada no es accesible o no existe",
            ErrorRuta::EscapeSimbolicoDetectado =>
                "La ruta resuelve simbólicamente fuera del directorio base",
        }
    }
}

} // verus!

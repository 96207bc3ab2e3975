//! How the library reads a Unix path written as text: its components, its
//! final file name and that name's extension.
//!
//! The rules follow the documented behaviour of `std::path` on Unix: `/` is
//! the only separator, a leading `/` is the root, repeated separators and
//! `.` segments are dropped (except a `.` that opens a relative path), `..`
//! is a parent-directory component, anything else is a normal name.
use vstd::prelude::*;

use crate::nucleo::texto::caracteres;

verus! {

/// A component of a path, in the abstract.
pub enum Componente {
    Raiz,
    Actual,
    Padre,
    Normal(Seq<char>),
}

/// A component of a path, as the code holds it.
#[derive(Debug, PartialEq, Eq)]
pub enum ComponenteRuta {
    Raiz,
    Actual,
    Padre,
    Normal(String),
}

impl ComponenteRuta {
    pub open spec fn vista(&self) -> Componente {
        match self {
            ComponenteRuta::Raiz => Componente::Raiz,
            ComponenteRuta::Actual => Componente::Actual,
            ComponenteRuta::Padre => Componente::Padre,
            ComponenteRuta::Normal(n) => Componente::Normal(n@),
        }
    }
}

pub open spec fn vistas(v: Seq<ComponenteRuta>) -> Seq<Componente> {
    v.map_values(|c: ComponenteRuta| c.vista())
}

/// The pieces of `s` between separators, empty pieces included.
pub open spec fn trozos(s: Seq<char>) -> Seq<Seq<char>>
    decreases s.len(),
{
    if s.len() == 0 {
        seq![Seq::<char>::empty()]
    } else {
        let previos = trozos(s.drop_last());
        if s.last() == '/' {
            previos.push(Seq::<char>::empty())
        } else {
            previos.update(previos.len() - 1, previos.last().push(s.last()))
        }
    }
}

/// The path starts at the root.
pub open spec fn con_raiz(s: Seq<char>) -> bool {
    s.len() > 0 && s[0] == '/'
}

pub open spec fn es_punto(t: Seq<char>) -> bool {
    t.len() == 1 && t[0] == '.'
}

pub open spec fn es_doble_punto(t: Seq<char>) -> bool {
    t.len() == 2 && t[0] == '.' && t[1] == '.'
}

/// The component that one piece stands for, if any.
pub open spec fn clasificar(t: Seq<char>, primero: bool, raiz: bool) -> Option<Componente> {
    if t.len() == 0 {
        None
    } else if es_punto(t) {
        if primero && !raiz {
            Some(Componente::Actual)
        } else {
            None
        }
    } else if es_doble_punto(t) {
        Some(Componente::Padre)
    } else {
        Some(Componente::Normal(t))
    }
}

pub open spec fn filtrar(ts: Seq<Seq<char>>, raiz: bool) -> Seq<Componente>
    decreases ts.len(),
{
    if ts.len() == 0 {
        Seq::<Componente>::empty()
    } else {
        let resto = filtrar(ts.drop_last(), raiz);
        match clasificar(ts.last(), ts.len() == 1, raiz) {
            Some(c) => resto.push(c),
            None => resto,
        }
    }
}

pub open spec fn prefijo_raiz(raiz: bool) -> Seq<Componente> {
    if raiz {
        seq![Componente::Raiz]
    } else {
        Seq::<Componente>::empty()
    }
}

/// The components of the path `s`, in order.
pub open spec fn componentes(s: Seq<char>) -> Seq<Componente> {
    prefijo_raiz(con_raiz(s)) + filtrar(trozos(s), con_raiz(s))
}

/// The names of the normal components of a component sequence, in order.
pub open spec fn nombres_normales(cs: Seq<Componente>) -> Seq<Seq<char>>
    decreases cs.len(),
{
    if cs.len() == 0 {
        Seq::<Seq<char>>::empty()
    } else {
        let resto = nombres_normales(cs.drop_last());
        match cs.last() {
            Componente::Normal(n) => resto.push(n),
            _ => resto,
        }
    }
}

/// The names of the normal components of the path `s`.
pub open spec fn normales(s: Seq<char>) -> Seq<Seq<char>> {
    nombres_normales(componentes(s))
}

/// The final component of `s` when it is a normal name (`Path::file_name`).
pub open spec fn nombre_final(s: Seq<char>) -> Option<Seq<char>> {
    let cs = componentes(s);
    if cs.len() > 0 {
        match cs.last() {
            Componente::Normal(n) => Some(n),
            _ => None,
        }
    } else {
        None
    }
}

/// Index of the last `.` in `n`.
pub open spec fn ultimo_punto(n: Seq<char>) -> Option<int>
    decreases n.len(),
{
    if n.len() == 0 {
        None
    } else if n.last() == '.' {
        Some(n.len() - 1)
    } else {
        ultimo_punto(n.drop_last())
    }
}

/// The extension of a file name: what follows its last `.`, when that `.`
/// is not the name's first character.
pub open spec fn extension_nombre(n: Seq<char>) -> Option<Seq<char>> {
    if es_doble_punto(n) {
        None
    } else {
        match ultimo_punto(n) {
            None => None,
            Some(k) => if k == 0 {
                None
            } else {
                Some(n.subrange(k + 1, n.len() as int))
            },
        }
    }
}

/// The extension of the path `s` (`Path::extension`).
pub open spec fn extension_de(s: Seq<char>) -> Option<Seq<char>> {
    match nombre_final(s) {
        None => None,
        Some(n) => extension_nombre(n),
    }
}

pub proof fn lema_trozos_no_vacio(s: Seq<char>)
    ensures
        trozos(s).len() >= 1,
    decreases s.len(),
{
    if s.len() > 0 {
        lema_trozos_no_vacio(s.drop_last());
    }
}

/// One more character read: the pieces grow as `trozos` says.
proof fn lema_trozos_paso(s: Seq<char>, i: int)
    requires
        0 <= i < s.len(),
    ensures
        s.take(i + 1).drop_last() == s.take(i),
        s.take(i + 1).last() == s[i],
        trozos(s.take(i + 1)) == (if s[i] == '/' {
            trozos(s.take(i)).push(Seq::<char>::empty())
        } else {
            trozos(s.take(i)).update(
                trozos(s.take(i)).len() - 1,
                trozos(s.take(i)).last().push(s[i]),
            )
        }),
{
    assert(s.take(i + 1).drop_last() =~= s.take(i));
}

/// The component for the piece `s[a..b]`.
fn clasificar_trozo(s: &str, v: &Vec<char>, a: usize, b: usize, primero: bool, raiz: bool) -> (r:
    Option<ComponenteRuta>)
    requires
        v@ == s@,
        a <= b <= v.len(),
    ensures
        match r {
            Some(c) => clasificar(s@.subrange(a as int, b as int), primero, raiz) == Some(c.vista()),
            None => clasificar(s@.subrange(a as int, b as int), primero, raiz) is None,
        },
{
    let ghost t = s@.subrange(a as int, b as int);
    if a == b {
        None
    } else if b - a == 1 && v[a] == '.' {
        if primero && !raiz {
            Some(ComponenteRuta::Actual)
        } else {
            None
        }
    } else if b - a == 2 && v[a] == '.' && v[a + 1] == '.' {
        Some(ComponenteRuta::Padre)
    } else {
        let nombre = s.substring_char(a, b).to_owned();
        Some(ComponenteRuta::Normal(nombre))
    }
}

/// The components of the path `s`, in order (`Path::components` on Unix).
pub fn componentes_de(s: &str) -> (r: Vec<ComponenteRuta>)
    ensures
        vistas(r@) == componentes(s@),
{
    let v = caracteres(s);
    let n = v.len();
    let raiz = n > 0 && v[0] == '/';
    let mut r: Vec<ComponenteRuta> = Vec::new();
    if raiz {
        r.push(ComponenteRuta::Raiz);
    }
    let mut inicio: usize = 0;
    let mut idx: usize = 0;
    let mut i: usize = 0;
    assert(s@.take(0) =~= Seq::<char>::empty());
    assert(vistas(r@) =~= prefijo_raiz(raiz));
    while i < n
        invariant
            v@ == s@,
            n == v.len(),
            raiz == con_raiz(s@),
            0 <= inicio <= i <= n,
            idx <= i,
            trozos(s@.take(i as int)).len() == idx + 1,
            trozos(s@.take(i as int)).last() == s@.subrange(inicio as int, i as int),
            vistas(r@) == prefijo_raiz(raiz) + filtrar(trozos(s@.take(i as int)).drop_last(), raiz),
        decreases n - i,
    {
        proof {
            lema_trozos_paso(s@, i as int);
            lema_trozos_no_vacio(s@.take(i as int));
        }
        let ghost ts = trozos(s@.take(i as int));
        if v[i] == '/' {
            let c = clasificar_trozo(s, &v, inicio, i, idx == 0, raiz);
            let ghost antes = r@;
            match c {
                Some(c) => {
                    r.push(c);
                    assert(vistas(r@) =~= vistas(antes).push(c.vista()));
                },
                None => {},
            }
            proof {
                let ts2 = trozos(s@.take(i + 1));
                assert(filtrar(ts, raiz) == match clasificar(ts.last(), ts.len() == 1, raiz) {
                    Some(c) => filtrar(ts.drop_last(), raiz).push(c),
                    None => filtrar(ts.drop_last(), raiz),
                });
                assert(ts2.drop_last() =~= ts);
                assert(ts.drop_last().push(ts.last()) =~= ts);
                assert(vistas(r@) =~= prefijo_raiz(raiz) + filtrar(ts2.drop_last(), raiz));
            }
            inicio = i + 1;
            idx = idx + 1;
            proof {
                assert(s@.subrange(inicio as int, i + 1) =~= Seq::<char>::empty());
            }
        } else {
            proof {
                let ts2 = trozos(s@.take(i + 1));
                assert(ts2.drop_last() =~= ts.drop_last());
                assert(s@.subrange(inicio as int, i + 1) =~= s@.subrange(inicio as int, i as int).push(
                    s@[i as int],
                ));
            }
        }
        i = i + 1;
    }
    proof {
        lema_trozos_no_vacio(s@);
        assert(s@.take(n as int) =~= s@);
    }
    let ghost ts = trozos(s@);
    let c = clasificar_trozo(s, &v, inicio, n, idx == 0, raiz);
    let ghost antes = r@;
    match c {
        Some(c) => {
            r.push(c);
            assert(vistas(r@) =~= vistas(antes).push(c.vista()));
        },
        None => {},
    }
    proof {
        assert(filtrar(ts, raiz) == match clasificar(ts.last(), ts.len() == 1, raiz) {
            Some(c) => filtrar(ts.drop_last(), raiz).push(c),
            None => filtrar(ts.drop_last(), raiz),
        });
        assert(ts.drop_last().push(ts.last()) =~= ts);
        assert(vistas(r@) =~= componentes(s@));
    }
    r
}

/// The final component of the path `s` when it is a normal name
/// (`Path::file_name` on Unix).
pub fn nombre_final_de(s: &str) -> (r: Option<String>)
    ensures
        match r {
            Some(n) => nombre_final(s@) == Some(n@),
            None => nombre_final(s@) is None,
        },
{
    let mut cs = componentes_de(s);
    let ghost todos = cs@;
    match cs.pop() {
        Some(ComponenteRuta::Normal(n)) => {
            assert(vistas(todos).last() == todos.last().vista());
            Some(n)
        },
        Some(c) => {
            assert(vistas(todos).last() == todos.last().vista());
            None
        },
        None => None,
    }
}

pub proof fn lema_ultimo_punto(n: Seq<char>, j: int)
    requires
        0 <= j <= n.len(),
        forall|k: int| j <= k < n.len() ==> #[trigger] n[k] != '.',
    ensures
        ultimo_punto(n) == ultimo_punto(n.take(j)),
    decreases n.len() - j,
{
    if j < n.len() {
        assert(n.drop_last().take(j) =~= n.take(j));
        lema_ultimo_punto(n.drop_last(), j);
    } else {
        assert(n.take(j) =~= n);
    }
}

pub proof fn lema_ultimo_punto_rango(n: Seq<char>)
    ensures
        match ultimo_punto(n) {
            Some(k) => 0 <= k < n.len() && n[k] == '.' && forall|m: int|
                k < m < n.len() ==> #[trigger] n[m] != '.',
            None => forall|m: int| 0 <= m < n.len() ==> #[trigger] n[m] != '.',
        },
    decreases n.len(),
{
    if n.len() > 0 && n.last() != '.' {
        let d = n.drop_last();
        lema_ultimo_punto_rango(d);
        assert forall|m: int| 0 <= m < d.len() implies d[m] == n[m] by {}
        match ultimo_punto(d) {
            Some(k) => {
                assert forall|m: int| k < m < n.len() implies #[trigger] n[m] != '.' by {
                    if m < d.len() {
                        assert(d[m] == n[m]);
                    }
                }
            },
            None => {
                assert forall|m: int| 0 <= m < n.len() implies #[trigger] n[m] != '.' by {
                    if m < d.len() {
                        assert(d[m] == n[m]);
                    }
                }
            },
        }
    }
}

/// The extension of the file name `n` (see `extension_nombre`).
fn extension_de_nombre(n: &str) -> (r: Option<String>)
    ensures
        match r {
            Some(e) => extension_nombre(n@) == Some(e@),
            None => extension_nombre(n@) is None,
        },
{
    let v = caracteres(n);
    let len = v.len();
    if len == 2 && v[0] == '.' && v[1] == '.' {
        return None;
    }
    let mut j: usize = len;
    while j > 0 && v[j - 1] != '.'
        invariant
            v@ == n@,
            len == v.len(),
            j <= len,
            forall|k: int| j <= k < len ==> #[trigger] n@[k] != '.',
        decreases j,
    {
        j = j - 1;
    }
    proof {
        lema_ultimo_punto(n@, j as int);
        if j > 0 {
            assert(n@.take(j as int).last() == '.');
        } else {
            assert(n@.take(0) =~= Seq::<char>::empty());
        }
    }
    if j <= 1 {
        None
    } else {
        Some(n.substring_char(j, len).to_owned())
    }
}

/// The extension of the path `s` (`Path::extension` on Unix).
pub fn extension_exec(s: &str) -> (r: Option<String>)
    ensures
        match r {
            Some(e) => extension_de(s@) == Some(e@),
            None => extension_de(s@) is None,
        },
{
    match nombre_final_de(s) {
        Some(n) => extension_de_nombre(n.as_str()),
        None => None,
    }
}

/// Pieces that come after the first: a `.` there is dropped.
pub open spec fn filtrar_resto(ts: Seq<Seq<char>>, raiz: bool) -> Seq<Componente>
    decreases ts.len(),
{
    if ts.len() == 0 {
        Seq::<Componente>::empty()
    } else {
        let resto = filtrar_resto(ts.drop_last(), raiz);
        match clasificar(ts.last(), false, raiz) {
            Some(c) => resto.push(c),
            None => resto,
        }
    }
}

/// Text without `/` is a single piece.
pub proof fn lema_trozos_sin_barra(s: Seq<char>)
    requires
        !s.contains('/'),
    ensures
        trozos(s) == seq![s],
    decreases s.len(),
{
    if s.len() > 0 {
        let d = s.drop_last();
        assert(!d.contains('/')) by {
            if d.contains('/') {
                let k = choose|k: int| 0 <= k < d.len() && d[k] == '/';
                assert(s[k] == '/');
            }
        }
        lema_trozos_sin_barra(d);
        assert(s.last() != '/') by {
            assert(s[s.len() - 1] == s.last());
        }
        assert(d.push(s.last()) =~= s);
    } else {
        assert(s =~= Seq::<char>::empty());
    }
}

/// Splitting `a / c` gives the pieces of `a`, then those of `c`.
pub proof fn lema_trozos_concat(a: Seq<char>, c: Seq<char>)
    ensures
        trozos(a + seq!['/'] + c) == trozos(a) + trozos(c),
    decreases c.len(),
{
    let ab = a + seq!['/'];
    if c.len() == 0 {
        assert(ab + c =~= ab);
        assert(ab.drop_last() =~= a);
        assert(trozos(ab) == trozos(a).push(Seq::<char>::empty()));
        assert(trozos(a).push(Seq::<char>::empty()) =~= trozos(a) + seq![Seq::<char>::empty()]);
    } else {
        let c2 = c.drop_last();
        lema_trozos_concat(a, c2);
        lema_trozos_no_vacio(c2);
        lema_trozos_no_vacio(a);
        let s = ab + c;
        assert(s.drop_last() =~= ab + c2);
        assert(s.last() == c.last());
        if c.last() == '/' {
            assert(trozos(a) + trozos(c2).push(Seq::<char>::empty()) =~= (trozos(a) + trozos(
                c2,
            )).push(Seq::<char>::empty()));
        } else {
            let t = trozos(c2);
            let u = trozos(a) + t;
            assert(u.last() == t.last());
            assert(trozos(a) + t.update(t.len() - 1, t.last().push(c.last())) =~= u.update(
                u.len() - 1,
                u.last().push(c.last()),
            ));
        }
    }
}

/// Classifying pieces after at least one other: none of them is first.
pub proof fn lema_filtrar_concat(ts1: Seq<Seq<char>>, ts2: Seq<Seq<char>>, raiz: bool)
    requires
        ts1.len() >= 1,
    ensures
        filtrar(ts1 + ts2, raiz) == filtrar(ts1, raiz) + filtrar_resto(ts2, raiz),
    decreases ts2.len(),
{
    if ts2.len() == 0 {
        assert(ts1 + ts2 =~= ts1);
        assert(filtrar(ts1, raiz) + Seq::<Componente>::empty() =~= filtrar(ts1, raiz));
    } else {
        let t2 = ts2.drop_last();
        lema_filtrar_concat(ts1, t2, raiz);
        assert((ts1 + ts2).drop_last() =~= ts1 + t2);
        assert((ts1 + ts2).last() == ts2.last());
        match clasificar(ts2.last(), false, raiz) {
            Some(c) => {
                assert(filtrar(ts1, raiz) + filtrar_resto(t2, raiz).push(c) =~= (filtrar(ts1, raiz)
                    + filtrar_resto(t2, raiz)).push(c));
            },
            None => {},
        }
    }
}

/// The names of the normal components of two sequences put together.
pub proof fn lema_nombres_concat(a: Seq<Componente>, b: Seq<Componente>)
    ensures
        nombres_normales(a + b) == nombres_normales(a) + nombres_normales(b),
    decreases b.len(),
{
    if b.len() == 0 {
        assert(a + b =~= a);
        assert(nombres_normales(a) + Seq::<Seq<char>>::empty() =~= nombres_normales(a));
    } else {
        lema_nombres_concat(a, b.drop_last());
        assert((a + b).drop_last() =~= a + b.drop_last());
        assert((a + b).last() == b.last());
        match b.last() {
            Componente::Normal(n) => {
                assert(nombres_normales(a) + nombres_normales(b.drop_last()).push(n) =~= (
                nombres_normales(a) + nombres_normales(b.drop_last())).push(n));
            },
            _ => {},
        }
    }
}

/// A plain name: not empty, without `/`, neither `.` nor `..`.
pub open spec fn nombre_simple(n: Seq<char>) -> bool {
    n.len() > 0 && !n.contains('/') && !es_punto(n) && !es_doble_punto(n)
}

/// A plain name is one normal component.
pub proof fn lema_componentes_nombre_simple(n: Seq<char>)
    requires
        nombre_simple(n),
    ensures
        componentes(n) == seq![Componente::Normal(n)],
        filtrar_resto(trozos(n), false) == seq![Componente::Normal(n)],
        nombre_final(n) == Some(n),
{
    lema_trozos_sin_barra(n);
    assert(!con_raiz(n)) by {
        assert(n[0] != '/');
    }
    let ts = trozos(n);
    assert(ts.drop_last() =~= Seq::<Seq<char>>::empty());
    assert(ts.len() == 1 && ts.last() == n);
    assert(clasificar(n, true, false) == Some(Componente::Normal(n)));
    assert(clasificar(n, false, false) == Some(Componente::Normal(n)));
    assert(filtrar(ts.drop_last(), false) == Seq::<Componente>::empty());
    assert(filtrar_resto(ts.drop_last(), false) == Seq::<Componente>::empty());
    assert(filtrar(ts, false) =~= seq![Componente::Normal(n)]);
    assert(filtrar_resto(ts, false) =~= seq![Componente::Normal(n)]);
    assert(componentes(n) =~= seq![Componente::Normal(n)]);
}

} // verus!

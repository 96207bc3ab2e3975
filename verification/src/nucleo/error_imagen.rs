//! The error an image validation reports: a message and key-value details.
use vstd::prelude::*;

use crate::nucleo::texto::{concatenar, empujar, unido};

verus! {

/// An image validation error: a message and optional key-value details,
/// each key at most once.
#[derive(Debug)]
pub struct ImagenValidationError {
    pub message: String,
    pub details: Vec<(String, String)>,
}

/// An error as the contracts see it.
#[verifier::ext_equal]
pub struct VistaError {
    pub mensaje: Seq<char>,
    pub detalles: Seq<(Seq<char>, Seq<char>)>,
}

/// The texts of a sequence of key-value pairs.
pub open spec fn pares(v: Seq<(String, String)>) -> Seq<(Seq<char>, Seq<char>)> {
    v.map_values(|p: (String, String)| (p.0@, p.1@))
}

impl View for ImagenValidationError {
    type V = VistaError;

    open spec fn view(&self) -> VistaError {
        VistaError { mensaje: self.message@, detalles: pares(self.details@) }
    }
}

/// The value of the last pair with key `k`, if any.
pub open spec fn valor_de(ps: Seq<(Seq<char>, Seq<char>)>, k: Seq<char>) -> Option<Seq<char>>
    decreases ps.len(),
{
    if ps.len() == 0 {
        None
    } else if ps.last().0 == k {
        Some(ps.last().1)
    } else {
        valor_de(ps.drop_last(), k)
    }
}

/// The keys of `ps`, in order.
pub open spec fn claves(ps: Seq<(Seq<char>, Seq<char>)>) -> Seq<Seq<char>> {
    ps.map_values(|p: (Seq<char>, Seq<char>)| p.0)
}

/// The keys of `ps`, each once, in the order in which they first occur.
pub open spec fn claves_en_orden(ps: Seq<(Seq<char>, Seq<char>)>) -> Seq<Seq<char>>
    decreases ps.len(),
{
    if ps.len() == 0 {
        Seq::<Seq<char>>::empty()
    } else {
        let previas = claves_en_orden(ps.drop_last());
        if previas.contains(ps.last().0) {
            previas
        } else {
            previas.push(ps.last().0)
        }
    }
}

/// No key occurs twice.
pub open spec fn claves_unicas(ps: Seq<(Seq<char>, Seq<char>)>) -> bool {
    forall|i: int, j: int| 0 <= i < j < ps.len() ==> #[trigger] ps[i].0 != #[trigger] ps[j].0
}

/// An error with a message and no details.
pub open spec fn error_simple(m: Seq<char>) -> VistaError {
    VistaError { mensaje: m, detalles: Seq::<(Seq<char>, Seq<char>)>::empty() }
}

/// An error with a message and one detail.
pub open spec fn error_con_detalle(m: Seq<char>, k: Seq<char>, v: Seq<char>) -> VistaError {
    VistaError { mensaje: m, detalles: seq![(k, v)] }
}

/// The text of an error: the message, then ` | {k: v, ...}` when there are
/// details.
pub open spec fn texto_error(e: VistaError) -> Seq<char> {
    if e.detalles.len() == 0 {
        e.mensaje
    } else {
        e.mensaje + " | {"@ + unido(e.detalles.map_values(|p: (Seq<char>, Seq<char>)| p.0 + ": "@ + p.1), ", "@)
            + "}"@
    }
}

proof fn lema_valor_de_sin_clave(ps: Seq<(Seq<char>, Seq<char>)>, k: Seq<char>)
    requires
        forall|i: int| 0 <= i < ps.len() ==> #[trigger] ps[i].0 != k,
    ensures
        valor_de(ps, k) is None,
    decreases ps.len(),
{
    if ps.len() > 0 {
        lema_valor_de_sin_clave(ps.drop_last(), k);
    }
}

/// Replacing the value of a key that occurs once changes only that key's value.
proof fn lema_valor_de_actualizar(
    ps: Seq<(Seq<char>, Seq<char>)>,
    j: int,
    v: Seq<char>,
    k: Seq<char>,
)
    requires
        claves_unicas(ps),
        0 <= j < ps.len(),
    ensures
        valor_de(ps.update(j, (ps[j].0, v)), k) == (if k == ps[j].0 {
            Some(v)
        } else {
            valor_de(ps, k)
        }),
    decreases ps.len(),
{
    let qs = ps.update(j, (ps[j].0, v));
    if j == ps.len() - 1 {
        assert(qs.drop_last() =~= ps.drop_last());
        if k == ps[j].0 {
        } else {
        }
    } else {
        assert(qs.drop_last() =~= ps.drop_last().update(j, (ps[j].0, v)));
        assert(claves_unicas(ps.drop_last()));
        lema_valor_de_actualizar(ps.drop_last(), j, v, k);
        assert(ps.last().0 != ps[j].0);
    }
}

impl ImagenValidationError {
    /// An error with `message` and no details.
    pub fn new(message: &str) -> (r: Self)
        ensures
            r@ == error_simple(message@),
    {
        let r = ImagenValidationError { message: message.to_owned(), details: Vec::new() };
        assert(r@.detalles =~= Seq::<(Seq<char>, Seq<char>)>::empty());
        r
    }

    /// An error with `message` and the pairs of `details`; when a key comes
    /// more than once, its last value is kept.
    pub fn with_details(message: &str, details: Vec<(String, String)>) -> (r: Self)
        ensures
            r@.mensaje == message@,
            claves_unicas(r@.detalles),
            claves(r@.detalles) == claves_en_orden(pares(details@)),
            forall|k: Seq<char>| #[trigger] valor_de(r@.detalles, k) == valor_de(pares(details@), k),
            claves_unicas(pares(details@)) ==> r@.detalles == pares(details@),
    {
        let mut salida: Vec<(String, String)> = Vec::new();
        let ghost entrada = pares(details@);
        let mut i: usize = 0;
        assert(pares(salida@) =~= entrada.take(0));
        while i < details.len()
            invariant
                i <= details.len(),
                entrada == pares(details@),
                claves_unicas(pares(salida@)),
                claves(pares(salida@)) == claves_en_orden(entrada.take(i as int)),
                forall|k: Seq<char>| #[trigger] valor_de(pares(salida@), k) == valor_de(entrada.take(i as int), k),
                claves_unicas(entrada) ==> pares(salida@) == entrada.take(i as int),
            decreases details.len() - i,
        {
            let clave = details[i].0.clone();
            let valor = details[i].1.clone();
            let ghost antes = pares(salida@);
            let ghost tomado = entrada.take(i + 1);
            proof {
                assert(tomado.drop_last() =~= entrada.take(i as int));
                assert(tomado.last() == (clave@, valor@));
            }
            let mut j: usize = 0;
            while j < salida.len() && !salida[j].0.eq(&clave)
                invariant
                    j <= salida.len(),
                    forall|m: int| 0 <= m < j ==> #[trigger] pares(salida@)[m].0 != clave@,
                decreases salida.len() - j,
            {
                j = j + 1;
            }
            if j < salida.len() {
                proof {
                    assert(antes[j as int].0 == clave@);
                    assert forall|k: Seq<char>| #[trigger] valor_de(antes.update(j as int, (clave@, valor@)), k)
                        == valor_de(tomado, k) by {
                        lema_valor_de_actualizar(antes, j as int, valor@, k);
                    }
                    if claves_unicas(entrada) {
                        assert(antes == entrada.take(i as int));
                        assert(entrada[j as int].0 == entrada[i as int].0);
                    }
                }
                salida.set(j, (clave, valor));
                proof {
                    assert(pares(salida@) =~= antes.update(j as int, (clave@, valor@)));
                    assert(claves(antes)[j as int] == clave@);
                    assert(claves(pares(salida@)) =~= claves(antes));
                }
            } else {
                salida.push((clave, valor));
                proof {
                    assert(pares(salida@) =~= antes.push((clave@, valor@)));
                    assert(!claves(antes).contains(clave@)) by {
                        if claves(antes).contains(clave@) {
                            let m = choose|m: int| 0 <= m < claves(antes).len() && claves(antes)[m] == clave@;
                            assert(antes[m].0 == clave@);
                        }
                    }
                    assert(claves(pares(salida@)) =~= claves(antes).push(clave@));
                    assert(pares(salida@).drop_last() =~= antes);
                    assert forall|k: Seq<char>| #[trigger] valor_de(pares(salida@), k) == valor_de(
                        tomado,
                        k,
                    ) by {
                        assert(pares(salida@).last() == tomado.last());
                        assert(valor_de(antes, k) == valor_de(tomado.drop_last(), k));
                    }
                    assert forall|a: int, b: int|
                        0 <= a < b < pares(salida@).len() implies #[trigger] pares(salida@)[a].0
                        != #[trigger] pares(salida@)[b].0 by {
                        if b == pares(salida@).len() - 1 {
                            assert(pares(salida@)[a] == antes[a]);
                        } else {
                            assert(pares(salida@)[a] == antes[a]);
                            assert(pares(salida@)[b] == antes[b]);
                        }
                    }
                    if claves_unicas(entrada) {
                        assert(pares(salida@) =~= tomado);
                    }
                }
            }
            i = i + 1;
        }
        proof {
            assert(entrada.take(details.len() as int) =~= entrada);
        }
        ImagenValidationError { message: message.to_owned(), details: salida }
    }

    /// The error as text: the message, then ` | {k: v, ...}` when there are
    /// details.
    pub fn mensaje_completo(&self) -> (r: String)
        ensures
            r@ == texto_error(self@),
    {
        if self.details.len() == 0 {
            return self.message.clone();
        }
        let ghost partes = self@.detalles.map_values(
            |p: (Seq<char>, Seq<char>)| p.0 + ": "@ + p.1,
        );
        let mut cuerpo = String::new();
        let mut i: usize = 0;
        while i < self.details.len()
            invariant
                i <= self.details.len(),
                partes == self@.detalles.map_values(
                    |p: (Seq<char>, Seq<char>)| p.0 + ": "@ + p.1,
                ),
                cuerpo@ == unido(partes.take(i as int), ", "@),
            decreases self.details.len() - i,
        {
            proof {
                assert(partes.take(i + 1).drop_last() =~= partes.take(i as int));
                reveal_strlit(", ");
                reveal_strlit(": ");
            }
            let par = concatenar(self.details[i].0.as_str(), ": ");
            let par = concatenar(par.as_str(), self.details[i].1.as_str());
            if i > 0 {
                let con_sep = concatenar(cuerpo.as_str(), ", ");
                cuerpo = concatenar(con_sep.as_str(), par.as_str());
            } else {
                cuerpo = par;
                assert(partes.take(1) =~= seq![partes[0]]);
            }
            i = i + 1;
        }
        proof {
            assert(partes.take(self.details.len() as int) =~= partes);
        }
        let r = concatenar(self.message.as_str(), " | {");
        let r = concatenar(r.as_str(), cuerpo.as_str());
        concatenar(r.as_str(), "}")
    }
}

} // verus!

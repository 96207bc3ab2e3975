//! Human-readable byte sizes ("1.5 MB").
//!
//! The text is the one obtained by taking the size as a double-precision
//! number, dividing it by 1024 while it is at least 1024 (up to TB), and
//! writing the result with one decimal. It is computed here with integers:
//! dividing by powers of two is exact in binary floating point, so the only
//! roundings are the conversion of the size to a double (to 53 significant
//! bits, ties to even) and the final one to a single decimal (ties to even).
use vstd::prelude::*;

use crate::nucleo::texto::{decimal, digito, empujar, escribir_decimal, texto_decimal};

verus! {

/// 2^53: every integer below it is exactly a double.
pub open spec fn p53() -> nat {
    9007199254740992
}

pub open spec fn potencia2(s: nat) -> nat
    decreases s,
{
    if s == 0 {
        1
    } else {
        2 * potencia2((s - 1) as nat)
    }
}

/// How many low bits of `n` a double cannot keep.
pub open spec fn desplazamiento(n: nat) -> nat
    decreases n,
{
    if n < p53() {
        0
    } else {
        1 + desplazamiento(n / 2)
    }
}

/// `a / d` rounded to the nearest integer, ties to even.
pub open spec fn redondeo_par(a: nat, d: nat) -> nat
    recommends
        d > 0,
{
    let t = a / d;
    let r = a % d;
    if 2 * r > d || (2 * r == d && t % 2 == 1) {
        t + 1
    } else {
        t
    }
}

/// The double nearest to `n` (ties to even), as an integer.
pub open spec fn como_doble(n: nat) -> nat {
    let s = desplazamiento(n);
    if s == 0 {
        n
    } else {
        let p = potencia2(s);
        redondeo_par(n, p) * p
    }
}

/// Index into B, KB, MB, GB, TB of the unit for a value `v` in bytes.
pub open spec fn indice_unidad(v: nat) -> nat {
    if v < 1024 {
        0
    } else if v < 1048576 {
        1
    } else if v < 1073741824 {
        2
    } else if v < 1099511627776 {
        3
    } else {
        4
    }
}

/// The number of bytes in one of the unit with index `k`.
pub open spec fn divisor_unidad(k: nat) -> nat {
    if k == 0 {
        1
    } else if k == 1 {
        1024
    } else if k == 2 {
        1048576
    } else if k == 3 {
        1073741824
    } else {
        1099511627776
    }
}

pub open spec fn nombre_unidad(k: nat) -> Seq<char> {
    if k == 0 {
        seq!['B']
    } else if k == 1 {
        seq!['K', 'B']
    } else if k == 2 {
        seq!['M', 'B']
    } else if k == 3 {
        seq!['G', 'B']
    } else {
        seq!['T', 'B']
    }
}

/// The size in tenths of its unit, rounded.
pub open spec fn decimas(n: nat) -> nat {
    let v = como_doble(n);
    redondeo_par(v * 10, divisor_unidad(indice_unidad(v)))
}

/// The text for a size of `n` bytes: the size in its unit with one decimal,
/// a space and the unit.
pub open spec fn texto_tamano(n: nat) -> Seq<char> {
    let d = decimas(n);
    texto_decimal(d / 10) + seq!['.', digito(d % 10), ' '] + nombre_unidad(
        indice_unidad(como_doble(n)),
    )
}

proof fn lema_potencia2_positiva(s: nat)
    ensures
        potencia2(s) >= 1,
    decreases s,
{
    if s > 0 {
        lema_potencia2_positiva((s - 1) as nat);
    }
}

/// `n` rounded to the nearest double, as an integer (see `como_doble`).
fn a_doble(n: u128) -> (r: u128)
    requires
        n < 0x1_0000_0000_0000_0000,
    ensures
        r == como_doble(n as nat),
        r <= 0x4_0000_0000_0000_0000,
{
    let mut p: u128 = 1;
    let ghost mut s: nat = 0;
    while n / p >= 9007199254740992
        invariant
            n < 0x1_0000_0000_0000_0000,
            p == potencia2(s),
            1 <= p <= 4096,
            desplazamiento(n as nat) == s + desplazamiento((n / p) as nat),
        decreases 8192 - p,
    {
        proof {
            assert(p * 9007199254740992 <= n) by (nonlinear_arith)
                requires
                    n / p >= 9007199254740992,
                    p >= 1,
            {
                vstd::arithmetic::div_mod::lemma_fundamental_div_mod(n as int, p as int);
            }
            assert(p < 2048) by (nonlinear_arith)
                requires
                    p * 9007199254740992 <= n,
                    n < 0x1_0000_0000_0000_0000,
            ;
            vstd::arithmetic::div_mod::lemma_div_denominator(n as int, p as int, 2);
            assert(desplazamiento((n / p) as nat) == 1 + desplazamiento(((n / p) / 2) as nat));
        }
        p = p * 2;
        proof {
            s = s + 1;
        }
    }
    if p == 1 {
        proof {
            assert(desplazamiento(n as nat) == s);
            if s > 0 {
                assert(potencia2(s) == 2 * potencia2((s - 1) as nat));
                lema_potencia2_positiva((s - 1) as nat);
            }
            assert(s == 0);
        }
        n
    } else {
        let q = n / p;
        let r = n % p;
        let mitad = p / 2;
        let q2 = if r > mitad || (r == mitad && q % 2 == 1) {
            q + 1
        } else {
            q
        };
        proof {
            assert(s > 0);
            assert(2 * r > p <==> r > mitad);
            assert(2 * r == p <==> r == mitad) by {
                assert(p % 2 == 0) by {
                    assert(potencia2(s) == 2 * potencia2((s - 1) as nat));
                }
            }
            assert(q2 * p <= 0x4_0000_0000_0000_0000) by (nonlinear_arith)
                requires
                    q2 <= 9007199254740992,
                    p <= 4096,
            ;
        }
        q2 * p
    }
}

/// The text for a size of `n` bytes, e.g. `"1.5 MB"`.
pub fn formatear_bytes(n: usize) -> (r: String)
    ensures
        r@ == texto_tamano(n as nat),
{
    let v = a_doble(n as u128);
    let (k, d): (u128, u128) = if v < 1024 {
        (0, 1)
    } else if v < 1048576 {
        (1, 1024)
    } else if v < 1073741824 {
        (2, 1048576)
    } else if v < 1099511627776 {
        (3, 1073741824)
    } else {
        (4, 1099511627776)
    };
    let num = v * 10;
    let t = num / d;
    let resto = num % d;
    let dec = if 2 * resto > d || (2 * resto == d && t % 2 == 1) {
        t + 1
    } else {
        t
    };
    assert(dec == decimas(n as nat));
    let mut r = decimal(dec / 10);
    empujar(&mut r, '.');
    escribir_decimal(&mut r, dec % 10);
    proof {
        assert(texto_decimal((dec % 10) as nat) == seq![digito((dec % 10) as nat)]);
    }
    empujar(&mut r, ' ');
    if k == 0 {
        empujar(&mut r, 'B');
    } else {
        let letra = if k == 1 {
            'K'
        } else if k == 2 {
            'M'
        } else if k == 3 {
            'G'
        } else {
            'T'
        };
        empujar(&mut r, letra);
        empujar(&mut r, 'B');
    }
    assert(r@ =~= texto_tamano(n as nat));
    r
}

/// A value given in hundredths, written with two decimals.
pub open spec fn con_dos_decimales(c: nat) -> Seq<char> {
    texto_decimal(c / 100) + seq!['.', digito((c / 10) % 10), digito(c % 10)]
}

/// The text for a size of `n` bytes with two decimals: in MB from one
/// mebibyte on, in KB from one kibibyte on, and otherwise the exact number
/// of bytes followed by `B`. The size is taken as a double, as the rest of
/// this module does.
pub open spec fn texto_tamano_dos_decimales(n: nat) -> Seq<char> {
    let v = como_doble(n);
    if v >= 1048576 {
        con_dos_decimales(redondeo_par(v * 100, 1048576)) + seq![' ', 'M', 'B']
    } else if v >= 1024 {
        con_dos_decimales(redondeo_par(v * 100, 1024)) + seq![' ', 'K', 'B']
    } else {
        texto_decimal(n) + seq![' ', 'B']
    }
}

/// The text for a size of `n` bytes with two decimals, e.g. `"1.50 KB"`.
pub fn formatear_tamano(n: usize) -> (r: String)
    ensures
        r@ == texto_tamano_dos_decimales(n as nat),
{
    let v = a_doble(n as u128);
    if v < 1024 {
        let mut r = decimal(n as u128);
        empujar(&mut r, ' ');
        empujar(&mut r, 'B');
        assert(r@ =~= texto_tamano_dos_decimales(n as nat));
        return r;
    }
    let d: u128 = if v >= 1048576 {
        1048576
    } else {
        1024
    };
    let num = v * 100;
    let t = num / d;
    let resto = num % d;
    let c = if 2 * resto > d || (2 * resto == d && t % 2 == 1) {
        t + 1
    } else {
        t
    };
    assert(c == redondeo_par(v as nat * 100, d as nat));
    let mut r = decimal(c / 100);
    empujar(&mut r, '.');
    escribir_decimal(&mut r, (c / 10) % 10);
    escribir_decimal(&mut r, c % 10);
    proof {
        assert(texto_decimal(((c / 10) % 10) as nat) == seq![digito(((c / 10) % 10) as nat)]);
        assert(texto_decimal((c % 10) as nat) == seq![digito((c % 10) as nat)]);
    }
    empujar(&mut r, ' ');
    if d == 1048576 {
        empujar(&mut r, 'M');
    } else {
        empujar(&mut r, 'K');
    }
    empujar(&mut r, 'B');
    assert(r@ =~= texto_tamano_dos_decimales(n as nat));
    r
}

} // verus!

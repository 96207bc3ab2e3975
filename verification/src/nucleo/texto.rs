use vstd::prelude::*;

verus! {

/// Whether `c` has the Unicode `White_Space` property (the characters
/// `char::is_whitespace` accepts): U+0009 to U+000D, U+0020, U+0085,
/// U+00A0, U+1680, U+2000 to U+200A, U+2028, U+2029, U+202F, U+205F and
/// U+3000.
pub open spec fn es_blanco(c: char) -> bool {
    let u = c as u32;
    ||| 0x09 <= u <= 0x0D
    ||| u == 0x20
    ||| u == 0x85
    ||| u == 0xA0
    ||| u == 0x1680
    ||| 0x2000 <= u <= 0x200A
    ||| u == 0x2028
    ||| u == 0x2029
    ||| u == 0x202F
    ||| u == 0x205F
    ||| u == 0x3000
}

/// Whether `c` is white space (see `es_blanco`).
pub fn es_espacio(c: char) -> (r: bool)
    ensures
        r == es_blanco(c),
{
    let u = c as u32;
    (0x09 <= u && u <= 0x0D) || u == 0x20 || u == 0x85 || u == 0xA0 || u == 0x1680 || (0x2000
        <= u && u <= 0x200A) || u == 0x2028 || u == 0x2029 || u == 0x202F || u == 0x205F || u
        == 0x3000
}

/// The characters of `s`, in order.
pub fn caracteres(s: &str) -> (v: Vec<char>)
    ensures
        v@ == s@,
{
    let mut v: Vec<char> = Vec::new();
    for c in it: s.chars()
        invariant
            v@ == it.seq().take(it.index() as int),
    {
        v.push(c);
    }
    v
}

} // verus!

verus! {

/// Length in bytes of the UTF-8 encoding of `s` (what `str::len` counts).
pub open spec fn longitud_utf8(s: Seq<char>) -> nat {
    vstd::utf8::encode_utf8(s).len()
}

/// Appends `c` to `s` (`String::push`).
#[verifier::external_body]
pub(crate) fn empujar(s: &mut String, c: char)
    ensures
        final(s)@ == old(s)@.push(c),
{
    s.push(c);
}

/// Whether `c` occurs in `v`.
pub fn contiene(v: &Vec<char>, c: char) -> (r: bool)
    ensures
        r == v@.contains(c),
{
    let mut i: usize = 0;
    while i < v.len()
        invariant
            i <= v.len(),
            forall|j: int| 0 <= j < i ==> v@[j] != c,
        decreases v.len() - i,
    {
        if v[i] == c {
            assert(v@[i as int] == c);
            return true;
        }
        i = i + 1;
    }
    false
}

/// `s` with `t` appended.
pub fn concatenar(s: &str, t: &str) -> (r: String)
    ensures
        r@ == s@ + t@,
{
    let mut r = s.to_owned();
    let v = caracteres(t);
    let mut i: usize = 0;
    while i < v.len()
        invariant
            v@ == t@,
            i <= v.len(),
            r@ == s@ + t@.take(i as int),
        decreases v.len() - i,
    {
        empujar(&mut r, v[i]);
        proof {
            assert(t@.take(i + 1) =~= t@.take(i as int).push(t@[i as int]));
        }
        i = i + 1;
    }
    proof {
        assert(t@.take(v.len() as int) =~= t@);
    }
    r
}

} // verus!

verus! {

/// `s` without its leading white space.
pub open spec fn sin_blancos_izq(s: Seq<char>) -> Seq<char>
    decreases s.len(),
{
    if s.len() > 0 && es_blanco(s[0]) {
        sin_blancos_izq(s.drop_first())
    } else {
        s
    }
}

/// `s` without its trailing white space.
pub open spec fn sin_blancos_der(s: Seq<char>) -> Seq<char>
    decreases s.len(),
{
    if s.len() > 0 && es_blanco(s.last()) {
        sin_blancos_der(s.drop_last())
    } else {
        s
    }
}

/// `s` without leading and trailing white space (`str::trim`).
pub open spec fn recortado(s: Seq<char>) -> Seq<char> {
    sin_blancos_der(sin_blancos_izq(s))
}

proof fn lema_izq_subrango(s: Seq<char>, i: int)
    requires
        0 <= i <= s.len(),
        forall|k: int| 0 <= k < i ==> es_blanco(#[trigger] s[k]),
    ensures
        sin_blancos_izq(s) == sin_blancos_izq(s.subrange(i, s.len() as int)),
    decreases i,
{
    if i > 0 {
        assert(s.drop_first().subrange(i - 1, s.drop_first().len() as int) =~= s.subrange(
            i,
            s.len() as int,
        ));
        assert forall|k: int| 0 <= k < i - 1 implies es_blanco(#[trigger] s.drop_first()[k]) by {
            assert(s.drop_first()[k] == s[k + 1]);
        }
        lema_izq_subrango(s.drop_first(), i - 1);
    } else {
        assert(s.subrange(0, s.len() as int) =~= s);
    }
}

proof fn lema_der_subrango(s: Seq<char>, j: int)
    requires
        0 <= j <= s.len(),
        forall|k: int| j <= k < s.len() ==> es_blanco(#[trigger] s[k]),
    ensures
        sin_blancos_der(s) == sin_blancos_der(s.subrange(0, j)),
    decreases s.len() - j,
{
    if j < s.len() {
        assert(s.drop_last().subrange(0, j) =~= s.subrange(0, j));
        lema_der_subrango(s.drop_last(), j);
    } else {
        assert(s.subrange(0, j) =~= s);
    }
}

pub proof fn lema_izq_sin_blanco_inicial(s: Seq<char>)
    ensures
        sin_blancos_izq(s).len() > 0 ==> !es_blanco(sin_blancos_izq(s)[0]),
        sin_blancos_izq(s).len() <= s.len(),
    decreases s.len(),
{
    if s.len() > 0 && es_blanco(s[0]) {
        lema_izq_sin_blanco_inicial(s.drop_first());
    }
}

pub proof fn lema_der_sin_blanco_final(s: Seq<char>)
    ensures
        sin_blancos_der(s).len() > 0 ==> !es_blanco(sin_blancos_der(s).last()),
        sin_blancos_der(s).len() <= s.len(),
        sin_blancos_der(s) == s.subrange(0, sin_blancos_der(s).len() as int),
    decreases s.len(),
{
    if s.len() > 0 && es_blanco(s.last()) {
        lema_der_sin_blanco_final(s.drop_last());
        assert(s.drop_last().subrange(0, sin_blancos_der(s).len() as int) =~= s.subrange(
            0,
            sin_blancos_der(s).len() as int,
        ));
    } else {
        assert(s.subrange(0, s.len() as int) =~= s);
    }
}

/// Trimming twice is trimming once.
pub proof fn lema_recortado_idempotente(s: Seq<char>)
    ensures
        recortado(recortado(s)) == recortado(s),
{
    let t = recortado(s);
    let l = sin_blancos_izq(s);
    lema_izq_sin_blanco_inicial(s);
    lema_der_sin_blanco_final(l);
    // `t` starts and ends with a character that is not white space.
    if t.len() > 0 {
        assert(t[0] == l[0]);
    }
    assert(sin_blancos_izq(t) == t);
    lema_der_sin_blanco_final(t);
    assert(sin_blancos_der(t) == t) by {
        if t.len() > 0 {
            assert(!es_blanco(t.last()));
        }
    }
}

/// `s` without leading and trailing white space (`str::trim`).
pub fn recortar(s: &str) -> (r: String)
    ensures
        r@ == recortado(s@),
{
    let v = caracteres(s);
    let n = v.len();
    let mut i: usize = 0;
    while i < n && es_espacio(v[i])
        invariant
            v@ == s@,
            n == v.len(),
            i <= n,
            forall|k: int| 0 <= k < i ==> es_blanco(#[trigger] s@[k]),
        decreases n - i,
    {
        i = i + 1;
    }
    proof {
        lema_izq_subrango(s@, i as int);
    }
    let ghost medio = s@.subrange(i as int, n as int);
    assert(sin_blancos_izq(medio) == medio) by {
        if medio.len() > 0 {
            assert(medio[0] == s@[i as int]);
        }
    }
    let mut j: usize = n;
    while j > i && es_espacio(v[j - 1])
        invariant
            v@ == s@,
            n == v.len(),
            i <= j <= n,
            medio == s@.subrange(i as int, n as int),
            forall|k: int| j <= k < n ==> es_blanco(#[trigger] s@[k]),
        decreases j - i,
    {
        j = j - 1;
    }
    proof {
        assert forall|k: int| j - i <= k < medio.len() implies es_blanco(#[trigger] medio[k]) by {
            assert(medio[k] == s@[k + i]);
        }
        lema_der_subrango(medio, j - i);
        assert(medio.subrange(0, j - i) =~= s@.subrange(i as int, j as int));
        let fin = s@.subrange(i as int, j as int);
        if fin.len() > 0 {
            assert(fin.last() == s@[j - 1]);
        }
        assert(sin_blancos_der(fin) == fin);
    }
    s.substring_char(i, j).to_owned()
}

} // verus!

verus! {

/// Number of bytes in the UTF-8 encoding of `c`.
pub open spec fn ancho_utf8(c: char) -> nat {
    vstd::utf8::encode_scalar(c as u32).len()
}

pub proof fn lema_utf8_concat(a: Seq<char>, b: Seq<char>)
    ensures
        vstd::utf8::encode_utf8(a + b) == vstd::utf8::encode_utf8(a) + vstd::utf8::encode_utf8(b),
    decreases a.len(),
{
    if a.len() > 0 {
        assert((a + b).drop_first() =~= a.drop_first() + b);
        lema_utf8_concat(a.drop_first(), b);
        assert(vstd::utf8::encode_scalar(a[0] as u32) + (vstd::utf8::encode_utf8(a.drop_first())
            + vstd::utf8::encode_utf8(b)) =~= (vstd::utf8::encode_scalar(a[0] as u32)
            + vstd::utf8::encode_utf8(a.drop_first())) + vstd::utf8::encode_utf8(b));
    } else {
        assert(a + b =~= b);
        assert(vstd::utf8::encode_utf8(a) =~= Seq::<u8>::empty());
        assert(Seq::<u8>::empty() + vstd::utf8::encode_utf8(b) =~= vstd::utf8::encode_utf8(b));
    }
}

pub proof fn lema_longitud_empujar(s: Seq<char>, c: char)
    ensures
        longitud_utf8(s.push(c)) == longitud_utf8(s) + ancho_utf8(c),
{
    lema_utf8_concat(s, seq![c]);
    assert(s.push(c) =~= s + seq![c]);
    let u = seq![c];
    assert(u.drop_first() =~= Seq::<char>::empty());
    assert(u[0] == c);
    assert(vstd::utf8::encode_utf8(Seq::<char>::empty()) == Seq::<u8>::empty());
    assert(vstd::utf8::encode_utf8(u) == vstd::utf8::encode_scalar(u[0] as u32)
        + vstd::utf8::encode_utf8(u.drop_first()));
    assert(vstd::utf8::encode_utf8(u) =~= vstd::utf8::encode_scalar(c as u32));
}

/// Number of bytes in the UTF-8 encoding of `c` (`char::len_utf8`).
pub fn ancho(c: char) -> (r: usize)
    ensures
        r == ancho_utf8(c),
        1 <= r <= 4,
{
    proof {
        vstd::utf8::char_is_scalar(c);
    }
    let u = c as u32;
    if u <= 0x7F {
        1
    } else if u <= 0x7FF {
        2
    } else if u <= 0xFFFF {
        3
    } else {
        4
    }
}

/// The UTF-8 length of `v` in bytes when it is at most `tope`; otherwise
/// `tope + 1`.
pub fn longitud_utf8_hasta(v: &Vec<char>, tope: usize) -> (r: usize)
    requires
        tope < usize::MAX - 4,
    ensures
        r == (if longitud_utf8(v@) <= tope {
            longitud_utf8(v@) as int
        } else {
            tope + 1
        }),
{
    let mut total: usize = 0;
    let mut i: usize = 0;
    assert(v@.take(0) =~= Seq::<char>::empty());
    while i < v.len()
        invariant
            i <= v.len(),
            tope < usize::MAX - 4,
            total == longitud_utf8(v@.take(i as int)),
            total <= tope,
        decreases v.len() - i,
    {
        let a = ancho(v[i]);
        proof {
            assert(v@.take(i + 1) =~= v@.take(i as int).push(v@[i as int]));
            lema_longitud_empujar(v@.take(i as int), v@[i as int]);
        }
        total = total + a;
        i = i + 1;
        if total > tope {
            proof {
                lema_longitud_prefijo(v@, i as int);
            }
            return tope + 1;
        }
    }
    assert(v@.take(v.len() as int) =~= v@);
    total
}

/// A prefix takes no more bytes than the whole.
pub proof fn lema_longitud_prefijo(s: Seq<char>, i: int)
    requires
        0 <= i <= s.len(),
    ensures
        longitud_utf8(s.take(i)) <= longitud_utf8(s),
{
    lema_utf8_concat(s.take(i), s.skip(i));
    assert(s.take(i) + s.skip(i) =~= s);
}

} // verus!

verus! {

/// The decimal digit for `d` (`d < 10`).
pub open spec fn digito(d: nat) -> char {
    if d == 0 {
        '0'
    } else if d == 1 {
        '1'
    } else if d == 2 {
        '2'
    } else if d == 3 {
        '3'
    } else if d == 4 {
        '4'
    } else if d == 5 {
        '5'
    } else if d == 6 {
        '6'
    } else if d == 7 {
        '7'
    } else if d == 8 {
        '8'
    } else {
        '9'
    }
}

/// `n` written in decimal, without leading zeros (`Display` of an integer).
pub open spec fn texto_decimal(n: nat) -> Seq<char>
    decreases n,
{
    if n < 10 {
        seq![digito(n)]
    } else {
        texto_decimal(n / 10).push(digito(n % 10))
    }
}

fn digito_exec(d: u128) -> (c: char)
    requires
        d < 10,
    ensures
        c == digito(d as nat),
{
    if d == 0 {
        '0'
    } else if d == 1 {
        '1'
    } else if d == 2 {
        '2'
    } else if d == 3 {
        '3'
    } else if d == 4 {
        '4'
    } else if d == 5 {
        '5'
    } else if d == 6 {
        '6'
    } else if d == 7 {
        '7'
    } else if d == 8 {
        '8'
    } else {
        '9'
    }
}

/// Appends `n` written in decimal to `s`.
pub fn escribir_decimal(s: &mut String, n: u128)
    ensures
        final(s)@ == old(s)@ + texto_decimal(n as nat),
    decreases n,
{
    if n >= 10 {
        escribir_decimal(s, n / 10);
    }
    let c = digito_exec(n % 10);
    empujar(s, c);
    proof {
        if n < 10 {
            assert(n % 10 == n);
        }
    }
    assert(final(s)@ =~= old(s)@ + texto_decimal(n as nat));
}

/// `n` written in decimal.
pub fn decimal(n: u128) -> (r: String)
    ensures
        r@ == texto_decimal(n as nat),
{
    let mut r = String::new();
    escribir_decimal(&mut r, n);
    assert(r@ =~= texto_decimal(n as nat));
    r
}

/// The texts of `partes` joined with `sep` between them (`join`).
pub open spec fn unido(partes: Seq<Seq<char>>, sep: Seq<char>) -> Seq<char>
    decreases partes.len(),
{
    if partes.len() == 0 {
        Seq::<char>::empty()
    } else if partes.len() == 1 {
        partes[0]
    } else {
        unido(partes.drop_last(), sep) + sep + partes.last()
    }
}

/// The texts of a sequence of strings.
pub open spec fn textos(v: Seq<String>) -> Seq<Seq<char>> {
    v.map_values(|s: String| s@)
}

/// The strings of `partes` joined with `sep` between them (`[String]::join`).
pub fn unir_cadenas(partes: &Vec<String>, sep: &str) -> (r: String)
    ensures
        r@ == unido(textos(partes@), sep@),
{
    let mut r = String::new();
    let mut i: usize = 0;
    assert(textos(partes@).take(0) =~= Seq::<Seq<char>>::empty());
    while i < partes.len()
        invariant
            i <= partes.len(),
            r@ == unido(textos(partes@).take(i as int), sep@),
        decreases partes.len() - i,
    {
        let ghost t = textos(partes@).take(i + 1);
        assert(t.drop_last() =~= textos(partes@).take(i as int));
        if i > 0 {
            let con_sep = concatenar(r.as_str(), sep);
            r = concatenar(con_sep.as_str(), partes[i].as_str());
        } else {
            r = partes[i].clone();
            assert(t =~= seq![partes@[0]@]);
        }
        i = i + 1;
    }
    assert(textos(partes@).take(partes.len() as int) =~= textos(partes@));
    r
}

/// Whether some string of `v` has the text `s`.
pub fn contiene_cadena(v: &Vec<String>, s: &String) -> (r: bool)
    ensures
        r == textos(v@).contains(s@),
{
    let mut i: usize = 0;
    while i < v.len()
        invariant
            i <= v.len(),
            forall|j: int| 0 <= j < i ==> #[trigger] textos(v@)[j] != s@,
        decreases v.len() - i,
    {
        if v[i].eq(s) {
            assert(textos(v@)[i as int] == s@);
            return true;
        }
        i = i + 1;
    }
    false
}

} // verus!

verus! {

/// Whether `a` and `b` are the same text.
pub fn mismo_texto(a: &str, b: &str) -> (r: bool)
    ensures
        r == (a@ == b@),
{
    let va = caracteres(a);
    let vb = caracteres(b);
    if va.len() != vb.len() {
        return false;
    }
    let mut i: usize = 0;
    while i < va.len()
        invariant
            va@ == a@,
            vb@ == b@,
            va.len() == vb.len(),
            i <= va.len(),
            forall|j: int| 0 <= j < i ==> va@[j] == vb@[j],
        decreases va.len() - i,
    {
        if va[i] != vb[i] {
            return false;
        }
        i = i + 1;
    }
    assert(va@ =~= vb@);
    true
}

} // verus!

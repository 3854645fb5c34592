//! Text helpers the validation rules are written with: Unicode whitespace, trimming, length in
//! characters, decimal rendering and lower-casing.

use vstd::prelude::*;
use vstd::string::*;

verus! {

/// `char::is_whitespace`: the characters with the Unicode `White_Space` property.
pub open spec fn es_espacio(c: char) -> bool {
    ||| '\u{9}' <= c <= '\u{d}'
    ||| c == ' '
    ||| c == '\u{85}'
    ||| c == '\u{a0}'
    ||| c == '\u{1680}'
    ||| '\u{2000}' <= c <= '\u{200a}'
    ||| c == '\u{2028}'
    ||| c == '\u{2029}'
    ||| c == '\u{202f}'
    ||| c == '\u{205f}'
    ||| c == '\u{3000}'
}

pub fn espacio(c: char) -> (b: bool)
    ensures
        b == es_espacio(c),
{
    ('\u{9}' <= c && c <= '\u{d}') || c == ' ' || c == '\u{85}' || c == '\u{a0}' || c == '\u{1680}'
        || ('\u{2000}' <= c && c <= '\u{200a}') || c == '\u{2028}' || c == '\u{2029}' || c
        == '\u{202f}' || c == '\u{205f}' || c == '\u{3000}'
}

/// How many whitespace characters the text starts with.
pub open spec fn espacios_iniciales(s: Seq<char>) -> nat
    decreases s.len(),
{
    if s.len() > 0 && es_espacio(s[0]) {
        1 + espacios_iniciales(s.drop_first())
    } else {
        0
    }
}

/// How many whitespace characters the text ends with.
pub open spec fn espacios_finales(s: Seq<char>) -> nat
    decreases s.len(),
{
    if s.len() > 0 && es_espacio(s.last()) {
        1 + espacios_finales(s.drop_last())
    } else {
        0
    }
}

/// `str::trim`: the text without its leading and trailing whitespace.
pub open spec fn recortar(s: Seq<char>) -> Seq<char> {
    let t = s.subrange(espacios_iniciales(s) as int, s.len() as int);
    t.subrange(0, t.len() - espacios_finales(t))
}

/// Blank: empty or made only of whitespace.
pub open spec fn en_blanco(s: Seq<char>) -> bool {
    recortar(s).len() == 0
}

proof fn lema_espacios_iniciales(s: Seq<char>, i: int)
    requires
        0 <= i <= s.len(),
        forall|k: int| 0 <= k < i ==> es_espacio(#[trigger] s[k]),
        i == s.len() || !es_espacio(s[i]),
    ensures
        espacios_iniciales(s) == i,
        espacios_iniciales(s) <= s.len(),
    decreases i,
{
    if i > 0 {
        let r = s.drop_first();
        assert forall|k: int| 0 <= k < i - 1 implies es_espacio(#[trigger] r[k]) by {
            assert(r[k] == s[k + 1]);
        }
        if i - 1 < r.len() {
            assert(r[i - 1] == s[i]);
        }
        lema_espacios_iniciales(r, i - 1);
        assert(es_espacio(s[0]));
    }
}

proof fn lema_espacios_finales(s: Seq<char>, j: int)
    requires
        0 <= j <= s.len(),
        forall|k: int| j <= k < s.len() ==> es_espacio(#[trigger] s[k]),
        j == 0 || !es_espacio(s[j - 1]),
    ensures
        espacios_finales(s) == s.len() - j,
    decreases s.len() - j,
{
    if j < s.len() {
        let r = s.drop_last();
        assert forall|k: int| j <= k < r.len() implies es_espacio(#[trigger] r[k]) by {
            assert(r[k] == s[k]);
        }
        if j > 0 {
            assert(r[j - 1] == s[j - 1]);
        }
        lema_espacios_finales(r, j);
        assert(es_espacio(s.last()));
    }
}

/// `str::trim`.
pub fn recortado(s: &str) -> (r: &str)
    ensures
        r@ == recortar(s@),
{
    let n = s.unicode_len();
    let mut i: usize = 0;
    while i < n && espacio(s.get_char(i))
        invariant
            n == s@.len(),
            i <= n,
            forall|k: int| 0 <= k < i ==> es_espacio(#[trigger] s@[k]),
        decreases n - i,
    {
        i = i + 1;
    }
    proof {
        lema_espacios_iniciales(s@, i as int);
    }
    let mut j: usize = n;
    while j > i && espacio(s.get_char(j - 1))
        invariant
            n == s@.len(),
            i <= j <= n,
            forall|k: int| j <= k < n ==> es_espacio(#[trigger] s@[k]),
        decreases j - i,
    {
        j = j - 1;
    }
    proof {
        let t = s@.subrange(i as int, n as int);
        assert forall|k: int| j - i <= k < t.len() implies es_espacio(#[trigger] t[k]) by {
            assert(t[k] == s@[k + i]);
        }
        if j > i {
            assert(t[j - i - 1] == s@[j - 1]);
        }
        lema_espacios_finales(t, (j - i) as int);
        assert(t.subrange(0, (j - i) as int) =~= s@.subrange(i as int, j as int));
    }
    s.substring_char(i, j)
}

/// Whether the text is empty or only whitespace.
pub fn es_blanco(s: &str) -> (b: bool)
    ensures
        b == en_blanco(s@),
{
    let t = recortado(s);
    t.unicode_len() == 0
}

/// The number of characters, not bytes.
pub fn largo(s: &str) -> (n: usize)
    ensures
        n == s@.len(),
{
    s.unicode_len()
}

/// The decimal digit of `d`, below ten.
pub open spec fn digito(d: nat) -> char {
    if d == 0 {
        '0'
    } else if d == 1 {
        '1'
    } else if d == 2 {
        '2'
    } else if d == 3 {
        '3'
    } else if d == 4 {
        '4'
    } else if d == 5 {
        '5'
    } else if d == 6 {
        '6'
    } else if d == 7 {
        '7'
    } else if d == 8 {
        '8'
    } else {
        '9'
    }
}

/// The decimal rendering of a natural number, without leading zeros.
pub open spec fn decimal(n: nat) -> Seq<char>
    decreases n,
{
    if n < 10 {
        seq![digito(n)]
    } else {
        decimal(n / 10).push(digito(n % 10))
    }
}

/// The decimal rendering of an integer, with a leading `-` when negative.
pub open spec fn decimal_con_signo(n: int) -> Seq<char> {
    if n < 0 {
        seq!['-'] + decimal((-n) as nat)
    } else {
        decimal(n as nat)
    }
}

/// The decimal digits of a natural number, with no sign and no padding.
pub(crate) fn texto_u64(n: u64) -> (r: String)
    ensures
        r@ == decimal(n as nat),
    decreases n,
{
    if n < 10 {
        copia(digito_texto(n))
    } else {
        let r = texto_u64(n / 10).concat(digito_texto(n % 10));
        assert(r@ =~= decimal((n / 10) as nat).push(digito((n % 10) as nat)));
        r
    }
}

/// A `-` for negative values, then the decimal digits of the magnitude.
pub(crate) fn texto_i64(n: i64) -> (r: String)
    ensures
        r@ == decimal_con_signo(n as int),
{
    if n < 0 {
        let m: u64 = (0i128 - n as i128) as u64;
        let r = copia("-").concat(texto_u64(m).as_str());
        proof {
            reveal_strlit("-");
        }
        assert(r@ =~= seq!['-'] + decimal((-n) as nat));
        r
    } else {
        texto_u64(n as u64)
    }
}

/// What `str::to_lowercase` returns for a text: the Unicode lower-case mapping of every character.
pub uninterp spec fn minusculas(s: Seq<char>) -> Seq<char>;

/// `str::to_lowercase`. The result is named, not spelled out: the mapping is Unicode's table.
#[verifier::external_body]
pub(crate) fn a_minusculas(s: &str) -> (r: String)
    ensures
        r@ == minusculas(s@),
{
    s.to_lowercase()
}

/// An owned copy of a text.
pub fn copia(s: &str) -> (r: String)
    ensures
        r@ == s@,
{
    String::from_str(s)
}

/// Two texts joined.
pub fn unir(a: &str, b: &str) -> (r: String)
    ensures
        r@ == a@ + b@,
{
    let x = String::from_str(a);
    x.concat(b)
}

/// Whether two texts are the same characters.
pub fn iguales(a: &str, b: &str) -> (r: bool)
    ensures
        r == (a@ == b@),
{
    let n = a.unicode_len();
    if n != b.unicode_len() {
        return false;
    }
    let mut i: usize = 0;
    while i < n
        invariant
            n == a@.len(),
            n == b@.len(),
            i <= n,
            forall|k: int| 0 <= k < i ==> a@[k] == b@[k],
        decreases n - i,
    {
        if a.get_char(i) != b.get_char(i) {
            return false;
        }
        i = i + 1;
    }
    assert(a@ =~= b@);
    true
}

/// The one-character text of a decimal digit.
pub fn digito_texto(d: u64) -> (r: &'static str)
    requires
        d < 10,
    ensures
        r@ == seq![digito(d as nat)],
{
    proof {
        reveal_strlit("0");
        reveal_strlit("1");
        reveal_strlit("2");
        reveal_strlit("3");
        reveal_strlit("4");
        reveal_strlit("5");
        reveal_strlit("6");
        reveal_strlit("7");
        reveal_strlit("8");
        reveal_strlit("9");
    }
    if d == 0 {
        "0"
    } else if d == 1 {
        "1"
    } else if d == 2 {
        "2"
    } else if d == 3 {
        "3"
    } else if d == 4 {
        "4"
    } else if d == 5 {
        "5"
    } else if d == 6 {
        "6"
    } else if d == 7 {
        "7"
    } else if d == 8 {
        "8"
    } else {
        "9"
    }
}

/// A scaled value written with its four decimals, as `60.0000` or `-0.5000`.
pub open spec fn texto_escalado(raw: int) -> Seq<char> {
    let a = if raw < 0 { -raw } else { raw };
    let f = a % 10_000;
    (if raw < 0 { seq!['-'] } else { seq![] }) + decimal((a / 10_000) as nat) + seq!['.'] + seq![
        digito((f / 1000) as nat),
        digito(((f / 100) % 10) as nat),
        digito(((f / 10) % 10) as nat),
        digito((f % 10) as nat),
    ]
}

/// The text of a scaled value, with its four decimals.
pub fn escribir_escalado(raw: i64) -> (r: String)
    ensures
        r@ == texto_escalado(raw as int),
{
    let a: u64 = if raw < 0 {
        (-(raw as i128)) as u64
    } else {
        raw as u64
    };
    let entero = a / 10_000;
    let f = a % 10_000;
    let signo = if raw < 0 {
        proof {
            reveal_strlit("-");
        }
        "-"
    } else {
        proof {
            reveal_strlit("");
        }
        ""
    };
    let mut r = copia(signo);
    let e = texto_u64(entero);
    r = r.concat(e.as_str());
    proof {
        reveal_strlit(".");
    }
    r = r.concat(".");
    r = r.concat(digito_texto(f / 1000));
    r = r.concat(digito_texto((f / 100) % 10));
    r = r.concat(digito_texto((f / 10) % 10));
    r = r.concat(digito_texto(f % 10));
    proof {
        let ai: int = if raw < 0 { -raw } else { raw as int };
        assert(a == ai);
        assert(r@ =~= texto_escalado(raw as int));
    }
    r
}

/// Whether the sequence holds the character.
pub open spec fn contiene(s: Seq<char>, c: char) -> bool {
    exists|k: int| 0 <= k < s.len() && s[k] == c
}

/// How many times the character appears.
pub open spec fn ocurrencias(s: Seq<char>, c: char) -> nat
    decreases s.len(),
{
    if s.len() == 0 {
        0
    } else {
        ocurrencias(s.drop_last(), c) + if s.last() == c { 1nat } else { 0nat }
    }
}

/// Lexicographic order of texts by scalar value, which is the order `str` compares in: UTF-8
/// keeps the order of code points, so comparing bytes and comparing characters agree.
pub open spec fn lex_menor(a: Seq<char>, b: Seq<char>) -> bool
    decreases a.len(),
{
    if a.len() == 0 {
        b.len() > 0
    } else if b.len() == 0 {
        false
    } else if a[0] != b[0] {
        a[0] < b[0]
    } else {
        lex_menor(a.drop_first(), b.drop_first())
    }
}

/// Whether `a` sorts strictly before `b`.
pub fn menor_lex(a: &str, b: &str) -> (r: bool)
    ensures
        r == lex_menor(a@, b@),
{
    let n = a.unicode_len();
    let m = b.unicode_len();
    let mut i: usize = 0;
    assert(a@.skip(0) =~= a@ && b@.skip(0) =~= b@);
    while i < n && i < m
        invariant
            n == a@.len(),
            m == b@.len(),
            i <= n,
            i <= m,
            lex_menor(a@, b@) == lex_menor(a@.skip(i as int), b@.skip(i as int)),
        decreases n - i,
    {
        let x = a.get_char(i);
        let y = b.get_char(i);
        assert(a@.skip(i as int)[0] == x && b@.skip(i as int)[0] == y);
        if x != y {
            return x < y;
        }
        assert(a@.skip(i as int).drop_first() =~= a@.skip(i + 1));
        assert(b@.skip(i as int).drop_first() =~= b@.skip(i + 1));
        i = i + 1;
    }
    i < m
}

/// No text sorts both before and after another.
pub proof fn lex_asimetrico(a: Seq<char>, b: Seq<char>)
    ensures
        lex_menor(a, b) ==> !lex_menor(b, a),
    decreases a.len(),
{
    if a.len() > 0 && b.len() > 0 && a[0] == b[0] {
        lex_asimetrico(a.drop_first(), b.drop_first());
    }
}

/// If `a` sorts before `c`, any `b` sorts after `a` or before `c`.
pub proof fn lex_negativamente_transitivo(a: Seq<char>, b: Seq<char>, c: Seq<char>)
    ensures
        lex_menor(a, c) ==> lex_menor(a, b) || lex_menor(b, c),
    decreases a.len(),
{
    if a.len() > 0 && b.len() > 0 && c.len() > 0 && a[0] == c[0] && b[0] == a[0] {
        lex_negativamente_transitivo(a.drop_first(), b.drop_first(), c.drop_first());
    }
}

} // verus!

//! The validator every form goes through: it accumulates every problem and reports them together,
//! so one submit tells the user everything instead of one round-trip per mistake.

pub mod asistencias;
pub mod certificados;
pub mod clientes;
pub mod movimientos;
pub mod proyectos;
pub mod trabajos;

use vstd::prelude::*;
use vstd::string::*;
use crate::error::{campos_de, error_campo, params_v, AppError, FieldError, FieldErrorV};
use crate::texto::{copia, decimal, en_blanco, es_blanco, es_espacio, espacio, largo, recortado, recortar, texto_u64, unir};

verus! {

/// Length limits of the text columns, in characters.
pub const NOMBRE_LARGO: usize = 200;

pub const NOMBRE_CORTO: usize = 100;

pub const DESCRIPCION: usize = 500;

pub const DIRECCION: usize = 300;

pub const TELEFONO: usize = 50;

pub const EMAIL: usize = 254;

pub const OBSERVACIONES: usize = 2000;

/// No error when the condition holds, the given one otherwise.
pub open spec fn exigir(cond: bool, e: FieldErrorV) -> Seq<FieldErrorV> {
    if cond {
        seq![]
    } else {
        seq![e]
    }
}

/// The error of a required text left blank.
pub open spec fn exigir_texto(campo: Seq<char>, valor: Seq<char>, clave: Seq<char>) -> Seq<FieldErrorV> {
    exigir(!en_blanco(valor), error_campo(campo, clave))
}

/// The error of a text longer than `max` characters, with the limit as parameter `max`.
pub open spec fn exigir_largo(campo: Seq<char>, valor: Seq<char>, max: nat, clave: Seq<char>) -> Seq<FieldErrorV> {
    exigir(
        valor.len() <= max,
        FieldErrorV { campo, clave, params: seq![("max"@, decimal(max))] },
    )
}

/// The length check of an optional text; absence is never an error.
pub open spec fn exigir_largo_opt(campo: Seq<char>, valor: Option<Seq<char>>, max: nat, clave: Seq<char>) -> Seq<FieldErrorV> {
    match valor {
        Some(v) => exigir_largo(campo, v, max, clave),
        None => seq![],
    }
}

/// The text of an optional string, as a sequence.
pub open spec fn opt_v(o: Option<String>) -> Option<Seq<char>> {
    match o {
        Some(s) => Some(s@),
        None => None,
    }
}

/// An optional text that is blank means absence: the trimmed text when something is left.
pub open spec fn presente_v(valor: Option<Seq<char>>) -> Option<Seq<char>> {
    match valor {
        Some(v) => if recortar(v).len() == 0 {
            None
        } else {
            Some(recortar(v))
        },
        None => None,
    }
}

/// The accumulator of field errors of one form.
pub struct Validator {
    pub errores: Vec<FieldError>,
}

impl View for Validator {
    type V = Seq<FieldErrorV>;

    open spec fn view(&self) -> Seq<FieldErrorV> {
        self.errores@.map_values(|f: FieldError| f@)
    }
}

/// The outcome of a form whose problems are `errores`: fine when there are none, otherwise a
/// validation error listing all of them in order.
pub open spec fn resultado_de(r: Result<(), AppError>, errores: Seq<FieldErrorV>) -> bool {
    &&& (r is Ok <==> errores.len() == 0)
    &&& (r matches Err(e) ==> e is Validation && campos_de(e) == errores)
}

impl Validator {
    pub fn new() -> (v: Validator)
        ensures
            v@ == Seq::<FieldErrorV>::empty(),
    {
        let v = Validator { errores: Vec::new() };
        assert(v@ =~= Seq::<FieldErrorV>::empty());
        v
    }

    /// Records a problem.
    pub fn push(&mut self, error: FieldError)
        ensures
            final(self)@ == old(self)@.push(error@),
    {
        self.errores.push(error);
        assert(self@ =~= old(self)@.push(error@));
    }

    /// Records `error` unless the condition holds.
    pub fn require(&mut self, cond: bool, error: FieldError)
        ensures
            final(self)@ == old(self)@ + exigir(cond, error@),
    {
        if !cond {
            self.push(error);
        } else {
            assert(old(self)@ + exigir(cond, error@) =~= old(self)@);
        }
    }

    /// A required text: blank, that is empty or only whitespace, is a problem.
    pub fn required_text(&mut self, field: &str, value: &str, message_key: &str)
        ensures
            final(self)@ == old(self)@ + exigir_texto(field@, value@, message_key@),
    {
        let blanco = es_blanco(value);
        self.require(!blanco, FieldError::new(field, message_key));
    }

    /// At most `max` characters, counted as characters and not as bytes.
    pub fn max_length(&mut self, field: &str, value: &str, max: usize, message_key: &str)
        ensures
            final(self)@ == old(self)@ + exigir_largo(field@, value@, max as nat, message_key@),
    {
        if largo(value) > max {
            let e = FieldError::new(field, message_key).with_param("max", texto_u64(max as u64));
            assert(e@.params =~= seq![("max"@, decimal(max as nat))]);
            self.push(e);
        } else {
            assert(old(self)@ + exigir_largo(field@, value@, max as nat, message_key@) =~= old(self)@);
        }
    }

    /// The same limit on an optional text; absence is never a problem.
    pub fn max_length_opt(&mut self, field: &str, value: Option<&str>, max: usize, message_key: &str)
        ensures
            final(self)@ == old(self)@ + exigir_largo_opt(
                field@,
                match value {
                    Some(v) => Some(v@),
                    None => None,
                },
                max as nat,
                message_key@,
            ),
    {
        match value {
            Some(v) => self.max_length(field, v, max, message_key),
            None => {
                assert(old(self)@ + Seq::<FieldErrorV>::empty() =~= old(self)@);
            },
        }
    }

    pub fn is_valid(&self) -> (b: bool)
        ensures
            b == (self@.len() == 0),
    {
        self.errores.len() == 0
    }

    /// Ok when nothing was recorded, otherwise every recorded problem in the order it was found.
    pub fn finish(self) -> (r: Result<(), AppError>)
        ensures
            resultado_de(r, self@),
    {
        if self.errores.len() == 0 {
            Ok(())
        } else {
            let e = AppError::Validation(self.errores);
            Err(e)
        }
    }
}

/// An optional text that is blank means absence, not a value to validate.
pub fn presente(value: Option<&str>) -> (r: Option<&str>)
    ensures
        match r {
            Some(s) => presente_v(
                match value {
                    Some(v) => Some(v@),
                    None => None,
                },
            ) == Some(s@),
            None => presente_v(
                match value {
                    Some(v) => Some(v@),
                    None => None,
                },
            ) is None,
        },
{
    match value {
        Some(v) => {
            let t = recortado(v);
            if t.unicode_len() == 0 {
                None
            } else {
                Some(t)
            }
        },
        None => None,
    }
}

/// An address with exactly one `@` that is not the first character, no whitespace anywhere, and a
/// domain with a dot that is neither its first nor its last character.
#[verifier::opaque]
pub open spec fn email_valido(s: Seq<char>) -> bool {
    exists|a: int|
        #![trigger s[a]]
        {
            &&& 0 < a < s.len()
            &&& s[a] == '@'
            &&& forall|k: int| 0 <= k < s.len() && k != a ==> s[k] != '@'
            &&& forall|k: int| 0 <= k < s.len() ==> !es_espacio(s[k])
            &&& exists|p: int| a + 1 < p < s.len() - 1 && s[p] == '.'
        }
}

/// A CUIT written as `NN-NNNNNNNN-N`: thirteen characters, the dashes in place, digits elsewhere.
#[verifier::opaque]
pub open spec fn cuit_valido(s: Seq<char>) -> bool {
    &&& s.len() == 13
    &&& forall|k: int|
        0 <= k < 13 ==> if k == 2 || k == 11 {
            s[k] == '-'
        } else {
            '0' <= #[trigger] s[k] <= '9'
        }
}

/// Whether no character is whitespace.
pub fn sin_espacios(s: &str) -> (b: bool)
    ensures
        b == forall|k: int| 0 <= k < s@.len() ==> !es_espacio(s@[k]),
{
    let n = s.unicode_len();
    let mut i: usize = 0;
    while i < n
        invariant
            n == s@.len(),
            i <= n,
            forall|k: int| 0 <= k < i ==> !es_espacio(s@[k]),
        decreases n - i,
    {
        if espacio(s.get_char(i)) {
            return false;
        }
        i = i + 1;
    }
    true
}

/// The position of the only occurrence of `c`, if it occurs exactly once.
pub fn posicion_unica(s: &str, c: char) -> (r: Option<usize>)
    ensures
        r matches Some(a) ==> a < s@.len() && s@[a as int] == c && forall|k: int|
            0 <= k < s@.len() && k != a ==> s@[k] != c,
        r is None ==> forall|a: int|
            0 <= a < s@.len() && s@[a] == c ==> exists|k: int|
                0 <= k < s@.len() && k != a && s@[k] == c,
{
    let n = s.unicode_len();
    let mut encontrado: Option<usize> = None;
    let mut i: usize = 0;
    while i < n
        invariant
            n == s@.len(),
            i <= n,
            encontrado is None ==> forall|k: int| 0 <= k < i ==> s@[k] != c,
            encontrado matches Some(a) ==> a < i && s@[a as int] == c && forall|k: int|
                0 <= k < i && k != a ==> s@[k] != c,
        decreases n - i,
    {
        if s.get_char(i) == c {
            match encontrado {
                Some(a) => {
                    assert(s@[i as int] == c && s@[a as int] == c);
                    return None;
                },
                None => {
                    encontrado = Some(i);
                },
            }
        }
        i = i + 1;
    }
    encontrado
}

/// Whether there is a dot strictly after `desde` and before the last character.
pub fn punto_interior(s: &str, desde: usize) -> (b: bool)
    ensures
        b == exists|p: int| desde < p < s@.len() - 1 && s@[p] == '.',
{
    let n = s.unicode_len();
    if n == 0 {
        return false;
    }
    if desde >= n {
        return false;
    }
    let mut p: usize = desde + 1;
    while p < n - 1
        invariant
            n == s@.len(),
            desde < n,
            desde + 1 <= p,
            forall|q: int| desde < q < p ==> s@[q] != '.',
        decreases n - p,
    {
        if s.get_char(p) == '.' {
            return true;
        }
        p = p + 1;
    }
    false
}

pub fn es_email(s: &str) -> (b: bool)
    ensures
        b == email_valido(s@),
{
    reveal(email_valido);
    if !sin_espacios(s) {
        return false;
    }
    match posicion_unica(s, '@') {
        None => {
            assert(!email_valido(s@)) by {
                if email_valido(s@) {
                    let a = choose|a: int|
                        #![trigger s@[a]]
                        {
                            &&& 0 < a < s@.len()
                            &&& s@[a] == '@'
                            &&& forall|k: int| 0 <= k < s@.len() && k != a ==> s@[k] != '@'
                            &&& forall|k: int| 0 <= k < s@.len() ==> !es_espacio(s@[k])
                            &&& exists|p: int| a + 1 < p < s@.len() - 1 && s@[p] == '.'
                        };
                    assert(s@[a] == '@');
                }
            }
            false
        },
        Some(a) => {
            if a == 0 {
                assert(!email_valido(s@)) by {
                    if email_valido(s@) {
                        let x = choose|x: int|
                            #![trigger s@[x]]
                            {
                                &&& 0 < x < s@.len()
                                &&& s@[x] == '@'
                                &&& forall|k: int| 0 <= k < s@.len() && k != x ==> s@[k] != '@'
                                &&& forall|k: int| 0 <= k < s@.len() ==> !es_espacio(s@[k])
                                &&& exists|p: int| x + 1 < p < s@.len() - 1 && s@[p] == '.'
                            };
                        assert(s@[x] == '@');
                    }
                }
                return false;
            }
            let hay = if a < s.unicode_len() - 1 {
                punto_interior(s, a + 1)
            } else {
                false
            };
            if hay {
                assert(s@[a as int] == '@');
            } else {
                assert(!email_valido(s@)) by {
                    if email_valido(s@) {
                        let x = choose|x: int|
                            #![trigger s@[x]]
                            {
                                &&& 0 < x < s@.len()
                                &&& s@[x] == '@'
                                &&& forall|k: int| 0 <= k < s@.len() && k != x ==> s@[k] != '@'
                                &&& forall|k: int| 0 <= k < s@.len() ==> !es_espacio(s@[k])
                                &&& exists|p: int| x + 1 < p < s@.len() - 1 && s@[p] == '.'
                            };
                        assert(s@[x] == '@');
                        assert(x == a);
                    }
                }
            }
            hay
        },
    }
}

pub fn es_cuit(s: &str) -> (b: bool)
    ensures
        b == cuit_valido(s@),
{
    reveal(cuit_valido);
    if s.unicode_len() != 13 {
        return false;
    }
    let mut k: usize = 0;
    while k < 13
        invariant
            s@.len() == 13,
            k <= 13,
            forall|j: int|
                0 <= j < k ==> if j == 2 || j == 11 {
                    s@[j] == '-'
                } else {
                    '0' <= #[trigger] s@[j] <= '9'
                },
        decreases 13 - k,
    {
        let c = s.get_char(k);
        let bien = if k == 2 || k == 11 {
            c == '-'
        } else {
            '0' <= c && c <= '9'
        };
        if !bien {
            proof {
                reveal(cuit_valido);
            }
            return false;
        }
        k = k + 1;
    }
    true
}

/// The name of a field inside a list: `lista[i].campo`.
pub open spec fn campo_indexado(lista: Seq<char>, i: nat, campo: Seq<char>) -> Seq<char> {
    lista + "["@ + decimal(i) + "]."@ + campo
}

pub fn nombre_indexado(lista: &str, i: usize, campo: &str) -> (r: String)
    ensures
        r@ == campo_indexado(lista@, i as nat, campo@),
{
    let a = unir(lista, "[");
    let n = texto_u64(i as u64);
    let b = a.concat(n.as_str());
    let c = b.concat("].");
    c.concat(campo)
}

} // verus!

//! The customer form, with its grid of contacts.

use vstd::prelude::*;
use vstd::string::*;
use crate::error::{error_campo, AppError, FieldError, FieldErrorV};
use crate::texto::{a_minusculas, decimal, iguales, minusculas, recortado, recortar, texto_u64};
use crate::validacion::{
    campo_indexado, cuit_valido, email_valido, es_cuit, es_email, exigir, exigir_largo, exigir_largo_opt,
    exigir_texto, nombre_indexado, opt_v, presente, presente_v, resultado_de, Validator, DIRECCION, EMAIL,
    NOMBRE_CORTO, NOMBRE_LARGO, TELEFONO,
};

verus! {

/// A row of the contacts grid.
#[derive(Debug)]
pub struct ClienteContactoInput {
    pub id: Option<u128>,
    pub etiqueta: String,
    pub email: String,
    pub nombre: Option<String>,
    pub telefono: Option<String>,
    pub es_principal: bool,
}

/// What the customer form sends.
#[derive(Debug)]
pub struct ClienteInput {
    pub nombre: String,
    pub cuit: Option<String>,
    pub direccion: Option<String>,
    pub telefono: Option<String>,
    pub email: Option<String>,
    pub condicion_iva: Option<String>,
    pub contactos: Vec<ClienteContactoInput>,
}

/// The name of a field of the `i`-th contact.
pub open spec fn campo_contacto(i: nat, campo: Seq<char>) -> Seq<char> {
    campo_indexado("contactos"@, i, campo)
}

/// The checks of one contact: a label, an address that is stored as given and looks like one,
/// and the lengths.
pub open spec fn errores_contacto(i: nat, c: ClienteContactoInput) -> Seq<FieldErrorV> {
    exigir_texto(campo_contacto(i, "etiqueta"@), c.etiqueta@, "Validation.Cliente.ContactoEtiquetaRequired"@)
        + exigir_largo(campo_contacto(i, "etiqueta"@), c.etiqueta@, NOMBRE_CORTO as nat, "Validation.Cliente.ContactoEtiquetaMaxLength"@)
        + exigir_texto(campo_contacto(i, "email"@), c.email@, "Validation.Cliente.ContactoEmailRequired"@)
        + errores_email(
            campo_contacto(i, "email"@),
            Some(c.email@),
            "Validation.Cliente.ContactoEmailInvalid"@,
            "Validation.Cliente.ContactoEmailMaxLength"@,
        )
        + exigir_largo_opt(campo_contacto(i, "nombre"@), opt_v(c.nombre), NOMBRE_LARGO as nat, "Validation.Cliente.ContactoNombreMaxLength"@)
        + exigir_largo_opt(campo_contacto(i, "telefono"@), opt_v(c.telefono), TELEFONO as nat, "Validation.Cliente.ContactoTelefonoMaxLength"@)
}

pub open spec fn errores_contactos(cs: Seq<ClienteContactoInput>) -> Seq<FieldErrorV>
    decreases cs.len(),
{
    if cs.len() == 0 {
        seq![]
    } else {
        errores_contactos(cs.drop_last()) + errores_contacto((cs.len() - 1) as nat, cs.last())
    }
}

/// The number of contacts marked as the main one.
pub open spec fn principales(cs: Seq<ClienteContactoInput>) -> nat
    decreases cs.len(),
{
    if cs.len() == 0 {
        0
    } else {
        principales(cs.drop_last()) + if cs.last().es_principal { 1nat } else { 0nat }
    }
}

/// A contact's address as it is compared: trimmed and lower-cased.
pub open spec fn normalizado(c: ClienteContactoInput) -> Seq<char> {
    minusculas(recortar(c.email@))
}

/// Whether an earlier contact has the same address.
pub open spec fn repetido(cs: Seq<ClienteContactoInput>, i: int) -> bool {
    exists|j: int| 0 <= j < i && normalizado(cs[j]) == normalizado(cs[i])
}

/// The error of the `i`-th contact when an earlier one has its address.
pub open spec fn duplicado_en(cs: Seq<ClienteContactoInput>, i: int) -> Seq<FieldErrorV> {
    if normalizado(cs[i]).len() > 0 && repetido(cs, i) {
        seq![
            FieldErrorV {
                campo: campo_contacto(i as nat, "email"@),
                clave: "Validation.Cliente.ContactoEmailDuplicado"@,
                params: seq![("email"@, normalizado(cs[i]))],
            },
        ]
    } else {
        seq![]
    }
}

/// Two rows with the same address are the same contact typed twice: each repetition is reported
/// at its row, with the address.
pub open spec fn errores_duplicados(cs: Seq<ClienteContactoInput>) -> Seq<FieldErrorV>
    decreases cs.len(),
{
    if cs.len() == 0 {
        seq![]
    } else {
        errores_duplicados(cs.drop_last()) + duplicado_en(cs, cs.len() - 1)
    }
}

/// Every problem of a customer, in the order the form lists them: its own fields, each contact,
/// the single main contact, and the repeated addresses.
pub open spec fn errores_cliente(input: ClienteInput) -> Seq<FieldErrorV> {
    errores_cabecera(input) + errores_contactos(input.contactos@) + errores_principal(input.contactos@)
        + errores_duplicados(input.contactos@)
}

fn como_str(o: &Option<String>) -> (r: Option<&str>)
    ensures
        match r {
            Some(s) => o matches Some(x) && s@ == x@,
            None => o is None,
        },
{
    match o {
        Some(x) => Some(x.as_str()),
        None => None,
    }
}

fn validar_email(v: &mut Validator, campo: &str, email: Option<&str>, clave_invalido: &str, clave_largo: &str)
    ensures
        final(v)@ == old(v)@ + errores_email(
            campo@,
            match email {
                Some(e) => Some(e@),
                None => None,
            },
            clave_invalido@,
            clave_largo@,
        ),
{
    let ghost a = v@;
    match presente(email) {
        Some(e) => {
            v.require(es_email(e), FieldError::new(campo, clave_invalido));
            v.max_length(campo, e, EMAIL, clave_largo);
        },
        None => {
            assert(a + Seq::<FieldErrorV>::empty() =~= a);
        },
    }
}

fn validar_cuit(v: &mut Validator, cuit: Option<&str>)
    ensures
        final(v)@ == old(v)@ + errores_cuit(
            match cuit {
                Some(e) => Some(e@),
                None => None,
            },
        ),
{
    let ghost a = v@;
    match presente(cuit) {
        Some(c) => {
            v.require(es_cuit(c), FieldError::new("cuit", "Validation.Cliente.CuitInvalid"));
        },
        None => {
            assert(a + Seq::<FieldErrorV>::empty() =~= a);
        },
    }
}

fn validar_contacto(v: &mut Validator, i: usize, c: &ClienteContactoInput)
    ensures
        final(v)@ == old(v)@ + errores_contacto(i as nat, *c),
{
    let etiqueta = nombre_indexado("contactos", i, "etiqueta");
    let email = nombre_indexado("contactos", i, "email");
    v.required_text(etiqueta.as_str(), c.etiqueta.as_str(), "Validation.Cliente.ContactoEtiquetaRequired");
    v.max_length(etiqueta.as_str(), c.etiqueta.as_str(), NOMBRE_CORTO, "Validation.Cliente.ContactoEtiquetaMaxLength");
    v.required_text(email.as_str(), c.email.as_str(), "Validation.Cliente.ContactoEmailRequired");
    validar_email(
        v,
        email.as_str(),
        Some(c.email.as_str()),
        "Validation.Cliente.ContactoEmailInvalid",
        "Validation.Cliente.ContactoEmailMaxLength",
    );
    let nombre = nombre_indexado("contactos", i, "nombre");
    let telefono = nombre_indexado("contactos", i, "telefono");
    v.max_length_opt(nombre.as_str(), como_str(&c.nombre), NOMBRE_LARGO, "Validation.Cliente.ContactoNombreMaxLength");
    v.max_length_opt(telefono.as_str(), como_str(&c.telefono), TELEFONO, "Validation.Cliente.ContactoTelefonoMaxLength");
    assert(v@ =~= old(v)@ + errores_contacto(i as nat, *c));
}

/// Whether one of the texts equals `x`.
fn visto(vistos: &Vec<String>, x: &str) -> (b: bool)
    ensures
        b == exists|k: int| 0 <= k < vistos@.len() && vistos@[k]@ == x@,
{
    let mut k: usize = 0;
    while k < vistos.len()
        invariant
            k <= vistos@.len(),
            forall|j: int| 0 <= j < k ==> vistos@[j]@ != x@,
        decreases vistos@.len() - k,
    {
        if iguales(vistos[k].as_str(), x) {
            return true;
        }
        k = k + 1;
    }
    false
}

proof fn lema_duplicados_prefijo(cs: Seq<ClienteContactoInput>, i: int)
    requires
        0 <= i < cs.len(),
    ensures
        errores_duplicados(cs.take(i + 1)) == errores_duplicados(cs.take(i)) + duplicado_en(cs, i),
{
    let t = cs.take(i + 1);
    assert(t.drop_last() =~= cs.take(i));
    assert(t[i] == cs[i]);
    assert(duplicado_en(t, i) == duplicado_en(cs, i)) by {
        if repetido(cs, i) {
            let j = choose|j: int| 0 <= j < i && normalizado(cs[j]) == normalizado(cs[i]);
            assert(t[j] == cs[j]);
        }
        if repetido(t, i) {
            let j = choose|j: int| 0 <= j < i && normalizado(t[j]) == normalizado(t[i]);
            assert(t[j] == cs[j]);
        }
    }
}

/// The check of an optional address: blank is absence, anything else has to look like an address
/// and fit.
pub open spec fn errores_email(campo: Seq<char>, email: Option<Seq<char>>, clave_invalido: Seq<char>, clave_largo: Seq<char>) -> Seq<FieldErrorV> {
    match presente_v(email) {
        Some(e) => exigir(email_valido(e), error_campo(campo, clave_invalido)) + exigir_largo(campo, e, EMAIL as nat, clave_largo),
        None => seq![],
    }
}

/// The check of an optional CUIT: blank is absence.
pub open spec fn errores_cuit(cuit: Option<Seq<char>>) -> Seq<FieldErrorV> {
    match presente_v(cuit) {
        Some(c) => exigir(cuit_valido(c), error_campo("cuit"@, "Validation.Cliente.CuitInvalid"@)),
        None => seq![],
    }
}

/// The checks of the customer's own fields.
pub open spec fn errores_cabecera(input: ClienteInput) -> Seq<FieldErrorV> {
    exigir_texto("nombre"@, input.nombre@, "Validation.Cliente.NombreRequired"@)
        + exigir_largo("nombre"@, input.nombre@, NOMBRE_LARGO as nat, "Validation.Cliente.NombreMaxLength"@)
        + errores_email("email"@, opt_v(input.email), "Validation.Cliente.EmailInvalid"@, "Validation.Cliente.EmailMaxLength"@)
        + errores_cuit(opt_v(input.cuit))
        + exigir_largo_opt("telefono"@, opt_v(input.telefono), TELEFONO as nat, "Validation.Cliente.TelefonoMaxLength"@)
        + exigir_largo_opt("direccion"@, opt_v(input.direccion), DIRECCION as nat, "Validation.Cliente.DireccionMaxLength"@)
        + exigir_largo_opt(
            "condicionIva"@,
            opt_v(input.condicion_iva),
            NOMBRE_CORTO as nat,
            "Validation.Cliente.CondicionIvaMaxLength"@,
        )
}

/// The single main contact.
pub open spec fn errores_principal(cs: Seq<ClienteContactoInput>) -> Seq<FieldErrorV> {
    exigir(
        principales(cs) <= 1,
        FieldErrorV {
            campo: "contactos"@,
            clave: "Validation.Cliente.ContactoPrincipalUnico"@,
            params: seq![("count"@, decimal(principales(cs)))],
        },
    )
}

#[verifier::rlimit(60)]
fn validar_cabecera(v: &mut Validator, input: &ClienteInput)
    ensures
        final(v)@ == old(v)@ + errores_cabecera(*input),
{
    let ghost a = v@;
    v.required_text("nombre", input.nombre.as_str(), "Validation.Cliente.NombreRequired");
    let ghost p1 = exigir_texto("nombre"@, input.nombre@, "Validation.Cliente.NombreRequired"@);
    v.max_length("nombre", input.nombre.as_str(), NOMBRE_LARGO, "Validation.Cliente.NombreMaxLength");
    let ghost p2 = p1 + exigir_largo("nombre"@, input.nombre@, NOMBRE_LARGO as nat, "Validation.Cliente.NombreMaxLength"@);
    assert(v@ =~= a + p2);
    let email = como_str(&input.email);
    validar_email(v, "email", email, "Validation.Cliente.EmailInvalid", "Validation.Cliente.EmailMaxLength");
    let ghost p3 = p2 + errores_email("email"@, opt_v(input.email), "Validation.Cliente.EmailInvalid"@, "Validation.Cliente.EmailMaxLength"@);
    assert(v@ =~= a + p3);
    let cuit = como_str(&input.cuit);
    validar_cuit(v, cuit);
    let ghost p4 = p3 + errores_cuit(opt_v(input.cuit));
    assert(v@ =~= a + p4);
    v.max_length_opt("telefono", como_str(&input.telefono), TELEFONO, "Validation.Cliente.TelefonoMaxLength");
    let ghost p5 = p4 + exigir_largo_opt("telefono"@, opt_v(input.telefono), TELEFONO as nat, "Validation.Cliente.TelefonoMaxLength"@);
    assert(v@ =~= a + p5);
    v.max_length_opt("direccion", como_str(&input.direccion), DIRECCION, "Validation.Cliente.DireccionMaxLength");
    let ghost p6 = p5 + exigir_largo_opt("direccion"@, opt_v(input.direccion), DIRECCION as nat, "Validation.Cliente.DireccionMaxLength"@);
    assert(v@ =~= a + p6);
    v.max_length_opt("condicionIva", como_str(&input.condicion_iva), NOMBRE_CORTO, "Validation.Cliente.CondicionIvaMaxLength");
    let ghost p7 = p6 + exigir_largo_opt(
        "condicionIva"@,
        opt_v(input.condicion_iva),
        NOMBRE_CORTO as nat,
        "Validation.Cliente.CondicionIvaMaxLength"@,
    );
    assert(v@ =~= a + p7);
    assert(p7 == errores_cabecera(*input));
}

fn validar_contactos(v: &mut Validator, cs: &Vec<ClienteContactoInput>)
    ensures
        final(v)@ == old(v)@ + errores_contactos(cs@) + errores_principal(cs@),
{
    let ghost cabecera = v@;
    let mut i: usize = 0;
    let mut n_principales: u64 = 0;
    assert(cs@.take(0) =~= Seq::<ClienteContactoInput>::empty());
    assert(cabecera + errores_contactos(cs@.take(0)) =~= cabecera);
    while i < cs.len()
        invariant
            i <= cs@.len(),
            v@ == cabecera + errores_contactos(cs@.take(i as int)),
            n_principales == principales(cs@.take(i as int)),
            n_principales <= i,
        decreases cs@.len() - i,
    {
        assert(cs@.take(i + 1).drop_last() =~= cs@.take(i as int));
        assert(cs@.take(i + 1).last() == cs@[i as int]);
        validar_contacto(v, i, &cs[i]);
        if cs[i].es_principal {
            n_principales = n_principales + 1;
        }
        assert(v@ =~= cabecera + errores_contactos(cs@.take(i + 1)));
        i = i + 1;
    }
    assert(cs@.take(cs@.len() as int) =~= cs@);
    let e = FieldError::new("contactos", "Validation.Cliente.ContactoPrincipalUnico").with_param("count", texto_u64(n_principales));
    assert(e@ == (FieldErrorV {
        campo: "contactos"@,
        clave: "Validation.Cliente.ContactoPrincipalUnico"@,
        params: seq![("count"@, decimal(principales(cs@)))],
    }));
    v.require(n_principales <= 1, e);
}

/// The addresses already seen are exactly the non-blank ones of the first `i` contacts.
#[verifier::opaque]
pub open spec fn vistos_ok(vistos: Seq<String>, cs: Seq<ClienteContactoInput>, i: int) -> bool {
    &&& forall|j: int|
        0 <= j < i && normalizado(#[trigger] cs[j]).len() > 0 ==> exists|k: int|
            0 <= k < vistos.len() && (#[trigger] vistos[k])@ == normalizado(cs[j])
    &&& forall|k: int|
        0 <= k < vistos.len() ==> exists|j: int| 0 <= j < i && (#[trigger] vistos[k])@ == normalizado(#[trigger] cs[j])
}

proof fn lema_vistos_blanco(vs: Seq<String>, cs: Seq<ClienteContactoInput>, i: int)
    requires
        0 <= i < cs.len(),
        vistos_ok(vs, cs, i),
        normalizado(cs[i]).len() == 0,
    ensures
        vistos_ok(vs, cs, i + 1),
{
    reveal(vistos_ok);
    assert forall|k: int| 0 <= k < vs.len() implies exists|j: int|
        0 <= j < i + 1 && (#[trigger] vs[k])@ == normalizado(#[trigger] cs[j]) by {
        let j = choose|j: int| 0 <= j < i && (#[trigger] vs[k])@ == normalizado(#[trigger] cs[j]);
    }
}

proof fn lema_vistos_push(vs: Seq<String>, cs: Seq<ClienteContactoInput>, i: int, e: String)
    requires
        0 <= i < cs.len(),
        vistos_ok(vs, cs, i),
        e@ == normalizado(cs[i]),
    ensures
        vistos_ok(vs.push(e), cs, i + 1),
{
    reveal(vistos_ok);
    let ws = vs.push(e);
    assert forall|j: int| 0 <= j < i + 1 && normalizado(#[trigger] cs[j]).len() > 0 implies exists|k: int|
        0 <= k < ws.len() && (#[trigger] ws[k])@ == normalizado(cs[j]) by {
        if j < i {
            let k = choose|k: int| 0 <= k < vs.len() && (#[trigger] vs[k])@ == normalizado(cs[j]);
            assert(ws[k] == vs[k]);
        } else {
            assert(ws[vs.len() as int]@ == normalizado(cs[j]));
        }
    }
    assert forall|k: int| 0 <= k < ws.len() implies exists|j: int|
        0 <= j < i + 1 && (#[trigger] ws[k])@ == normalizado(#[trigger] cs[j]) by {
        if k < vs.len() {
            assert(ws[k] == vs[k]);
            let j = choose|j: int| 0 <= j < i && (#[trigger] vs[k])@ == normalizado(#[trigger] cs[j]);
        } else {
            assert(ws[k]@ == normalizado(cs[i]));
        }
    }
}

proof fn lema_repetido(vs: Seq<String>, cs: Seq<ClienteContactoInput>, i: int)
    requires
        0 <= i < cs.len(),
        vistos_ok(vs, cs, i),
        normalizado(cs[i]).len() > 0,
    ensures
        repetido(cs, i) == exists|k: int| 0 <= k < vs.len() && vs[k]@ == normalizado(cs[i]),
{
    reveal(vistos_ok);
    if repetido(cs, i) {
        let j = choose|j: int| 0 <= j < i && normalizado(cs[j]) == normalizado(cs[i]);
        assert(normalizado(cs[j]).len() > 0);
        let k = choose|k: int| 0 <= k < vs.len() && (#[trigger] vs[k])@ == normalizado(cs[j]);
        assert(vs[k]@ == normalizado(cs[i]));
    }
    if exists|k: int| 0 <= k < vs.len() && vs[k]@ == normalizado(cs[i]) {
        let k = choose|k: int| 0 <= k < vs.len() && vs[k]@ == normalizado(cs[i]);
        let j = choose|j: int| 0 <= j < i && (#[trigger] vs[k])@ == normalizado(#[trigger] cs[j]);
        assert(normalizado(cs[j]) == normalizado(cs[i]));
    }
}

/// The repetition check of the `i`-th contact.
fn revisar_duplicado(v: &mut Validator, vistos: &mut Vec<String>, cs: &Vec<ClienteContactoInput>, i: usize)
    requires
        i < cs@.len(),
        vistos_ok(old(vistos)@, cs@, i as int),
    ensures
        vistos_ok(final(vistos)@, cs@, i + 1),
        final(v)@ == old(v)@ + duplicado_en(cs@, i as int),
{
    let email = a_minusculas(recortado(cs[i].email.as_str()));
    assert(email@ == normalizado(cs@[i as int]));
    let ghost antes = v@;
    if email.as_str().unicode_len() == 0 {
        proof {
            lema_vistos_blanco(vistos@, cs@, i as int);
        }
        assert(antes + Seq::<FieldErrorV>::empty() =~= antes);
    } else {
        proof {
            lema_repetido(vistos@, cs@, i as int);
        }
        let ya = visto(vistos, email.as_str());
        if ya {
            let e = FieldError::new(nombre_indexado("contactos", i, "email").as_str(), "Validation.Cliente.ContactoEmailDuplicado")
                .with_param("email", crate::texto::copia(email.as_str()));
            v.push(e);
        } else {
            assert(antes + Seq::<FieldErrorV>::empty() =~= antes);
        }
        proof {
            lema_vistos_push(vistos@, cs@, i as int, email);
        }
        vistos.push(email);
    }
}

#[verifier::rlimit(40)]
fn validar_duplicados(v: &mut Validator, cs: &Vec<ClienteContactoInput>)
    ensures
        final(v)@ == old(v)@ + errores_duplicados(cs@),
{
    let ghost medio = v@;
    let mut vistos: Vec<String> = Vec::new();
    let mut i: usize = 0;
    assert(cs@.take(0) =~= Seq::<ClienteContactoInput>::empty());
    assert(medio + errores_duplicados(cs@.take(0)) =~= medio);
    assert(vistos_ok(vistos@, cs@, 0)) by {
        reveal(vistos_ok);
    }
    while i < cs.len()
        invariant
            i <= cs@.len(),
            v@ == medio + errores_duplicados(cs@.take(i as int)),
            vistos_ok(vistos@, cs@, i as int),
        decreases cs@.len() - i,
    {
        proof {
            lema_duplicados_prefijo(cs@, i as int);
        }
        revisar_duplicado(v, &mut vistos, cs, i);
        assert(v@ =~= medio + errores_duplicados(cs@.take(i + 1)));
        i = i + 1;
    }
    assert(cs@.take(cs@.len() as int) =~= cs@);
}

pub fn validate(input: &ClienteInput) -> (r: Result<(), AppError>)
    ensures
        resultado_de(r, errores_cliente(*input)),
{
    let mut v = Validator::new();
    validar_cabecera(&mut v, input);
    validar_contactos(&mut v, &input.contactos);
    validar_duplicados(&mut v, &input.contactos);
    assert(v@ =~= errores_cliente(*input));
    v.finish()
}

} // verus!

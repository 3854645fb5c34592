//! Errors carry translation keys, never translated text, and internal causes never reach the
//! user: a persistence, I/O or unexpected failure is marked internal and shows a generic key.

use vstd::prelude::*;
use crate::dinero::DomainError;
use crate::texto::{copia, iguales};

verus! {

/// `anyhow::Error`, the cause of an internal failure; held opaque and never inspected here.
#[verifier::external_type_specification]
#[verifier::external_body]
pub struct ExAnyhowError(anyhow::Error);

/// A named parameter of a message, as text.
pub open spec fn param_v(p: (String, String)) -> (Seq<char>, Seq<char>) {
    (p.0@, p.1@)
}

/// The parameters as pairs of texts.
pub open spec fn params_v(ps: Seq<(String, String)>) -> Seq<(Seq<char>, Seq<char>)> {
    ps.map_values(|p: (String, String)| param_v(p))
}

/// One problem with one field of a form.
#[derive(Debug)]
pub struct FieldError {
    pub field: String,
    pub message_key: String,
    pub params: Vec<(String, String)>,
}

/// What a `FieldError` says, as texts.
pub struct FieldErrorV {
    pub campo: Seq<char>,
    pub clave: Seq<char>,
    pub params: Seq<(Seq<char>, Seq<char>)>,
}

impl View for FieldError {
    type V = FieldErrorV;

    open spec fn view(&self) -> FieldErrorV {
        FieldErrorV { campo: self.field@, clave: self.message_key@, params: params_v(self.params@) }
    }
}

/// A field error with no parameters.
pub open spec fn error_campo(campo: Seq<char>, clave: Seq<char>) -> FieldErrorV {
    FieldErrorV { campo, clave, params: seq![] }
}

/// The value of the first parameter with the given name.
pub open spec fn valor_param(ps: Seq<(Seq<char>, Seq<char>)>, clave: Seq<char>) -> Option<Seq<char>>
    decreases ps.len(),
{
    if ps.len() == 0 {
        None
    } else if ps[0].0 == clave {
        Some(ps[0].1)
    } else {
        valor_param(ps.drop_first(), clave)
    }
}

impl FieldError {
    pub fn new(field: &str, message_key: &str) -> (e: FieldError)
        ensures
            e@ == error_campo(field@, message_key@),
    {
        let e = FieldError { field: copia(field), message_key: copia(message_key), params: Vec::new() };
        assert(params_v(e.params@) =~= seq![]);
        e
    }

    /// The same error with a named parameter appended.
    pub fn with_param(self, name: &str, value: String) -> (e: FieldError)
        ensures
            e@ == (FieldErrorV {
                campo: self@.campo,
                clave: self@.clave,
                params: self@.params.push((name@, value@)),
            }),
    {
        let mut e = self;
        let ghost antes = e.params@;
        e.params.push((copia(name), value));
        assert(params_v(e.params@) =~= params_v(antes).push((name@, value@)));
        e
    }

    /// The value of a named parameter.
    pub fn param(&self, name: &str) -> (r: Option<String>)
        ensures
            r matches Some(v) ==> valor_param(self@.params, name@) == Some(v@),
            r is None ==> valor_param(self@.params, name@) is None,
    {
        buscar_param(&self.params, name)
    }
}

/// The vocabulary of errors the use cases return.
#[derive(Debug)]
pub enum AppError {
    /// One or more fields of a form are wrong; every problem is reported at once.
    Validation(Vec<FieldError>),
    /// The entity with this id does not exist, or was deleted.
    NotFound { entity: String, id: String },
    /// A business rule refuses the operation.
    Conflict { code: String, message_key: String, params: Vec<(String, String)> },
    /// Somebody else changed the row since it was read.
    Concurrency { entity: String },
    /// The row is referenced by others and cannot go.
    DependencyInUse { code: String, message_key: String, params: Vec<(String, String)> },
    /// An arithmetic rule of the domain failed.
    Domain(DomainError),
    /// An external service could not be reached.
    ExternalUnavailable { service: String },
    /// The database failed.
    Persistence(anyhow::Error),
    /// The file system failed.
    Io(anyhow::Error),
    /// Anything else that should not have happened.
    Unexpected(anyhow::Error),
}

/// The machine-readable code of each kind of error.
pub open spec fn codigo_de(e: AppError) -> Seq<char> {
    match e {
        AppError::Validation(_) => "VALIDATION"@,
        AppError::NotFound { .. } => "NOT_FOUND"@,
        AppError::Conflict { .. } => "CONFLICT"@,
        AppError::Concurrency { .. } => "CONCURRENCY"@,
        AppError::DependencyInUse { .. } => "DEPENDENCY_IN_USE"@,
        AppError::Domain(_) => "DOMAIN"@,
        AppError::ExternalUnavailable { .. } => "EXTERNAL_UNAVAILABLE"@,
        AppError::Persistence(_) => "PERSISTENCE"@,
        AppError::Io(_) => "IO"@,
        AppError::Unexpected(_) => "UNEXPECTED"@,
    }
}

/// The translation key the interface shows for each error.
pub open spec fn clave_de(e: AppError) -> Seq<char> {
    match e {
        AppError::Validation(_) => "Error.Validation"@,
        AppError::NotFound { .. } => "Error.NotFound"@,
        AppError::Conflict { message_key, .. } => message_key@,
        AppError::Concurrency { .. } => "Error.Concurrency"@,
        AppError::DependencyInUse { message_key, .. } => message_key@,
        AppError::Domain(_) => "Error.Domain"@,
        AppError::ExternalUnavailable { .. } => "Error.ExternalUnavailable"@,
        AppError::Persistence(_) => "Error.Internal"@,
        AppError::Io(_) => "Error.Internal"@,
        AppError::Unexpected(_) => "Error.Internal"@,
    }
}

/// Whether the cause is internal and must not be shown.
pub open spec fn es_interno(e: AppError) -> bool {
    e is Persistence || e is Io || e is Unexpected
}

/// The field errors of a validation error, none for any other.
pub open spec fn campos_de(e: AppError) -> Seq<FieldErrorV> {
    match e {
        AppError::Validation(fs) => fs@.map_values(|f: FieldError| f@),
        _ => seq![],
    }
}

/// The parameters the message of an error is interpolated with.
pub open spec fn params_de(e: AppError) -> Seq<(Seq<char>, Seq<char>)> {
    match e {
        AppError::NotFound { entity, id } => seq![("entity"@, entity@), ("id"@, id@)],
        AppError::Conflict { params, .. } => params_v(params@),
        AppError::DependencyInUse { params, .. } => params_v(params@),
        AppError::Concurrency { entity } => seq![("entity"@, entity@)],
        AppError::ExternalUnavailable { service } => seq![("service"@, service@)],
        _ => seq![],
    }
}

/// The field errors as texts.
pub open spec fn vistas(fs: Seq<FieldError>) -> Seq<FieldErrorV> {
    fs.map_values(|f: FieldError| f@)
}

impl AppError {
    pub fn not_found(entity: &str, id: &str) -> (e: AppError)
        ensures
            e matches AppError::NotFound { entity: en, id: i } && en@ == entity@ && i@ == id@,
    {
        AppError::NotFound { entity: copia(entity), id: copia(id) }
    }

    /// A refusal with a code and a key and no parameters.
    pub fn conflict(code: &str, message_key: &str) -> (e: AppError)
        ensures
            e matches AppError::Conflict { code: c, message_key: k, params: p } && c@ == code@
                && k@ == message_key@ && p@.len() == 0,
    {
        AppError::Conflict { code: copia(code), message_key: copia(message_key), params: Vec::new() }
    }

    /// A refusal because the row is still referenced, with no parameters.
    pub fn dependency_in_use(code: &str, message_key: &str) -> (e: AppError)
        ensures
            e matches AppError::DependencyInUse { code: c, message_key: k, params: p } && c@
                == code@ && k@ == message_key@ && p@.len() == 0,
    {
        AppError::DependencyInUse {
            code: copia(code),
            message_key: copia(message_key),
            params: Vec::new(),
        }
    }

    pub fn persistence(cause: anyhow::Error) -> (e: AppError)
        ensures
            e is Persistence,
    {
        AppError::Persistence(cause)
    }

    pub fn io(cause: anyhow::Error) -> (e: AppError)
        ensures
            e is Io,
    {
        AppError::Io(cause)
    }

    pub fn unexpected(cause: anyhow::Error) -> (e: AppError)
        ensures
            e is Unexpected,
    {
        AppError::Unexpected(cause)
    }

    pub fn code(&self) -> (c: String)
        ensures
            c@ == codigo_de(*self),
    {
        match self {
            AppError::Validation(_) => copia("VALIDATION"),
            AppError::NotFound { .. } => copia("NOT_FOUND"),
            AppError::Conflict { .. } => copia("CONFLICT"),
            AppError::Concurrency { .. } => copia("CONCURRENCY"),
            AppError::DependencyInUse { .. } => copia("DEPENDENCY_IN_USE"),
            AppError::Domain(_) => copia("DOMAIN"),
            AppError::ExternalUnavailable { .. } => copia("EXTERNAL_UNAVAILABLE"),
            AppError::Persistence(_) => copia("PERSISTENCE"),
            AppError::Io(_) => copia("IO"),
            AppError::Unexpected(_) => copia("UNEXPECTED"),
        }
    }

    pub fn message_key(&self) -> (k: String)
        ensures
            k@ == clave_de(*self),
    {
        match self {
            AppError::Validation(_) => copia("Error.Validation"),
            AppError::NotFound { .. } => copia("Error.NotFound"),
            AppError::Conflict { message_key, .. } => copia(message_key.as_str()),
            AppError::Concurrency { .. } => copia("Error.Concurrency"),
            AppError::DependencyInUse { message_key, .. } => copia(message_key.as_str()),
            AppError::Domain(_) => copia("Error.Domain"),
            AppError::ExternalUnavailable { .. } => copia("Error.ExternalUnavailable"),
            AppError::Persistence(_) => copia("Error.Internal"),
            AppError::Io(_) => copia("Error.Internal"),
            AppError::Unexpected(_) => copia("Error.Internal"),
        }
    }

    pub fn is_internal(&self) -> (b: bool)
        ensures
            b == es_interno(*self),
    {
        match self {
            AppError::Persistence(_) | AppError::Io(_) | AppError::Unexpected(_) => true,
            _ => false,
        }
    }

    /// The field errors; only a validation error has any.
    pub fn fields(&self) -> (fs: &[FieldError])
        ensures
            vistas(fs@) == campos_de(*self),
    {
        match self {
            AppError::Validation(fs) => fs.as_slice(),
            _ => {
                let v: &[FieldError] = &[];
                assert(vistas(v@) =~= seq![]);
                v
            },
        }
    }

    /// The parameters the message is interpolated with.
    pub fn params(&self) -> (ps: Vec<(String, String)>)
        ensures
            params_v(ps@) == params_de(*self),
    {
        let mut ps: Vec<(String, String)> = Vec::new();
        match self {
            AppError::NotFound { entity, id } => {
                ps.push((copia("entity"), copia(entity.as_str())));
                ps.push((copia("id"), copia(id.as_str())));
            },
            AppError::Conflict { params, .. } => {
                ps = copiar_params(params);
            },
            AppError::DependencyInUse { params, .. } => {
                ps = copiar_params(params);
            },
            AppError::Concurrency { entity } => {
                ps.push((copia("entity"), copia(entity.as_str())));
            },
            AppError::ExternalUnavailable { service } => {
                ps.push((copia("service"), copia(service.as_str())));
            },
            _ => {},
        }
        assert(params_v(ps@) =~= params_de(*self));
        ps
    }

    /// The value of a named parameter of the message.
    pub fn param(&self, name: &str) -> (r: Option<String>)
        ensures
            r matches Some(v) ==> valor_param(params_de(*self), name@) == Some(v@),
            r is None ==> valor_param(params_de(*self), name@) is None,
    {
        let ps = self.params();
        buscar_param(&ps, name)
    }
}

/// A copy of a list of parameters.
pub fn copiar_params(params: &Vec<(String, String)>) -> (r: Vec<(String, String)>)
    ensures
        params_v(r@) == params_v(params@),
{
    let mut r: Vec<(String, String)> = Vec::new();
    let mut i: usize = 0;
    while i < params.len()
        invariant
            i <= params@.len(),
            r@.len() == i,
            params_v(r@) =~= params_v(params@).take(i as int),
        decreases params@.len() - i,
    {
        let a = copia(params[i].0.as_str());
        let b = copia(params[i].1.as_str());
        let ghost antes = r@;
        r.push((a, b));
        assert(r@ == antes.push((a, b)));
        assert(params_v(r@) =~= params_v(params@).take(i + 1));
        i = i + 1;
    }
    assert(params_v(params@).take(params@.len() as int) =~= params_v(params@));
    r
}

/// The value of the first parameter with the given name.
pub fn buscar_param(params: &Vec<(String, String)>, name: &str) -> (r: Option<String>)
    ensures
        r matches Some(v) ==> valor_param(params_v(params@), name@) == Some(v@),
        r is None ==> valor_param(params_v(params@), name@) is None,
{
    let mut i: usize = 0;
    assert(params_v(params@).skip(0) =~= params_v(params@));
    while i < params.len()
        invariant
            i <= params@.len(),
            valor_param(params_v(params@), name@) == valor_param(params_v(params@).skip(i as int), name@),
        decreases params@.len() - i,
    {
        let ghost resto = params_v(params@).skip(i as int);
        assert(resto[0] == param_v(params@[i as int]));
        if iguales(params[i].0.as_str(), name) {
            return Some(copia(params[i].1.as_str()));
        }
        assert(resto.drop_first() =~= params_v(params@).skip(i + 1));
        i = i + 1;
    }
    None
}

/// A validation error about a single field.
pub fn validation_err(field: &str, message_key: &str) -> (e: AppError)
    ensures
        campos_de(e) == seq![error_campo(field@, message_key@)],
        e is Validation,
{
    let mut v: Vec<FieldError> = Vec::new();
    v.push(FieldError::new(field, message_key));
    let e = AppError::Validation(v);
    assert(campos_de(e) =~= seq![error_campo(field@, message_key@)]);
    e
}

/// A refusal by a business rule with this code, key and parameters.
pub open spec fn es_conflicto(e: AppError, code: Seq<char>, key: Seq<char>, params: Seq<(Seq<char>, Seq<char>)>) -> bool {
    e matches AppError::Conflict { code: c, message_key: k, params: p } && c@ == code && k@ == key
        && params_v(p@) == params
}

/// A refusal because the row is referenced, with this code, key and parameters.
pub open spec fn es_dependencia(e: AppError, code: Seq<char>, key: Seq<char>, params: Seq<(Seq<char>, Seq<char>)>) -> bool {
    e matches AppError::DependencyInUse { code: c, message_key: k, params: p } && c@ == code && k@
        == key && params_v(p@) == params
}

/// A refusal by a business rule with one named parameter.
pub fn conflicto_con(code: &str, message_key: &str, nombre: &str, valor: String) -> (e: AppError)
    ensures
        es_conflicto(e, code@, message_key@, seq![(nombre@, valor@)]),
{
    let mut params: Vec<(String, String)> = Vec::new();
    params.push((copia(nombre), valor));
    let e = AppError::Conflict { code: copia(code), message_key: copia(message_key), params };
    assert(params_v(params@) =~= seq![(nombre@, valor@)]);
    e
}

/// A refusal because the row is referenced, with one named parameter.
pub fn dependencia_con(code: &str, message_key: &str, nombre: &str, valor: String) -> (e: AppError)
    ensures
        es_dependencia(e, code@, message_key@, seq![(nombre@, valor@)]),
{
    let mut params: Vec<(String, String)> = Vec::new();
    params.push((copia(nombre), valor));
    let e = AppError::DependencyInUse { code: copia(code), message_key: copia(message_key), params };
    assert(params_v(params@) =~= seq![(nombre@, valor@)]);
    e
}

/// `anyhow::Error::msg`: an internal error carrying this message; nothing is claimed of it.
#[verifier::external_body]
pub(crate) fn error_con_mensaje(mensaje: String) -> (e: anyhow::Error) {
    anyhow::Error::msg(mensaje)
}

} // verus!

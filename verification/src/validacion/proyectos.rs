//! The project form.

use vstd::prelude::*;
use crate::error::{error_campo, AppError, FieldError, FieldErrorV};
use crate::validacion::{exigir, exigir_largo, exigir_largo_opt, exigir_texto, opt_v, resultado_de, Validator, DIRECCION, NOMBRE_LARGO};

verus! {

#[derive(Debug)]
pub struct ProyectoInput {
    pub numero: i32,
    pub nombre: String,
    pub direccion: Option<String>,
    pub localidad: Option<String>,
    pub cliente_id: u128,
}

/// The number is what the customer says on the phone, so zero and negatives are typing
/// accidents.
pub open spec fn errores_proyecto(input: ProyectoInput) -> Seq<FieldErrorV> {
    exigir_texto("nombre"@, input.nombre@, "Validation.Proyecto.NombreRequired"@)
        + exigir_largo("nombre"@, input.nombre@, NOMBRE_LARGO as nat, "Validation.Proyecto.NombreMaxLength"@)
        + exigir(input.cliente_id != 0, error_campo("clienteId"@, "Validation.Proyecto.ClienteRequired"@))
        + exigir(input.numero > 0, error_campo("numero"@, "Validation.Proyecto.NumeroRequired"@))
        + exigir_largo_opt("direccion"@, opt_v(input.direccion), DIRECCION as nat, "Validation.Proyecto.DireccionMaxLength"@)
        + exigir_largo_opt("localidad"@, opt_v(input.localidad), NOMBRE_LARGO as nat, "Validation.Proyecto.LocalidadMaxLength"@)
}

pub fn validate(input: &ProyectoInput) -> (r: Result<(), AppError>)
    ensures
        resultado_de(r, errores_proyecto(*input)),
{
    let mut v = Validator::new();
    v.required_text("nombre", input.nombre.as_str(), "Validation.Proyecto.NombreRequired");
    v.max_length("nombre", input.nombre.as_str(), NOMBRE_LARGO, "Validation.Proyecto.NombreMaxLength");
    v.require(input.cliente_id != 0, FieldError::new("clienteId", "Validation.Proyecto.ClienteRequired"));
    v.require(input.numero > 0, FieldError::new("numero", "Validation.Proyecto.NumeroRequired"));
    let direccion = match &input.direccion {
        Some(o) => Some(o.as_str()),
        None => None,
    };
    v.max_length_opt("direccion", direccion, DIRECCION, "Validation.Proyecto.DireccionMaxLength");
    let localidad = match &input.localidad {
        Some(o) => Some(o.as_str()),
        None => None,
    };
    v.max_length_opt("localidad", localidad, NOMBRE_LARGO, "Validation.Proyecto.LocalidadMaxLength");
    assert(v@ =~= errores_proyecto(*input));
    v.finish()
}

} // verus!

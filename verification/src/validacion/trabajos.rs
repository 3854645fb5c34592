//! The job form.

use vstd::prelude::*;
use crate::dinero::Money;
use crate::error::{error_campo, AppError, FieldError, FieldErrorV};
use crate::validacion::{exigir, exigir_largo, exigir_texto, resultado_de, Validator, DESCRIPCION};

verus! {

#[derive(Debug)]
pub struct TrabajoInput {
    pub obra_id: u128,
    pub descripcion: String,
    pub fecha_inicio: i32,
    pub fecha_fin: Option<i32>,
    pub presupuesto: Money,
}

/// The job hangs off a site; it cannot end before it starts; its budget is not negative, though
/// zero is fine.
pub open spec fn errores_trabajo(input: TrabajoInput) -> Seq<FieldErrorV> {
    exigir_texto("descripcion"@, input.descripcion@, "Validation.Trabajo.DescripcionRequired"@)
        + exigir_largo("descripcion"@, input.descripcion@, DESCRIPCION as nat, "Validation.Trabajo.DescripcionMaxLength"@)
        + exigir(input.obra_id != 0, error_campo("obraId"@, "Validation.Trabajo.ObraRequired"@))
        + match input.fecha_fin {
            Some(fin) => exigir(fin >= input.fecha_inicio, error_campo("fechaFin"@, "Validation.Trabajo.FechaFinInvalid"@)),
            None => seq![],
        }
        + exigir(input.presupuesto@ >= 0, error_campo("presupuesto"@, "Validation.Trabajo.PresupuestoNegative"@))
}

pub fn validate(input: &TrabajoInput) -> (r: Result<(), AppError>)
    ensures
        resultado_de(r, errores_trabajo(*input)),
{
    let mut v = Validator::new();
    v.required_text("descripcion", input.descripcion.as_str(), "Validation.Trabajo.DescripcionRequired");
    v.max_length("descripcion", input.descripcion.as_str(), DESCRIPCION, "Validation.Trabajo.DescripcionMaxLength");
    v.require(input.obra_id != 0, FieldError::new("obraId", "Validation.Trabajo.ObraRequired"));
    let ghost antes = v@;
    match input.fecha_fin {
        Some(fin) => {
            v.require(fin >= input.fecha_inicio, FieldError::new("fechaFin", "Validation.Trabajo.FechaFinInvalid"));
        },
        None => {
            assert(antes + Seq::<FieldErrorV>::empty() =~= antes);
        },
    }
    v.require(!input.presupuesto.is_negative(), FieldError::new("presupuesto", "Validation.Trabajo.PresupuestoNegative"));
    assert(v@ =~= errores_trabajo(*input));
    v.finish()
}

} // verus!

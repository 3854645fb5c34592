//! The attendance forms: one cell, and a range of days filled at once. Uniqueness per employee
//! and day is the upsert's business, not a shape check.

use vstd::prelude::*;
use crate::error::{error_campo, AppError, FieldError, FieldErrorV};
use crate::liquidaciones::TipoJornada;
use crate::validacion::movimientos::{contexto_valido, exigir_fecha, validar_fecha, ContextoFecha};
use crate::validacion::{exigir, exigir_largo_opt, opt_v, resultado_de, Validator, OBSERVACIONES};

verus! {

/// One attendance cell; no kind of day means the cell is cleared.
#[derive(Debug)]
pub struct AsistenciaUpsertInput {
    pub empleado_id: u128,
    pub fecha: i32,
    pub tipo_jornada: Option<TipoJornada>,
    pub trabajo_id: Option<u128>,
    pub observaciones: Option<String>,
}

/// A range of days filled with the same kind of day.
#[derive(Debug)]
pub struct AsistenciaRangoInput {
    pub empleado_id: u128,
    pub desde: i32,
    pub hasta: i32,
    pub tipo_jornada: TipoJornada,
    pub solo_dias_habiles: bool,
    pub trabajo_id: Option<u128>,
}

pub open spec fn errores_asistencia(input: AsistenciaUpsertInput, c: ContextoFecha) -> Seq<FieldErrorV> {
    exigir(input.empleado_id != 0, error_campo("empleadoId"@, "Validation.Asistencia.EmpleadoRequired"@))
        + exigir_fecha("fecha"@, input.fecha as int, c, "minima"@, "maxima"@)
        + exigir_largo_opt(
            "observaciones"@,
            opt_v(input.observaciones),
            OBSERVACIONES as nat,
            "Validation.Asistencia.ObservacionesMaxLength"@,
        )
}

pub fn validate(input: &AsistenciaUpsertInput, fechas: &ContextoFecha) -> (r: Result<(), AppError>)
    requires
        contexto_valido(*fechas),
    ensures
        resultado_de(r, errores_asistencia(*input, *fechas)),
{
    let mut v = Validator::new();
    v.require(input.empleado_id != 0, FieldError::new("empleadoId", "Validation.Asistencia.EmpleadoRequired"));
    validar_fecha(&mut v, "fecha", input.fecha, fechas, "minima", "maxima");
    let obs = match &input.observaciones {
        Some(o) => Some(o.as_str()),
        None => None,
    };
    v.max_length_opt("observaciones", obs, OBSERVACIONES, "Validation.Asistencia.ObservacionesMaxLength");
    assert(v@ =~= errores_asistencia(*input, *fechas));
    v.finish()
}

pub open spec fn errores_rango(input: AsistenciaRangoInput, c: ContextoFecha) -> Seq<FieldErrorV> {
    exigir(input.empleado_id != 0, error_campo("empleadoId"@, "Validation.Asistencia.EmpleadoRequired"@))
        + exigir(input.desde <= input.hasta, error_campo("hasta"@, "Validation.Asistencia.RangoInvalid"@))
        + exigir_fecha("desde"@, input.desde as int, c, "minima"@, "maxima"@)
        + exigir_fecha("hasta"@, input.hasta as int, c, "minima"@, "maxima"@)
}

pub fn validate_rango(input: &AsistenciaRangoInput, fechas: &ContextoFecha) -> (r: Result<(), AppError>)
    requires
        contexto_valido(*fechas),
    ensures
        resultado_de(r, errores_rango(*input, *fechas)),
{
    let mut v = Validator::new();
    v.require(input.empleado_id != 0, FieldError::new("empleadoId", "Validation.Asistencia.EmpleadoRequired"));
    v.require(input.desde <= input.hasta, FieldError::new("hasta", "Validation.Asistencia.RangoInvalid"));
    validar_fecha(&mut v, "desde", input.desde, fechas, "minima", "maxima");
    validar_fecha(&mut v, "hasta", input.hasta, fechas, "minima", "maxima");
    assert(v@ =~= errores_rango(*input, *fechas));
    v.finish()
}

} // verus!

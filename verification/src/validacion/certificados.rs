//! The shape of the certificate issuing form. The accumulated ceiling and the sequential number
//! need the stored history and are checked when the certificate is issued.

use vstd::prelude::*;
use crate::certificados::{CertificadoInput, CertificadoInputItem};
use crate::error::{error_campo, AppError, FieldError, FieldErrorV};
use crate::validacion::movimientos::{contexto_valido, exigir_fecha, validar_fecha, ContextoFecha};
use crate::validacion::{campo_indexado, exigir, exigir_largo_opt, nombre_indexado, opt_v, resultado_de, Validator, OBSERVACIONES};

verus! {

/// The checks of one line: it names a line of the order, and its percentage is between zero and
/// one hundred.
pub open spec fn errores_item(i: nat, item: CertificadoInputItem) -> Seq<FieldErrorV> {
    exigir(
        item.orden_trabajo_item_id != 0,
        error_campo(campo_indexado("items"@, i, "ordenTrabajoItemId"@), "Validation.Certificado.ItemsRequired"@),
    ) + exigir(
        0 <= item.porcentaje_actual.raw <= 1_000_000,
        error_campo(campo_indexado("items"@, i, "porcentajeActual"@), "Validation.Certificado.PorcentajeInvalid"@),
    )
}

/// The checks of every line, in order.
pub open spec fn errores_items(items: Seq<CertificadoInputItem>) -> Seq<FieldErrorV>
    decreases items.len(),
{
    if items.len() == 0 {
        seq![]
    } else {
        errores_items(items.drop_last()) + errores_item((items.len() - 1) as nat, items.last())
    }
}

pub open spec fn errores_certificado(input: CertificadoInput, c: ContextoFecha) -> Seq<FieldErrorV> {
    exigir(input.orden_trabajo_id != 0, error_campo("ordenTrabajoId"@, "Validation.Certificado.OrdenTrabajoRequired"@))
        + exigir(input.items@.len() > 0, error_campo("items"@, "Validation.Certificado.ItemsRequired"@))
        + exigir_fecha("fecha"@, input.fecha as int, c, "minima"@, "maxima"@)
        + exigir_largo_opt(
            "observaciones"@,
            opt_v(input.observaciones),
            OBSERVACIONES as nat,
            "Validation.Certificado.ObservacionesMaxLength"@,
        )
        + errores_items(input.items@)
}

pub fn validate(input: &CertificadoInput, fechas: &ContextoFecha) -> (r: Result<(), AppError>)
    requires
        contexto_valido(*fechas),
    ensures
        resultado_de(r, errores_certificado(*input, *fechas)),
{
    let mut v = Validator::new();
    v.require(input.orden_trabajo_id != 0, FieldError::new("ordenTrabajoId", "Validation.Certificado.OrdenTrabajoRequired"));
    v.require(input.items.len() > 0, FieldError::new("items", "Validation.Certificado.ItemsRequired"));
    validar_fecha(&mut v, "fecha", input.fecha, fechas, "minima", "maxima");
    let obs = match &input.observaciones {
        Some(o) => Some(o.as_str()),
        None => None,
    };
    v.max_length_opt("observaciones", obs, OBSERVACIONES, "Validation.Certificado.ObservacionesMaxLength");
    let ghost cabecera = v@;
    let mut i: usize = 0;
    assert(input.items@.take(0) =~= Seq::<CertificadoInputItem>::empty());
    assert(cabecera + errores_items(input.items@.take(0)) =~= cabecera);
    while i < input.items.len()
        invariant
            i <= input.items@.len(),
            v@ == cabecera + errores_items(input.items@.take(i as int)),
        decreases input.items@.len() - i,
    {
        let item = input.items[i];
        assert(input.items@.take(i + 1).drop_last() =~= input.items@.take(i as int));
        assert(input.items@.take(i + 1).last() == item);
        let ghost antes = v@;
        v.require(
            item.orden_trabajo_item_id != 0,
            FieldError::new(nombre_indexado("items", i, "ordenTrabajoItemId").as_str(), "Validation.Certificado.ItemsRequired"),
        );
        v.require(
            item.porcentaje_actual.is_valid_percentage(),
            FieldError::new(nombre_indexado("items", i, "porcentajeActual").as_str(), "Validation.Certificado.PorcentajeInvalid"),
        );
        assert(v@ =~= cabecera + errores_items(input.items@.take(i + 1)));
        i = i + 1;
    }
    assert(input.items@.take(input.items@.len() as int) =~= input.items@);
    assert(v@ =~= errores_certificado(*input, *fechas));
    v.finish()
}

pub open spec fn errores_observaciones(observaciones: Option<Seq<char>>) -> Seq<FieldErrorV> {
    exigir_largo_opt("observaciones"@, observaciones, OBSERVACIONES as nat, "Validation.Certificado.ObservacionesMaxLength"@)
}

/// The notes are the only field an issued certificate lets through.
pub fn validate_observaciones(observaciones: Option<&str>) -> (r: Result<(), AppError>)
    ensures
        resultado_de(
            r,
            errores_observaciones(
                match observaciones {
                    Some(o) => Some(o@),
                    None => None,
                },
            ),
        ),
{
    let mut v = Validator::new();
    v.max_length_opt("observaciones", observaciones, OBSERVACIONES, "Validation.Certificado.ObservacionesMaxLength");
    assert(v@ =~= errores_observaciones(
        match observaciones {
            Some(o) => Some(o@),
            None => None,
        },
    ));
    v.finish()
}

} // verus!

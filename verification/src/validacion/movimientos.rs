//! The movement form, and the date bounds every dated form is held to.

use vstd::prelude::*;
use crate::dinero::{Decimal4, Money};
use crate::error::{error_campo, AppError, FieldError, FieldErrorV};
use crate::fechas::{dia_de, fecha, fecha_civil, fecha_de, fecha_de_texto, leer_fecha, texto_de_fecha, texto_fecha, DIA_EPOCA};
use crate::validacion::{en_blanco, exigir, exigir_largo, exigir_texto, resultado_de, Validator, DESCRIPCION};
use crate::texto::decimal;

verus! {

/// The id of the system movement type for income.
pub const TIPO_INGRESO: u128 = 1;

/// The id of the system movement type for expenses.
pub const TIPO_GASTO: u128 = 2;

/// The id of the system movement type for an advance on wages.
pub const TIPO_ADELANTO: u128 = 3;

/// The currency of a movement.
#[derive(Debug, Clone, Copy, PartialEq, Eq, Structural)]
pub enum Moneda {
    Ars,
    Usd,
}

/// Whether amounts in this currency carry the exchange rate they were entered at.
pub open spec fn requiere_cotizacion(m: Moneda) -> bool {
    m == Moneda::Usd
}

impl Moneda {
    pub fn requiere_cotizacion(&self) -> (b: bool)
        ensures
            b == requiere_cotizacion(*self),
    {
        match self {
            Moneda::Ars => false,
            Moneda::Usd => true,
        }
    }
}

/// The date bounds of a form, resolved from the settings once per call.
#[derive(Debug, Clone, Copy, PartialEq, Eq, Structural)]
pub struct ContextoFecha {
    pub hoy: i32,
    pub minima: i32,
    pub max_dias_futuro: i64,
}

/// The earliest date a form accepts: the configured one when it reads as a date, else the first
/// of January of 2000.
pub open spec fn minima_de(texto: Seq<char>) -> i32 {
    match fecha_de_texto(texto) {
        Some(f) => f,
        None => match fecha_civil(2000, 1, 1) {
            Some(f) => f,
            None => DIA_EPOCA,
        },
    }
}

impl ContextoFecha {
    pub fn from_config(fecha_minima: &str, fecha_futura_max_dias: u32, hoy: i32) -> (c: ContextoFecha)
        ensures
            c == (ContextoFecha { hoy, minima: minima_de(fecha_minima@), max_dias_futuro: fecha_futura_max_dias as i64 }),
    {
        let minima = match leer_fecha(fecha_minima) {
            Some(f) => f,
            None => match fecha(2000, 1, 1) {
                Some(f) => f,
                None => DIA_EPOCA,
            },
        };
        ContextoFecha { hoy, minima, max_dias_futuro: fecha_futura_max_dias as i64 }
    }
}

/// The latest date a form accepts: today plus the allowed days ahead.
pub open spec fn maxima_de(c: ContextoFecha) -> int {
    c.hoy + c.max_dias_futuro
}

/// Whether the latest date can be written as a day number.
pub open spec fn contexto_valido(c: ContextoFecha) -> bool {
    i32::MIN <= maxima_de(c) <= i32::MAX
}

/// The out-of-range error of a date field, with both bounds written as dates under the given
/// parameter names.
pub open spec fn error_fecha(campo: Seq<char>, c: ContextoFecha, pmin: Seq<char>, pmax: Seq<char>) -> FieldErrorV {
    FieldErrorV {
        campo,
        clave: "Validation.Common.FechaOutOfRange"@,
        params: seq![(pmin, texto_de_fecha(c.minima)), (pmax, texto_de_fecha(maxima_de(c) as i32))],
    }
}

/// The date check of a field: within the bounds, both inclusive.
pub open spec fn exigir_fecha(campo: Seq<char>, f: int, c: ContextoFecha, pmin: Seq<char>, pmax: Seq<char>) -> Seq<FieldErrorV> {
    exigir(c.minima <= f <= maxima_de(c), error_fecha(campo, c, pmin, pmax))
}

/// Records the date check of a field.
pub fn validar_fecha(v: &mut Validator, campo: &str, f: i32, c: &ContextoFecha, pmin: &str, pmax: &str)
    requires
        contexto_valido(*c),
    ensures
        final(v)@ == old(v)@ + exigir_fecha(campo@, f as int, *c, pmin@, pmax@),
{
    let maxima: i32 = (c.hoy as i64 + c.max_dias_futuro) as i32;
    let e = FieldError::new(campo, "Validation.Common.FechaOutOfRange")
        .with_param(pmin, texto_fecha(c.minima))
        .with_param(pmax, texto_fecha(maxima));
    assert(e@.params =~= seq![(pmin@, texto_de_fecha(c.minima)), (pmax@, texto_de_fecha(maxima))]);
    v.require(c.minima <= f && f <= maxima, e);
}

/// What the movement form sends. The date is an instant in nanoseconds since the epoch.
#[derive(Debug)]
pub struct MovimientoInput {
    pub fecha: i64,
    pub concepto: String,
    pub monto: Money,
    pub cantidad: Decimal4,
    pub tipo_movimiento_id: u128,
    pub moneda: Moneda,
    pub cotizacion_aplicada: Option<Money>,
    pub tipo_concepto_pago_id: Option<u128>,
    pub categoria_id: Option<u128>,
    pub cliente_id: Option<u128>,
    pub trabajo_id: Option<u128>,
    pub empleado_id: Option<u128>,
    pub factura_id: Option<u128>,
}

/// A rate is required for a currency that needs one, and must be positive; for one that does not,
/// a rate other than zero is meaningless.
pub open spec fn errores_cotizacion(input: MovimientoInput) -> Seq<FieldErrorV> {
    if requiere_cotizacion(input.moneda) {
        exigir(
            input.cotizacion_aplicada matches Some(c) && c@ > 0,
            error_campo("cotizacionAplicada"@, "Validation.Movimiento.CotizacionRequired"@),
        )
    } else {
        exigir(
            input.cotizacion_aplicada matches None || (input.cotizacion_aplicada matches Some(c) && c@ == 0),
            error_campo("cotizacionAplicada"@, "Validation.Movimiento.CotizacionNotApplicable"@),
        )
    }
}

/// Every problem of a movement, in the order the form lists them.
pub open spec fn errores_movimiento(input: MovimientoInput, c: ContextoFecha) -> Seq<FieldErrorV> {
    exigir_texto("concepto"@, input.concepto@, "Validation.Movimiento.ConceptoRequired"@)
        + exigir_largo("concepto"@, input.concepto@, DESCRIPCION as nat, "Validation.Movimiento.ConceptoMaxLength"@)
        + exigir(input.monto@ > 0, error_campo("monto"@, "Validation.Movimiento.MontoRequired"@))
        + exigir(input.cantidad@ > 0, error_campo("cantidad"@, "Validation.Movimiento.CantidadRequired"@))
        + exigir(input.tipo_movimiento_id != 0, error_campo("tipoMovimientoId"@, "Validation.Movimiento.TipoRequired"@))
        + exigir(
            input.categoria_id matches Some(id) && id != 0,
            error_campo("categoriaId"@, "Validation.Movimiento.CategoriaRequired"@),
        )
        + errores_cotizacion(input)
        + exigir_fecha("fecha"@, dia_de(input.fecha as int), c, "min"@, "max"@)
        + (if input.tipo_movimiento_id == TIPO_ADELANTO {
            exigir(input.empleado_id is Some, error_campo("empleadoId"@, "Validation.Movimiento.EmpleadoRequeridoAdelanto"@))
        } else {
            seq![]
        })
}

/// Whether some error of the list carries this key.
pub open spec fn tiene_clave(errs: Seq<FieldErrorV>, clave: Seq<char>) -> bool {
    exists|k: int| 0 <= k < errs.len() && (#[trigger] errs[k]).clave == clave
}

proof fn lema_clave_concat(a: Seq<FieldErrorV>, b: Seq<FieldErrorV>, clave: Seq<char>)
    ensures
        tiene_clave(a + b, clave) <==> (tiene_clave(a, clave) || tiene_clave(b, clave)),
{
    if tiene_clave(a + b, clave) {
        let k = choose|k: int| 0 <= k < (a + b).len() && (#[trigger] (a + b)[k]).clave == clave;
        if k < a.len() {
            assert(a[k] == (a + b)[k]);
        } else {
            assert(b[k - a.len()] == (a + b)[k]);
        }
    }
    if tiene_clave(a, clave) {
        let k = choose|k: int| 0 <= k < a.len() && (#[trigger] a[k]).clave == clave;
        assert((a + b)[k] == a[k]);
    }
    if tiene_clave(b, clave) {
        let k = choose|k: int| 0 <= k < b.len() && (#[trigger] b[k]).clave == clave;
        assert((a + b)[k + a.len()] == b[k]);
    }
}

proof fn lema_clave_exigir(cond: bool, e: FieldErrorV, clave: Seq<char>)
    ensures
        tiene_clave(exigir(cond, e), clave) <==> (!cond && e.clave == clave),
{
    if !cond {
        assert(exigir(cond, e)[0] == e);
    }
}

/// The keys of the movement form other than those of the exchange rate.
spec fn otra_clave(k: Seq<char>) -> bool {
    &&& k != "Validation.Movimiento.ConceptoRequired"@
    &&& k != "Validation.Movimiento.ConceptoMaxLength"@
    &&& k != "Validation.Movimiento.MontoRequired"@
    &&& k != "Validation.Movimiento.CantidadRequired"@
    &&& k != "Validation.Movimiento.TipoRequired"@
    &&& k != "Validation.Movimiento.CategoriaRequired"@
    &&& k != "Validation.Common.FechaOutOfRange"@
    &&& k != "Validation.Movimiento.EmpleadoRequeridoAdelanto"@
}

proof fn lema_solo_cotizacion(input: MovimientoInput, c: ContextoFecha, k: Seq<char>)
    requires
        otra_clave(k),
    ensures
        tiene_clave(errores_movimiento(input, c), k) == tiene_clave(errores_cotizacion(input), k),
{
    let a1 = exigir_texto("concepto"@, input.concepto@, "Validation.Movimiento.ConceptoRequired"@);
    let a2 = exigir_largo("concepto"@, input.concepto@, DESCRIPCION as nat, "Validation.Movimiento.ConceptoMaxLength"@);
    let a3 = exigir(input.monto@ > 0, error_campo("monto"@, "Validation.Movimiento.MontoRequired"@));
    let a4 = exigir(input.cantidad@ > 0, error_campo("cantidad"@, "Validation.Movimiento.CantidadRequired"@));
    let a5 = exigir(input.tipo_movimiento_id != 0, error_campo("tipoMovimientoId"@, "Validation.Movimiento.TipoRequired"@));
    let a6 = exigir(
        input.categoria_id matches Some(id) && id != 0,
        error_campo("categoriaId"@, "Validation.Movimiento.CategoriaRequired"@),
    );
    let a7 = errores_cotizacion(input);
    let a8 = exigir_fecha("fecha"@, dia_de(input.fecha as int), c, "min"@, "max"@);
    let a9 = if input.tipo_movimiento_id == TIPO_ADELANTO {
        exigir(input.empleado_id is Some, error_campo("empleadoId"@, "Validation.Movimiento.EmpleadoRequeridoAdelanto"@))
    } else {
        seq![]
    };
    assert(errores_movimiento(input, c) == a1 + a2 + a3 + a4 + a5 + a6 + a7 + a8 + a9);
    lema_clave_concat(a1, a2, k);
    lema_clave_concat(a1 + a2, a3, k);
    lema_clave_concat(a1 + a2 + a3, a4, k);
    lema_clave_concat(a1 + a2 + a3 + a4, a5, k);
    lema_clave_concat(a1 + a2 + a3 + a4 + a5, a6, k);
    lema_clave_concat(a1 + a2 + a3 + a4 + a5 + a6, a7, k);
    lema_clave_concat(a1 + a2 + a3 + a4 + a5 + a6 + a7, a8, k);
    lema_clave_concat(a1 + a2 + a3 + a4 + a5 + a6 + a7 + a8, a9, k);
    lema_clave_exigir(!en_blanco(input.concepto@), error_campo("concepto"@, "Validation.Movimiento.ConceptoRequired"@), k);
    lema_clave_exigir(
        input.concepto@.len() <= DESCRIPCION as nat,
        FieldErrorV { campo: "concepto"@, clave: "Validation.Movimiento.ConceptoMaxLength"@, params: seq![("max"@, decimal(DESCRIPCION as nat))] },
        k,
    );
    lema_clave_exigir(input.monto@ > 0, error_campo("monto"@, "Validation.Movimiento.MontoRequired"@), k);
    lema_clave_exigir(input.cantidad@ > 0, error_campo("cantidad"@, "Validation.Movimiento.CantidadRequired"@), k);
    lema_clave_exigir(input.tipo_movimiento_id != 0, error_campo("tipoMovimientoId"@, "Validation.Movimiento.TipoRequired"@), k);
    lema_clave_exigir(
        input.categoria_id matches Some(id) && id != 0,
        error_campo("categoriaId"@, "Validation.Movimiento.CategoriaRequired"@),
        k,
    );
    lema_clave_exigir(c.minima <= dia_de(input.fecha as int) <= maxima_de(c), error_fecha("fecha"@, c, "min"@, "max"@), k);
    lema_clave_exigir(input.empleado_id is Some, error_campo("empleadoId"@, "Validation.Movimiento.EmpleadoRequeridoAdelanto"@), k);
    assert(!tiene_clave(Seq::<FieldErrorV>::empty(), k));
}

/// The exchange rate of a movement: its absence or a rate that is not positive is refused exactly
/// when the currency needs a rate, and a rate other than zero exactly when it does not.
pub proof fn la_cotizacion_solo_se_exige_en_dolares(input: MovimientoInput, c: ContextoFecha)
    ensures
        tiene_clave(errores_movimiento(input, c), "Validation.Movimiento.CotizacionRequired"@) <==> (
            requiere_cotizacion(input.moneda) && !(input.cotizacion_aplicada matches Some(x) && x@ > 0)),
        tiene_clave(errores_movimiento(input, c), "Validation.Movimiento.CotizacionNotApplicable"@) <==> (
            !requiere_cotizacion(input.moneda) && (input.cotizacion_aplicada matches Some(x) && x@ != 0)),
{
    let requerida = "Validation.Movimiento.CotizacionRequired"@;
    let sobra = "Validation.Movimiento.CotizacionNotApplicable"@;
    reveal_strlit("Validation.Movimiento.ConceptoRequired");
    reveal_strlit("Validation.Movimiento.ConceptoMaxLength");
    reveal_strlit("Validation.Movimiento.MontoRequired");
    reveal_strlit("Validation.Movimiento.CantidadRequired");
    reveal_strlit("Validation.Movimiento.TipoRequired");
    reveal_strlit("Validation.Movimiento.CategoriaRequired");
    reveal_strlit("Validation.Movimiento.CotizacionRequired");
    reveal_strlit("Validation.Movimiento.CotizacionNotApplicable");
    reveal_strlit("Validation.Common.FechaOutOfRange");
    reveal_strlit("Validation.Movimiento.EmpleadoRequeridoAdelanto");
    assert("Validation.Movimiento.ConceptoRequired"@.len() == 38);
    assert("Validation.Movimiento.ConceptoMaxLength"@.len() == 39);
    assert("Validation.Movimiento.MontoRequired"@.len() == 35);
    assert("Validation.Movimiento.CantidadRequired"@.len() == 38);
    assert("Validation.Movimiento.TipoRequired"@.len() == 34);
    assert("Validation.Movimiento.CategoriaRequired"@.len() == 39);
    assert("Validation.Common.FechaOutOfRange"@.len() == 33);
    assert("Validation.Movimiento.EmpleadoRequeridoAdelanto"@.len() == 47);
    assert("Validation.Movimiento.CotizacionRequired"@.len() == 40);
    assert("Validation.Movimiento.CotizacionNotApplicable"@.len() == 45);
    assert(otra_clave(requerida));
    assert(otra_clave(sobra));
    assert(requerida != sobra);
    lema_solo_cotizacion(input, c, requerida);
    lema_solo_cotizacion(input, c, sobra);
    let ok_usd = input.cotizacion_aplicada matches Some(x) && x@ > 0;
    let ok_ars = input.cotizacion_aplicada matches None || (input.cotizacion_aplicada matches Some(x) && x@ == 0);
    lema_clave_exigir(ok_usd, error_campo("cotizacionAplicada"@, requerida), requerida);
    lema_clave_exigir(ok_usd, error_campo("cotizacionAplicada"@, requerida), sobra);
    lema_clave_exigir(ok_ars, error_campo("cotizacionAplicada"@, sobra), requerida);
    lema_clave_exigir(ok_ars, error_campo("cotizacionAplicada"@, sobra), sobra);
}

/// Checks a movement: every problem at once.
pub fn validate(input: &MovimientoInput, fechas: &ContextoFecha) -> (r: Result<(), AppError>)
    requires
        contexto_valido(*fechas),
    ensures
        resultado_de(r, errores_movimiento(*input, *fechas)),
{
    let mut v = Validator::new();
    v.required_text("concepto", input.concepto.as_str(), "Validation.Movimiento.ConceptoRequired");
    v.max_length("concepto", input.concepto.as_str(), DESCRIPCION, "Validation.Movimiento.ConceptoMaxLength");
    v.require(input.monto.is_positive(), FieldError::new("monto", "Validation.Movimiento.MontoRequired"));
    v.require(input.cantidad.is_positive(), FieldError::new("cantidad", "Validation.Movimiento.CantidadRequired"));
    v.require(input.tipo_movimiento_id != 0, FieldError::new("tipoMovimientoId", "Validation.Movimiento.TipoRequired"));
    let categoria = match input.categoria_id {
        Some(id) => id != 0,
        None => false,
    };
    v.require(categoria, FieldError::new("categoriaId", "Validation.Movimiento.CategoriaRequired"));
    if input.moneda.requiere_cotizacion() {
        let ok = match input.cotizacion_aplicada {
            Some(c) => c.is_positive(),
            None => false,
        };
        v.require(ok, FieldError::new("cotizacionAplicada", "Validation.Movimiento.CotizacionRequired"));
    } else {
        let ok = match input.cotizacion_aplicada {
            Some(c) => c.raw == 0,
            None => true,
        };
        v.require(ok, FieldError::new("cotizacionAplicada", "Validation.Movimiento.CotizacionNotApplicable"));
    }
    validar_fecha(&mut v, "fecha", fecha_de(input.fecha), fechas, "min", "max");
    let ghost antes = v@;
    if input.tipo_movimiento_id == TIPO_ADELANTO {
        v.require(
            input.empleado_id.is_some(),
            FieldError::new("empleadoId", "Validation.Movimiento.EmpleadoRequeridoAdelanto"),
        );
    } else {
        assert(antes + Seq::<FieldErrorV>::empty() =~= antes);
    }
    assert(v@ =~= errores_movimiento(*input, *fechas));
    v.finish()
}

} // verus!

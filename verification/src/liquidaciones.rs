//! The suggested settlement of an employee over a period: how many days were worked, what they
//! are worth with the weekend and holiday multipliers of the employee's card, and which advances
//! are still to be discounted.
//!
//! There are three branches. Days typed by hand win and pay the plain rate. Otherwise a single
//! attendance record is enough to own the period, and only what was recorded is paid. With no
//! attendance at all, every countable day of the calendar is paid as a full day.

use vstd::prelude::*;
use crate::dinero::{
    cabe_i64, mul_chk, resta_chk, suma_chk, suma_chk_seq, valores, Decimal4, DomainError, Money,
};
use crate::error::{campos_de, conflicto_con, error_campo, error_con_mensaje, es_conflicto, params_v, validation_err, AppError};
use crate::fechas::{domingo, es_domingo, es_sabado, rfc3339_de, sabado, texto_de_fecha, texto_fecha, texto_rfc3339};
use crate::texto::{copia, texto_escalado};

verus! {

/// How an attendance cell was filled.
#[derive(Debug, Clone, Copy, PartialEq, Eq, Structural)]
pub enum TipoJornada {
    Completa,
    Media,
    Falta,
    FaltaJustificada,
    Feriado,
}

/// The fraction of a day a cell is worth, scaled.
pub open spec fn factor_de(t: TipoJornada) -> int {
    match t {
        TipoJornada::Completa => 10_000,
        TipoJornada::Media => 5_000,
        TipoJornada::Falta => 0,
        TipoJornada::FaltaJustificada => 0,
        TipoJornada::Feriado => 10_000,
    }
}

impl TipoJornada {
    pub fn factor(&self) -> (d: Decimal4)
        ensures
            d@ == factor_de(*self),
    {
        match self {
            TipoJornada::Completa => Decimal4::one(),
            TipoJornada::Media => Decimal4::half(),
            TipoJornada::Falta => Decimal4::zero(),
            TipoJornada::FaltaJustificada => Decimal4::zero(),
            TipoJornada::Feriado => Decimal4::one(),
        }
    }
}

/// What the settlement reads from the employee's card.
#[derive(Debug)]
pub struct Empleado {
    pub id: u128,
    pub nombre: String,
    pub tarifa_diaria: Money,
    pub multiplicador_sabado: Decimal4,
    pub multiplicador_domingo: Decimal4,
    pub multiplicador_feriado: Decimal4,
    pub activo: bool,
}

/// The multipliers a settlement is computed with, frozen with it.
#[derive(Debug, Clone, Copy, PartialEq, Eq, Structural)]
pub struct ReglasLiquidacion {
    pub incluir_sabados: bool,
    pub incluir_domingos: bool,
    pub incluir_feriados: bool,
    pub multiplicador_sabado: Decimal4,
    pub multiplicador_domingo: Decimal4,
    pub multiplicador_feriado: Decimal4,
}

/// The multiplier of a calendar day: a holiday first, then Sunday, then Saturday, else one.
pub open spec fn multiplicador_dia_v(e: &Empleado, fecha: int, feriados: Seq<i32>) -> int {
    if feriados.contains(fecha as i32) {
        e.multiplicador_feriado@
    } else if es_domingo(fecha) {
        e.multiplicador_domingo@
    } else if es_sabado(fecha) {
        e.multiplicador_sabado@
    } else {
        10_000
    }
}

/// An advance paid to the employee in the period, possibly already discounted by another
/// settlement.
#[derive(Debug)]
pub struct AdelantoCandidato {
    pub movimiento_id: u128,
    pub fecha: i32,
    pub concepto: String,
    pub monto: Money,
    pub liquidacion_id: Option<u128>,
}

/// An advance as the wizard shows it.
#[derive(Debug)]
pub struct LiquidacionAdelantoSugerido {
    pub movimiento_id: u128,
    pub fecha: i32,
    pub concepto: String,
    pub monto: Money,
    pub ya_descontado: bool,
    pub liquidacion_que_lo_desconto: Option<u128>,
    pub incluir: bool,
}

/// Where the day count came from.
#[derive(Debug, Clone, Copy, PartialEq, Eq, Structural)]
pub enum OrigenLiquidacion {
    Manual,
    Asistencia,
    Calendario,
}

/// The breakdown the settlement document prints.
#[derive(Debug, Clone, Copy, PartialEq, Eq, Structural)]
pub struct LiquidacionDesglose {
    pub jornadas_completas: Decimal4,
    pub jornadas_medias: Decimal4,
    pub faltas: u64,
    pub faltas_justificadas: u64,
    pub dias_sabado: Decimal4,
    pub dias_domingo: Decimal4,
    pub dias_feriado: Decimal4,
    pub multiplicador_sabado: Decimal4,
    pub multiplicador_domingo: Decimal4,
    pub multiplicador_feriado: Decimal4,
    pub recargos: Money,
}

/// The suggestion for one employee.
#[derive(Debug)]
pub struct LiquidacionSugerencia {
    pub empleado_id: u128,
    pub empleado_nombre: String,
    pub desde: i32,
    pub hasta: i32,
    pub dias_trabajados: Decimal4,
    pub tarifa_aplicada: Money,
    pub total_bruto: Money,
    pub total_adelantos: Money,
    pub total_neto: Money,
    pub origen: OrigenLiquidacion,
    pub incluir_sabados: bool,
    pub incluir_domingos: bool,
    pub incluir_feriados: bool,
    pub desglose: LiquidacionDesglose,
    pub adelantos: Vec<LiquidacionAdelantoSugerido>,
    pub feriados_no_disponibles: bool,
}

/// The running state of a branch: days and gross pay, and the counters of the breakdown.
pub struct Cuenta {
    pub dias: int,
    pub bruto: int,
    pub completas: int,
    pub medias: int,
    pub faltas: nat,
    pub faltas_justificadas: nat,
    pub sabados: int,
    pub domingos: int,
    pub feriados: int,
}

pub open spec fn cuenta_cero() -> Cuenta {
    Cuenta {
        dias: 0,
        bruto: 0,
        completas: 0,
        medias: 0,
        faltas: 0,
        faltas_justificadas: 0,
        sabados: 0,
        domingos: 0,
        feriados: 0,
    }
}

/// A day of weight `factor` added to the holiday, Sunday or Saturday counter, whichever applies
/// first; a weekday changes nothing.
pub open spec fn contar_especial(c: Cuenta, fecha: int, factor: int, feriados: Seq<i32>) -> Option<Cuenta> {
    if feriados.contains(fecha as i32) {
        match suma_chk(c.feriados, factor) {
            Some(x) => Some(Cuenta { feriados: x, ..c }),
            None => None,
        }
    } else if es_domingo(fecha) {
        match suma_chk(c.domingos, factor) {
            Some(x) => Some(Cuenta { domingos: x, ..c }),
            None => None,
        }
    } else if es_sabado(fecha) {
        match suma_chk(c.sabados, factor) {
            Some(x) => Some(Cuenta { sabados: x, ..c }),
            None => None,
        }
    } else {
        Some(c)
    }
}

/// The breakdown counters of one attendance cell.
pub open spec fn contar_tipo(c: Cuenta, tipo: TipoJornada) -> Option<Cuenta> {
    match tipo {
        TipoJornada::Completa => match suma_chk(c.completas, 10_000) {
            Some(x) => Some(Cuenta { completas: x, ..c }),
            None => None,
        },
        TipoJornada::Media => match suma_chk(c.medias, 10_000) {
            Some(x) => Some(Cuenta { medias: x, ..c }),
            None => None,
        },
        TipoJornada::Falta => Some(Cuenta { faltas: c.faltas + 1, ..c }),
        TipoJornada::FaltaJustificada => Some(
            Cuenta { faltas_justificadas: c.faltas_justificadas + 1, ..c },
        ),
        TipoJornada::Feriado => Some(c),
    }
}

/// The days and pay of a paid cell: `factor` days at `mult` times the rate.
pub open spec fn pagar(c: Cuenta, e: &Empleado, factor: int, mult: int) -> Option<Cuenta> {
    match suma_chk(c.dias, factor) {
        Some(d) => match mul_chk(e.tarifa_diaria@, factor) {
            Some(p) => match mul_chk(p, mult) {
                Some(q) => match suma_chk(c.bruto, q) {
                    Some(b) => Some(Cuenta { dias: d, bruto: b, ..c }),
                    None => None,
                },
                None => None,
            },
            None => None,
        },
        None => None,
    }
}

/// One attendance cell. A cell recorded as a holiday counts as one without consulting the
/// calendar; any other cell is classified by its date. A cell worth nothing, or whose multiplier
/// is not positive, pays nothing.
pub open spec fn paso_asistencia(c: Cuenta, e: &Empleado, fecha: int, tipo: TipoJornada, feriados: Seq<i32>) -> Option<Cuenta> {
    match contar_tipo(c, tipo) {
        None => None,
        Some(c1) => {
            let factor = factor_de(tipo);
            if factor <= 0 {
                Some(c1)
            } else if tipo == TipoJornada::Feriado {
                match suma_chk(c1.feriados, factor) {
                    None => None,
                    Some(f) => {
                        let c2 = Cuenta { feriados: f, ..c1 };
                        let mult = e.multiplicador_feriado@;
                        if mult <= 0 {
                            Some(c2)
                        } else {
                            pagar(c2, e, factor, mult)
                        }
                    },
                }
            } else {
                match contar_especial(c1, fecha, factor, feriados) {
                    None => None,
                    Some(c2) => {
                        let mult = multiplicador_dia_v(e, fecha, feriados);
                        if mult <= 0 {
                            Some(c2)
                        } else {
                            pagar(c2, e, factor, mult)
                        }
                    },
                }
            }
        },
    }
}

/// The attendance branch over the cells in order.
pub open spec fn por_asistencia(e: &Empleado, jornadas: Seq<(i32, TipoJornada)>, feriados: Seq<i32>) -> Option<Cuenta>
    decreases jornadas.len(),
{
    if jornadas.len() == 0 {
        Some(cuenta_cero())
    } else {
        match por_asistencia(e, jornadas.drop_last(), feriados) {
            Some(c) => paso_asistencia(c, e, jornadas.last().0 as int, jornadas.last().1, feriados),
            None => None,
        }
    }
}

/// One calendar day: a day whose multiplier is not positive does not count at all; any other is
/// one full day at its multiplier.
pub open spec fn paso_calendario(c: Cuenta, e: &Empleado, fecha: int, feriados: Seq<i32>) -> Option<Cuenta> {
    let mult = multiplicador_dia_v(e, fecha, feriados);
    if mult <= 0 {
        Some(c)
    } else {
        match contar_especial(c, fecha, 10_000, feriados) {
            None => None,
            Some(c1) => match suma_chk(c1.completas, 10_000) {
                None => None,
                Some(k) => {
                    let c2 = Cuenta { completas: k, ..c1 };
                    match suma_chk(c2.dias, 10_000) {
                        None => None,
                        Some(d) => match mul_chk(e.tarifa_diaria@, mult) {
                            None => None,
                            Some(p) => match suma_chk(c2.bruto, p) {
                                None => None,
                                Some(b) => Some(Cuenta { dias: d, bruto: b, ..c2 }),
                            },
                        },
                    }
                },
            },
        }
    }
}

/// The calendar branch over the `n` days starting at `desde`.
pub open spec fn por_calendario(e: &Empleado, desde: int, n: nat, feriados: Seq<i32>) -> Option<Cuenta>
    decreases n,
{
    if n == 0 {
        Some(cuenta_cero())
    } else {
        match por_calendario(e, desde, (n - 1) as nat, feriados) {
            Some(c) => paso_calendario(c, e, desde + n - 1, feriados),
            None => None,
        }
    }
}

/// The number of days from `desde` to `hasta`, both included.
pub open spec fn dias_del_rango(desde: int, hasta: int) -> nat {
    if hasta < desde {
        0
    } else {
        (hasta - desde + 1) as nat
    }
}

/// Days typed by hand win when they are not exactly zero; attendance wins over the calendar.
pub open spec fn origen_de(manuales: Option<Decimal4>, jornadas: Seq<(i32, TipoJornada)>) -> OrigenLiquidacion {
    if manuales is Some && manuales->0@ != 0 {
        OrigenLiquidacion::Manual
    } else if jornadas.len() > 0 {
        OrigenLiquidacion::Asistencia
    } else {
        OrigenLiquidacion::Calendario
    }
}

/// The days and pay of the branch that owns the period.
pub open spec fn cuenta_de(
    e: &Empleado,
    desde: int,
    hasta: int,
    manuales: Option<Decimal4>,
    jornadas: Seq<(i32, TipoJornada)>,
    feriados: Seq<i32>,
) -> Option<Cuenta> {
    match origen_de(manuales, jornadas) {
        OrigenLiquidacion::Manual => match mul_chk(e.tarifa_diaria@, manuales->0@) {
            Some(b) => Some(Cuenta { dias: manuales->0@, bruto: b, ..cuenta_cero() }),
            None => None,
        },
        OrigenLiquidacion::Asistencia => por_asistencia(e, jornadas, feriados),
        OrigenLiquidacion::Calendario => por_calendario(e, desde, dias_del_rango(desde, hasta), feriados),
    }
}

/// The amounts of the advances not yet discounted by another settlement, in order.
pub open spec fn montos_pendientes(cs: Seq<AdelantoCandidato>) -> Seq<int>
    decreases cs.len(),
{
    if cs.len() == 0 {
        seq![]
    } else if cs.last().liquidacion_id is None {
        montos_pendientes(cs.drop_last()).push(cs.last().monto@)
    } else {
        montos_pendientes(cs.drop_last())
    }
}

/// The totals of a suggestion: the branch's count, the surcharges (gross minus the plain rate,
/// zero when that difference overflows), the advances still to discount and the net.
pub struct Totales {
    pub cuenta: Cuenta,
    pub recargos: int,
    pub adelantos: int,
    pub neto: int,
}

pub open spec fn totales_de(
    e: &Empleado,
    desde: int,
    hasta: int,
    manuales: Option<Decimal4>,
    jornadas: Seq<(i32, TipoJornada)>,
    feriados: Seq<i32>,
    candidatos: Seq<AdelantoCandidato>,
) -> Option<Totales> {
    match cuenta_de(e, desde, hasta, manuales, jornadas, feriados) {
        None => None,
        Some(c) => match mul_chk(e.tarifa_diaria@, c.dias) {
            None => None,
            Some(sin_recargo) => {
                let recargos = match resta_chk(c.bruto, sin_recargo) {
                    Some(r) => r,
                    None => 0,
                };
                match suma_chk_seq(montos_pendientes(candidatos)) {
                    None => None,
                    Some(a) => match resta_chk(c.bruto, a) {
                        None => None,
                        Some(n) => Some(Totales { cuenta: c, recargos, adelantos: a, neto: n }),
                    },
                }
            },
        }
    }
}

/// How an advance is offered: marked when already discounted, and then left out.
pub open spec fn adelanto_ok(a: LiquidacionAdelantoSugerido, c: AdelantoCandidato) -> bool {
    &&& a.movimiento_id == c.movimiento_id
    &&& a.fecha == c.fecha
    &&& a.concepto@ == c.concepto@
    &&& a.monto == c.monto
    &&& a.ya_descontado == (c.liquidacion_id is Some)
    &&& a.liquidacion_que_lo_desconto == c.liquidacion_id
    &&& a.incluir == (c.liquidacion_id is None)
}

/// The whole suggestion agrees with the totals and the inputs.
pub open spec fn sugerencia_ok(
    s: LiquidacionSugerencia,
    e: &Empleado,
    desde: i32,
    hasta: i32,
    manuales: Option<Decimal4>,
    jornadas: Seq<(i32, TipoJornada)>,
    feriados: Seq<i32>,
    candidatos: Seq<AdelantoCandidato>,
    t: Totales,
) -> bool {
    &&& s.empleado_id == e.id
    &&& s.empleado_nombre@ == e.nombre@
    &&& s.desde == desde
    &&& s.hasta == hasta
    &&& s.dias_trabajados@ == t.cuenta.dias
    &&& s.tarifa_aplicada == e.tarifa_diaria
    &&& s.total_bruto@ == t.cuenta.bruto
    &&& s.total_adelantos@ == t.adelantos
    &&& s.total_neto@ == t.neto
    &&& s.origen == origen_de(manuales, jornadas)
    &&& s.incluir_sabados == (e.multiplicador_sabado@ > 0)
    &&& s.incluir_domingos == (e.multiplicador_domingo@ > 0)
    &&& s.incluir_feriados == (e.multiplicador_feriado@ > 0)
    &&& s.desglose.jornadas_completas@ == t.cuenta.completas
    &&& s.desglose.jornadas_medias@ == t.cuenta.medias
    &&& s.desglose.faltas == t.cuenta.faltas
    &&& s.desglose.faltas_justificadas == t.cuenta.faltas_justificadas
    &&& s.desglose.dias_sabado@ == t.cuenta.sabados
    &&& s.desglose.dias_domingo@ == t.cuenta.domingos
    &&& s.desglose.dias_feriado@ == t.cuenta.feriados
    &&& s.desglose.multiplicador_sabado == e.multiplicador_sabado
    &&& s.desglose.multiplicador_domingo == e.multiplicador_domingo
    &&& s.desglose.multiplicador_feriado == e.multiplicador_feriado
    &&& s.desglose.recargos@ == t.recargos
    &&& s.adelantos@.len() == candidatos.len()
    &&& forall|i: int| 0 <= i < candidatos.len() ==> adelanto_ok(#[trigger] s.adelantos@[i], candidatos[i])
    &&& s.feriados_no_disponibles == (feriados.len() == 0)
}

/// The mutable state of a branch while it runs.
pub struct Contadores {
    pub dias: Decimal4,
    pub bruto: Money,
    pub completas: Decimal4,
    pub medias: Decimal4,
    pub faltas: u64,
    pub faltas_justificadas: u64,
    pub sabados: Decimal4,
    pub domingos: Decimal4,
    pub feriados: Decimal4,
}

impl View for Contadores {
    type V = Cuenta;

    open spec fn view(&self) -> Cuenta {
        Cuenta {
            dias: self.dias@,
            bruto: self.bruto@,
            completas: self.completas@,
            medias: self.medias@,
            faltas: self.faltas as nat,
            faltas_justificadas: self.faltas_justificadas as nat,
            sabados: self.sabados@,
            domingos: self.domingos@,
            feriados: self.feriados@,
        }
    }
}

fn desborde() -> (e: AppError)
    ensures
        e == AppError::Domain(DomainError::MoneyOverflow),
{
    AppError::Domain(DomainError::MoneyOverflow)
}

/// Whether the date is one of the holidays.
pub fn es_feriado(feriados: &Vec<i32>, fecha: i32) -> (b: bool)
    ensures
        b == feriados@.contains(fecha),
{
    let mut i: usize = 0;
    while i < feriados.len()
        invariant
            i <= feriados@.len(),
            forall|k: int| 0 <= k < i ==> feriados@[k] != fecha,
        decreases feriados@.len() - i,
    {
        if feriados[i] == fecha {
            assert(feriados@[i as int] == fecha);
            return true;
        }
        i = i + 1;
    }
    false
}

impl Empleado {
    /// The multiplier of a calendar day.
    pub fn multiplicador_dia(&self, fecha: i32, feriados: &Vec<i32>) -> (m: Decimal4)
        ensures
            m@ == multiplicador_dia_v(self, fecha as int, feriados@),
    {
        if es_feriado(feriados, fecha) {
            self.multiplicador_feriado
        } else if domingo(fecha) {
            self.multiplicador_domingo
        } else if sabado(fecha) {
            self.multiplicador_sabado
        } else {
            Decimal4::one()
        }
    }

    /// The rules of the settlement come from the card: a multiplier of zero is how the card says
    /// that the day does not count, so inclusion is read from the multiplier.
    pub fn reglas(&self) -> (r: ReglasLiquidacion)
        ensures
            r.incluir_sabados == (self.multiplicador_sabado@ > 0),
            r.incluir_domingos == (self.multiplicador_domingo@ > 0),
            r.incluir_feriados == (self.multiplicador_feriado@ > 0),
            r.multiplicador_sabado == self.multiplicador_sabado,
            r.multiplicador_domingo == self.multiplicador_domingo,
            r.multiplicador_feriado == self.multiplicador_feriado,
    {
        ReglasLiquidacion {
            incluir_sabados: self.multiplicador_sabado.is_positive(),
            incluir_domingos: self.multiplicador_domingo.is_positive(),
            incluir_feriados: self.multiplicador_feriado.is_positive(),
            multiplicador_sabado: self.multiplicador_sabado,
            multiplicador_domingo: self.multiplicador_domingo,
            multiplicador_feriado: self.multiplicador_feriado,
        }
    }
}

fn contadores_cero() -> (c: Contadores)
    ensures
        c@ == cuenta_cero(),
{
    Contadores {
        dias: Decimal4::zero(),
        bruto: Money::zero(),
        completas: Decimal4::zero(),
        medias: Decimal4::zero(),
        faltas: 0,
        faltas_justificadas: 0,
        sabados: Decimal4::zero(),
        domingos: Decimal4::zero(),
        feriados: Decimal4::zero(),
    }
}

fn sumar4(a: Decimal4, b: Decimal4) -> (r: Result<Decimal4, AppError>)
    ensures
        match suma_chk(a@, b@) {
            Some(x) => r matches Ok(d) && d@ == x,
            None => r matches Err(e) && e == AppError::Domain(DomainError::MoneyOverflow),
        },
{
    match a.checked_add(b) {
        Ok(d) => Ok(d),
        Err(_) => Err(desborde()),
    }
}

fn contar_dia_especial(c: &mut Contadores, fecha: i32, factor: Decimal4, feriados: &Vec<i32>) -> (r: Result<(), AppError>)
    ensures
        final(c).faltas == old(c).faltas,
        final(c).faltas_justificadas == old(c).faltas_justificadas,
        match contar_especial(old(c)@, fecha as int, factor@, feriados@) {
            Some(x) => r is Ok && final(c)@ == x,
            None => r matches Err(e) && e == AppError::Domain(DomainError::MoneyOverflow),
        },
{
    if es_feriado(feriados, fecha) {
        c.feriados = sumar4(c.feriados, factor)?;
    } else if domingo(fecha) {
        c.domingos = sumar4(c.domingos, factor)?;
    } else if sabado(fecha) {
        c.sabados = sumar4(c.sabados, factor)?;
    }
    Ok(())
}

fn pagar_dia(c: &mut Contadores, e: &Empleado, factor: Decimal4, mult: Decimal4) -> (r: Result<(), AppError>)
    ensures
        final(c).faltas == old(c).faltas,
        final(c).faltas_justificadas == old(c).faltas_justificadas,
        match pagar(old(c)@, e, factor@, mult@) {
            Some(x) => r is Ok && final(c)@ == x,
            None => r matches Err(x) && x == AppError::Domain(DomainError::MoneyOverflow),
        },
{
    let d = sumar4(c.dias, factor)?;
    let p = match e.tarifa_diaria.checked_mul(factor) {
        Ok(p) => p,
        Err(_) => return Err(desborde()),
    };
    let q = match p.checked_mul(mult) {
        Ok(q) => q,
        Err(_) => return Err(desborde()),
    };
    let b = match c.bruto.checked_add(q) {
        Ok(b) => b,
        Err(_) => return Err(desborde()),
    };
    c.dias = d;
    c.bruto = b;
    Ok(())
}

proof fn lema_asistencia_prefijo(e: &Empleado, js: Seq<(i32, TipoJornada)>, feriados: Seq<i32>, k: int)
    requires
        0 <= k <= js.len(),
        por_asistencia(e, js.take(k), feriados) is None,
    ensures
        por_asistencia(e, js, feriados) is None,
    decreases js.len() - k,
{
    if k < js.len() {
        assert(js.take(k + 1).drop_last() =~= js.take(k));
        lema_asistencia_prefijo(e, js, feriados, k + 1);
    } else {
        assert(js.take(k) =~= js);
    }
}

proof fn lema_calendario_prefijo(e: &Empleado, desde: int, n: nat, k: nat, feriados: Seq<i32>)
    requires
        k <= n,
        por_calendario(e, desde, k, feriados) is None,
    ensures
        por_calendario(e, desde, n, feriados) is None,
    decreases n - k,
{
    if k < n {
        lema_calendario_prefijo(e, desde, n, k + 1, feriados);
    }
}

/// The attendance branch.
fn desde_asistencia(e: &Empleado, jornadas: &Vec<(i32, TipoJornada)>, feriados: &Vec<i32>) -> (r: Result<Contadores, AppError>)
    ensures
        match por_asistencia(e, jornadas@, feriados@) {
            Some(x) => r matches Ok(c) && c@ == x,
            None => r matches Err(x) && x == AppError::Domain(DomainError::MoneyOverflow),
        },
{
    let mut c = contadores_cero();
    let mut i: usize = 0;
    assert(jornadas@.take(0) =~= Seq::<(i32, TipoJornada)>::empty());
    while i < jornadas.len()
        invariant
            i <= jornadas@.len(),
            por_asistencia(e, jornadas@.take(i as int), feriados@) == Some(c@),
            c.faltas <= i,
            c.faltas_justificadas <= i,
        decreases jornadas@.len() - i,
    {
        let ghost antes = c@;
        assert(jornadas@.take(i + 1).drop_last() =~= jornadas@.take(i as int));
        assert(jornadas@.take(i + 1).last() == jornadas@[i as int]);
        let (fecha, tipo) = jornadas[i];
        let paso = paso_jornada(&mut c, e, fecha, tipo, feriados);
        match paso {
            Ok(()) => {},
            Err(x) => {
                proof {
                    lema_asistencia_prefijo(e, jornadas@, feriados@, i + 1);
                }
                return Err(x);
            },
        }
        i = i + 1;
    }
    assert(jornadas@.take(jornadas@.len() as int) =~= jornadas@);
    Ok(c)
}

fn paso_jornada(c: &mut Contadores, e: &Empleado, fecha: i32, tipo: TipoJornada, feriados: &Vec<i32>) -> (r: Result<(), AppError>)
    requires
        old(c).faltas < u64::MAX,
        old(c).faltas_justificadas < u64::MAX,
    ensures
        match paso_asistencia(old(c)@, e, fecha as int, tipo, feriados@) {
            Some(x) => r is Ok && final(c)@ == x,
            None => r matches Err(x) && x == AppError::Domain(DomainError::MoneyOverflow),
        },
        final(c).faltas <= old(c).faltas + 1,
        final(c).faltas_justificadas <= old(c).faltas_justificadas + 1,
{
    match tipo {
        TipoJornada::Completa => {
            c.completas = sumar4(c.completas, Decimal4::one())?;
        },
        TipoJornada::Media => {
            c.medias = sumar4(c.medias, Decimal4::one())?;
        },
        TipoJornada::Falta => {
            c.faltas = c.faltas + 1;
        },
        TipoJornada::FaltaJustificada => {
            c.faltas_justificadas = c.faltas_justificadas + 1;
        },
        TipoJornada::Feriado => {},
    }
    let factor = tipo.factor();
    if !factor.is_positive() {
        return Ok(());
    }
    let mult = if tipo == TipoJornada::Feriado {
        c.feriados = sumar4(c.feriados, factor)?;
        e.multiplicador_feriado
    } else {
        contar_dia_especial(c, fecha, factor, feriados)?;
        e.multiplicador_dia(fecha, feriados)
    };
    if !mult.is_positive() {
        return Ok(());
    }
    pagar_dia(c, e, factor, mult)
}

fn paso_dia(c: &mut Contadores, e: &Empleado, fecha: i32, feriados: &Vec<i32>) -> (r: Result<(), AppError>)
    ensures
        match paso_calendario(old(c)@, e, fecha as int, feriados@) {
            Some(x) => r is Ok && final(c)@ == x,
            None => r matches Err(x) && x == AppError::Domain(DomainError::MoneyOverflow),
        },
        final(c).faltas == old(c).faltas,
        final(c).faltas_justificadas == old(c).faltas_justificadas,
{
    let mult = e.multiplicador_dia(fecha, feriados);
    if !mult.is_positive() {
        return Ok(());
    }
    contar_dia_especial(c, fecha, Decimal4::one(), feriados)?;
    c.completas = sumar4(c.completas, Decimal4::one())?;
    let d = sumar4(c.dias, Decimal4::one())?;
    let p = match e.tarifa_diaria.checked_mul(mult) {
        Ok(p) => p,
        Err(_) => return Err(desborde()),
    };
    let b = match c.bruto.checked_add(p) {
        Ok(b) => b,
        Err(_) => return Err(desborde()),
    };
    c.dias = d;
    c.bruto = b;
    Ok(())
}

/// The calendar branch: every day from `desde` to `hasta`, both included.
fn desde_calendario(e: &Empleado, desde: i32, hasta: i32, feriados: &Vec<i32>) -> (r: Result<Contadores, AppError>)
    ensures
        match por_calendario(e, desde as int, dias_del_rango(desde as int, hasta as int), feriados@) {
            Some(x) => r matches Ok(c) && c@ == x,
            None => r matches Err(x) && x == AppError::Domain(DomainError::MoneyOverflow),
        },
{
    let mut c = contadores_cero();
    if hasta < desde {
        return Ok(c);
    }
    let total: u64 = (hasta as i64 - desde as i64 + 1) as u64;
    let mut n: u64 = 0;
    while n < total
        invariant
            total == dias_del_rango(desde as int, hasta as int),
            n <= total,
            por_calendario(e, desde as int, n as nat, feriados@) == Some(c@),
        decreases total - n,
    {
        let fecha: i32 = (desde as i64 + n as i64) as i32;
        let paso = paso_dia(&mut c, e, fecha, feriados);
        match paso {
            Ok(()) => {},
            Err(x) => {
                proof {
                    lema_calendario_prefijo(e, desde as int, total as nat, (n + 1) as nat, feriados@);
                }
                return Err(x);
            },
        }
        n = n + 1;
    }
    Ok(c)
}

/// The advances as offered, and the sum of those still to discount.
fn ofrecer_adelantos(candidatos: &Vec<AdelantoCandidato>) -> (r: (Vec<LiquidacionAdelantoSugerido>, Vec<Money>))
    ensures
        r.0@.len() == candidatos@.len(),
        forall|i: int| 0 <= i < candidatos@.len() ==> adelanto_ok(#[trigger] r.0@[i], candidatos@[i]),
        valores(r.1@) == montos_pendientes(candidatos@),
{
    let mut ofrecidos: Vec<LiquidacionAdelantoSugerido> = Vec::new();
    let mut pendientes: Vec<Money> = Vec::new();
    let mut i: usize = 0;
    assert(candidatos@.take(0) =~= Seq::<AdelantoCandidato>::empty());
    assert(valores(pendientes@) =~= Seq::<int>::empty());
    while i < candidatos.len()
        invariant
            i <= candidatos@.len(),
            ofrecidos@.len() == i,
            forall|k: int| 0 <= k < i ==> adelanto_ok(#[trigger] ofrecidos@[k], candidatos@[k]),
            valores(pendientes@) == montos_pendientes(candidatos@.take(i as int)),
        decreases candidatos@.len() - i,
    {
        let c = &candidatos[i];
        let ya = c.liquidacion_id.is_some();
        ofrecidos.push(
            LiquidacionAdelantoSugerido {
                movimiento_id: c.movimiento_id,
                fecha: c.fecha,
                concepto: crate::texto::copia(c.concepto.as_str()),
                monto: c.monto,
                ya_descontado: ya,
                liquidacion_que_lo_desconto: c.liquidacion_id,
                incluir: !ya,
            },
        );
        let ghost antes = pendientes@;
        if !ya {
            pendientes.push(c.monto);
        }
        assert(candidatos@.take(i + 1).drop_last() =~= candidatos@.take(i as int));
        assert(candidatos@.take(i + 1).last() == candidatos@[i as int]);
        assert(valores(pendientes@) =~= montos_pendientes(candidatos@.take(i + 1)));
        i = i + 1;
    }
    assert(candidatos@.take(candidatos@.len() as int) =~= candidatos@);
    (ofrecidos, pendientes)
}

/// The suggestion for one employee over `desde..=hasta`: `dias_manuales` when typed and not
/// exactly zero, else the attendance cells when there is any, else the calendar; holidays are the
/// dates in `feriados`. An arithmetic overflow anywhere is reported as a domain error.
pub fn construir_sugerencia(
    empleado: &Empleado,
    desde: i32,
    hasta: i32,
    dias_manuales: Option<Decimal4>,
    jornadas: &Vec<(i32, TipoJornada)>,
    feriados: &Vec<i32>,
    candidatos: &Vec<AdelantoCandidato>,
) -> (r: Result<LiquidacionSugerencia, AppError>)
    ensures
        match totales_de(empleado, desde as int, hasta as int, dias_manuales, jornadas@, feriados@, candidatos@) {
            Some(t) => r matches Ok(s) && sugerencia_ok(
                s,
                empleado,
                desde,
                hasta,
                dias_manuales,
                jornadas@,
                feriados@,
                candidatos@,
                t,
            ),
            None => r matches Err(x) && x == AppError::Domain(DomainError::MoneyOverflow),
        },
{
    let reglas = empleado.reglas();
    let (c, origen) = match dias_manuales {
        Some(dias) if dias.raw != 0 => {
            let bruto = match empleado.tarifa_diaria.checked_mul(dias) {
                Ok(b) => b,
                Err(_) => return Err(desborde()),
            };
            let mut c = contadores_cero();
            c.dias = dias;
            c.bruto = bruto;
            (c, OrigenLiquidacion::Manual)
        },
        _ => {
            if jornadas.len() > 0 {
                (desde_asistencia(empleado, jornadas, feriados)?, OrigenLiquidacion::Asistencia)
            } else {
                (desde_calendario(empleado, desde, hasta, feriados)?, OrigenLiquidacion::Calendario)
            }
        },
    };
    let sin_recargo = match empleado.tarifa_diaria.checked_mul(c.dias) {
        Ok(s) => s,
        Err(_) => return Err(desborde()),
    };
    let recargos = match c.bruto.checked_sub(sin_recargo) {
        Ok(x) => x,
        Err(_) => Money::zero(),
    };
    let (adelantos, pendientes) = ofrecer_adelantos(candidatos);
    let total_adelantos = match Money::try_sum(&pendientes) {
        Ok(t) => t,
        Err(_) => return Err(desborde()),
    };
    let total_neto = match c.bruto.checked_sub(total_adelantos) {
        Ok(n) => n,
        Err(_) => return Err(desborde()),
    };
    Ok(
        LiquidacionSugerencia {
            empleado_id: empleado.id,
            empleado_nombre: crate::texto::copia(empleado.nombre.as_str()),
            desde,
            hasta,
            dias_trabajados: c.dias,
            tarifa_aplicada: empleado.tarifa_diaria,
            total_bruto: c.bruto,
            total_adelantos,
            total_neto,
            origen,
            incluir_sabados: reglas.incluir_sabados,
            incluir_domingos: reglas.incluir_domingos,
            incluir_feriados: reglas.incluir_feriados,
            desglose: LiquidacionDesglose {
                jornadas_completas: c.completas,
                jornadas_medias: c.medias,
                faltas: c.faltas,
                faltas_justificadas: c.faltas_justificadas,
                dias_sabado: c.sabados,
                dias_domingo: c.domingos,
                dias_feriado: c.feriados,
                multiplicador_sabado: reglas.multiplicador_sabado,
                multiplicador_domingo: reglas.multiplicador_domingo,
                multiplicador_feriado: reglas.multiplicador_feriado,
                recargos,
            },
            adelantos,
            feriados_no_disponibles: feriados.len() == 0,
        },
    )
}

/// The net pay is the gross pay minus the advances still to discount.
pub proof fn el_neto_es_el_bruto_menos_los_adelantos(
    e: &Empleado,
    desde: int,
    hasta: int,
    manuales: Option<Decimal4>,
    jornadas: Seq<(i32, TipoJornada)>,
    feriados: Seq<i32>,
    candidatos: Seq<AdelantoCandidato>,
)
    ensures
        totales_de(e, desde, hasta, manuales, jornadas, feriados, candidatos) matches Some(t) ==> t.neto == t.cuenta.bruto
            - t.adelantos,
{
}

/// An advance another settlement already discounted is never discounted again.
pub proof fn un_adelanto_ya_liquidado_no_se_vuelve_a_descontar(cs: Seq<AdelantoCandidato>, c: AdelantoCandidato)
    requires
        c.liquidacion_id is Some,
    ensures
        montos_pendientes(cs.push(c)) == montos_pendientes(cs),
{
    assert(cs.push(c).drop_last() =~= cs);
}

/// Days typed by hand pay the plain rate: no surcharge.
pub proof fn la_rama_manual_no_aplica_multiplicadores(
    e: &Empleado,
    desde: int,
    hasta: int,
    manuales: Option<Decimal4>,
    jornadas: Seq<(i32, TipoJornada)>,
    feriados: Seq<i32>,
    candidatos: Seq<AdelantoCandidato>,
)
    requires
        origen_de(manuales, jornadas) == OrigenLiquidacion::Manual,
    ensures
        totales_de(e, desde, hasta, manuales, jornadas, feriados, candidatos) matches Some(t) ==> t.recargos == 0
            && t.cuenta.dias == manuales->0@,
{
}

/// Any attendance record owns the period unless days were typed by hand.
pub proof fn la_asistencia_gana_sobre_el_calendario(manuales: Option<Decimal4>, jornadas: Seq<(i32, TipoJornada)>)
    requires
        jornadas.len() > 0,
        manuales is None || manuales->0@ == 0,
    ensures
        origen_de(manuales, jornadas) == OrigenLiquidacion::Asistencia,
{
}

proof fn lema_por_uno(t: int)
    ensures
        crate::dinero::producto_escalado(t, 10_000) == t,
{
    assert((t * 10_000) / 10_000 == t && (t * 10_000) % 10_000 == 0) by (nonlinear_arith);
    assert((-t * 10_000) / 10_000 == -t && (-t * 10_000) % 10_000 == 0) by (nonlinear_arith);
    assert(-(t * 10_000) == -t * 10_000) by (nonlinear_arith);
}

/// An attended day that falls on a holiday, and is not itself recorded as a holiday, is paid at
/// the holiday multiplier: the gross pay grows by the daily rate times the cell's weight times
/// `multiplicador_feriado`, and the holiday counter by the cell's weight.
pub proof fn un_feriado_trabajado_paga_el_recargo_de_feriado(c: Cuenta, e: &Empleado, fecha: int, tipo: TipoJornada, feriados: Seq<i32>)
    requires
        tipo != TipoJornada::Feriado,
        factor_de(tipo) > 0,
        feriados.contains(fecha as i32),
        e.multiplicador_feriado@ > 0,
    ensures
        paso_asistencia(c, e, fecha, tipo, feriados) matches Some(c2) ==> (mul_chk(e.tarifa_diaria@, factor_de(tipo)) matches Some(p)
            && mul_chk(p, e.multiplicador_feriado@) matches Some(q) && c2.bruto == c.bruto + q && c2.dias == c.dias + factor_de(tipo)
            && c2.feriados == c.feriados + factor_de(tipo)),
{
}

/// A full day of attendance is worth what the calendar pays for that same date: the same days and
/// the same gross pay, whatever multiplier the date carries.
pub proof fn una_jornada_completa_vale_lo_que_el_calendario(c: Cuenta, e: &Empleado, fecha: int, feriados: Seq<i32>)
    ensures
        paso_asistencia(c, e, fecha, TipoJornada::Completa, feriados) matches Some(a) ==> (paso_calendario(c, e, fecha, feriados) matches Some(b)
            ==> a.bruto == b.bruto && a.dias == b.dias),
{
    lema_por_uno(e.tarifa_diaria@);
}

/// A calendar day whose multiplier is not positive changes nothing.
pub proof fn un_dia_excluido_no_cuenta(c: Cuenta, e: &Empleado, fecha: int, feriados: Seq<i32>)
    requires
        multiplicador_dia_v(e, fecha, feriados) <= 0,
    ensures
        paso_calendario(c, e, fecha, feriados) == Some(c),
{
}

/// A suggestion is asked for a period that starts before it ends.
pub open spec fn rango_ok(r: Result<(), AppError>, desde: i32, hasta: i32) -> bool {
    if desde > hasta {
        r matches Err(e) && e is Validation && campos_de(e) == seq![
            error_campo("hasta"@, "Validation.Liquidacion.FechaInicioInvalid"@),
        ]
    } else {
        r is Ok
    }
}

/// What the suggestion of one employee reads.
#[derive(Debug)]
pub struct EntradaSugerencia {
    pub empleado: Empleado,
    pub dias_manuales: Option<Decimal4>,
    pub jornadas: Vec<(i32, TipoJornada)>,
    pub candidatos: Vec<AdelantoCandidato>,
}

/// The totals of one employee's suggestion.
pub open spec fn totales_entrada(en: EntradaSugerencia, desde: int, hasta: int, feriados: Seq<i32>) -> Option<Totales> {
    totales_de(&en.empleado, desde, hasta, en.dias_manuales, en.jornadas@, feriados, en.candidatos@)
}

/// A suggestion is the right one for its employee.
pub open spec fn sugerencia_de_entrada(s: LiquidacionSugerencia, en: EntradaSugerencia, desde: i32, hasta: i32, feriados: Seq<i32>) -> bool {
    match totales_entrada(en, desde as int, hasta as int, feriados) {
        Some(t) => sugerencia_ok(s, &en.empleado, desde, hasta, en.dias_manuales, en.jornadas@, feriados, en.candidatos@, t),
        None => false,
    }
}

/// Whether every employee's suggestion can be computed.
pub open spec fn todas_posibles(es: Seq<EntradaSugerencia>, desde: int, hasta: int, feriados: Seq<i32>) -> bool {
    forall|i: int| 0 <= i < es.len() ==> totales_entrada(#[trigger] es[i], desde, hasta, feriados) is Some
}

/// The refusal of a period that overlaps another settlement of the same employee, naming the
/// employee and the other period.
pub open spec fn solapado(e: AppError, empleado: Seq<char>, desde: i32, hasta: i32) -> bool {
    es_conflicto(
        e,
        "PERIODO_SOLAPADO"@,
        "Validation.Liquidacion.PeriodoSolapado"@,
        seq![("desde"@, texto_de_fecha(desde)), ("empleado"@, empleado), ("hasta"@, texto_de_fecha(hasta))],
    )
}

/// The refusal to change the amounts of a settlement already handed over, with the date it was.
pub open spec fn entregada(e: AppError, fecha: Seq<char>) -> bool {
    es_conflicto(e, "LIQUIDACION_YA_ENTREGADA"@, "State.Liquidacion.YaEntregada"@, seq![("fecha"@, fecha)])
}

/// The amounts a settlement is stored with.
#[derive(Debug, Clone, Copy, PartialEq, Eq, Structural)]
pub struct Importes {
    pub dias_trabajados: Decimal4,
    pub tarifa_aplicada: Money,
    pub total_bruto: Money,
    pub total_adelantos: Money,
}

/// The settlements' service: it holds nothing the rules read.
pub struct LiquidacionesService {}

impl LiquidacionesService {
    pub fn new() -> (s: LiquidacionesService) {
        LiquidacionesService {  }
    }

    pub fn verificar_rango(&self, desde: i32, hasta: i32) -> (r: Result<(), AppError>)
        ensures
            rango_ok(r, desde, hasta),
    {
        if desde > hasta {
            Err(validation_err("hasta", "Validation.Liquidacion.FechaInicioInvalid"))
        } else {
            Ok(())
        }
    }

    /// The suggestions of several employees over one period, in the order asked; an overflow for
    /// any of them fails the whole request.
    pub fn sugerir(&self, desde: i32, hasta: i32, entradas: &Vec<EntradaSugerencia>, feriados: &Vec<i32>) -> (r: Result<Vec<LiquidacionSugerencia>, AppError>)
        ensures
            desde > hasta ==> (r matches Err(e) && e is Validation && campos_de(e) == seq![
                error_campo("hasta"@, "Validation.Liquidacion.FechaInicioInvalid"@),
            ]),
            desde <= hasta ==> (r is Ok <==> todas_posibles(entradas@, desde as int, hasta as int, feriados@)),
            desde <= hasta && !todas_posibles(entradas@, desde as int, hasta as int, feriados@) ==> (r matches Err(x) && x
                == AppError::Domain(DomainError::MoneyOverflow)),
            r matches Ok(v) ==> v@.len() == entradas@.len() && forall|i: int|
                0 <= i < entradas@.len() ==> sugerencia_de_entrada(#[trigger] v@[i], entradas@[i], desde, hasta, feriados@),
    {
        match self.verificar_rango(desde, hasta) {
            Ok(()) => {},
            Err(e) => return Err(e),
        }
        let mut v: Vec<LiquidacionSugerencia> = Vec::new();
        let mut i: usize = 0;
        while i < entradas.len()
            invariant
                i <= entradas@.len(),
                desde <= hasta,
                v@.len() == i,
                forall|k: int| 0 <= k < i ==> sugerencia_de_entrada(#[trigger] v@[k], entradas@[k], desde, hasta, feriados@),
            decreases entradas@.len() - i,
        {
            let en = &entradas[i];
            assert(entradas@[i as int] == *en);
            match construir_sugerencia(&en.empleado, desde, hasta, en.dias_manuales, &en.jornadas, feriados, &en.candidatos) {
                Ok(s) => {
                    assert(sugerencia_de_entrada(s, *en, desde, hasta, feriados@));
                    v.push(s);
                },
                Err(e) => {
                    assert(!todas_posibles(entradas@, desde as int, hasta as int, feriados@)) by {
                        assert(totales_entrada(entradas@[i as int], desde as int, hasta as int, feriados@) is None);
                    }
                    return Err(e);
                },
            }
            i = i + 1;
        }
        assert forall|k: int| 0 <= k < entradas@.len() implies totales_entrada(#[trigger] entradas@[k], desde as int, hasta as int, feriados@) is Some by {
            assert(sugerencia_de_entrada(v@[k], entradas@[k], desde, hasta, feriados@));
        }
        Ok(v)
    }

    /// The frozen lines of the advances have to add up to the frozen total, or the document would
    /// not add up to what was paid; a mismatch is an internal error.
    pub fn verificar_suma_adelantos(&self, montos: &Vec<Money>, total: Money) -> (r: Result<(), AppError>)
        ensures
            match suma_chk_seq(valores(montos@)) {
                None => r matches Err(e) && e == AppError::Domain(DomainError::MoneyOverflow),
                Some(s) => if s == total@ {
                    r is Ok
                } else {
                    r matches Err(e) && e is Unexpected
                },
            },
    {
        let suma = match Money::try_sum(montos) {
            Ok(s) => s,
            Err(e) => return Err(AppError::Domain(e)),
        };
        if suma.raw != total.raw {
            let mut m = copia("la suma de adelantos (");
            m = m.concat(suma.to_decimal_string().as_str());
            m = m.concat(") no coincide con el total (");
            m = m.concat(total.to_decimal_string().as_str());
            m = m.concat(")");
            return Err(AppError::Unexpected(error_con_mensaje(m)));
        }
        Ok(())
    }

    /// The refusal of an overlapping period.
    pub fn periodo_solapado(&self, empleado: &str, desde: i32, hasta: i32) -> (e: AppError)
        ensures
            solapado(e, empleado@, desde, hasta),
    {
        let mut params: Vec<(String, String)> = Vec::new();
        params.push((copia("desde"), texto_fecha(desde)));
        params.push((copia("empleado"), copia(empleado)));
        params.push((copia("hasta"), texto_fecha(hasta)));
        let e = AppError::Conflict {
            code: copia("PERIODO_SOLAPADO"),
            message_key: copia("Validation.Liquidacion.PeriodoSolapado"),
            params,
        };
        assert(params_v(params@) =~= seq![
            ("desde"@, texto_de_fecha(desde)),
            ("empleado"@, empleado@),
            ("hasta"@, texto_de_fecha(hasta)),
        ]);
        e
    }

    /// Amounts stay editable until the document is handed over; after that only the notes move.
    pub fn verificar_cambio_importes(&self, actuales: Importes, nuevos: Importes, pdf_generado_at: Option<i64>) -> (r: Result<bool, AppError>)
        ensures
            actuales == nuevos ==> r == Ok::<bool, AppError>(false),
            actuales != nuevos && pdf_generado_at is None ==> r == Ok::<bool, AppError>(true),
            actuales != nuevos && pdf_generado_at is Some ==> (r matches Err(e) && entregada(e, rfc3339_de(pdf_generado_at->0))),
    {
        let cambia = actuales.dias_trabajados.raw != nuevos.dias_trabajados.raw
            || actuales.tarifa_aplicada.raw != nuevos.tarifa_aplicada.raw
            || actuales.total_bruto.raw != nuevos.total_bruto.raw
            || actuales.total_adelantos.raw != nuevos.total_adelantos.raw;
        if !cambia {
            return Ok(false);
        }
        match pdf_generado_at {
            None => Ok(true),
            Some(t) => Err(conflicto_con("LIQUIDACION_YA_ENTREGADA", "State.Liquidacion.YaEntregada", "fecha", texto_rfc3339(t))),
        }
    }
}

} // verus!

//! The dashboard's figures: the windows a period covers, the change against the previous window,
//! the margin, the overdue threshold and the alerts.

use vstd::prelude::*;
use crate::dinero::{cabe_i64, div_redondeo, dividir_redondeando, Decimal4, DomainError, Money};
use crate::fechas::{fecha_menos_dias, instante, instante_civil, instante_menos_meses, restar_dias, restar_meses, INSTANTE_1901, NANOS_POR_DIA, ULTIMO_DIA_9999};
use crate::texto::copia;

verus! {

/// Where the whole-history period starts counting from.
pub const COMIENZO_DE_LOS_TIEMPOS: i32 = 1900;

/// The period a dashboard covers.
#[derive(Debug, Clone, Copy, PartialEq, Eq, Structural)]
pub enum PeriodoDashboard {
    Mensual,
    Anual,
    Total,
}

/// The current window, as instants in nanoseconds since the epoch, and the one it is compared
/// against. The whole history has no previous window.
#[derive(Debug, Clone, Copy, PartialEq, Eq, Structural)]
pub struct Ventanas {
    pub desde: i64,
    pub hasta: i64,
    pub anterior: Option<Ventana>,
}

/// A span of time, from `desde` to `hasta`.
#[derive(Debug, Clone, Copy, PartialEq, Eq, Structural)]
pub struct Ventana {
    pub desde: i64,
    pub hasta: i64,
}

/// The start of a window reaching `meses` months back, the instant itself when chrono cannot
/// go that far.
pub open spec fn atras(ahora: i64, meses: u32) -> i64 {
    match instante_menos_meses(ahora, meses) {
        Some(t) => t,
        None => ahora,
    }
}

/// A window ending now, with the previous one: the same length, ending where it starts. When
/// that previous window begins before the first instant that can be written there is none.
pub open spec fn con_anterior(desde: i64, ahora: i64) -> Ventanas {
    Ventanas {
        desde,
        hasta: ahora,
        anterior: if cabe_i64(desde - (ahora - desde)) {
            Some(Ventana { desde: (desde - (ahora - desde)) as i64, hasta: desde })
        } else {
            None
        },
    }
}

/// The windows of a period.
pub open spec fn ventanas_de(periodo: PeriodoDashboard, ahora: i64) -> Ventanas {
    match periodo {
        PeriodoDashboard::Mensual => con_anterior(atras(ahora, 1), ahora),
        PeriodoDashboard::Anual => con_anterior(atras(ahora, 12), ahora),
        PeriodoDashboard::Total => Ventanas {
            desde: match instante_civil(COMIENZO_DE_LOS_TIEMPOS, 1, 1, 0, 0, 0) {
                Some(t) => t,
                None => ahora,
            },
            hasta: ahora,
            anterior: None,
        },
    }
}

fn ventana_con_anterior(desde: i64, ahora: i64) -> (v: Ventanas)
    ensures
        v == con_anterior(desde, ahora),
{
    let d: i128 = desde as i128 - (ahora as i128 - desde as i128);
    let anterior = if i64::MIN as i128 <= d && d <= i64::MAX as i128 {
        Some(Ventana { desde: d as i64, hasta: desde })
    } else {
        None
    };
    Ventanas { desde, hasta: ahora, anterior }
}

/// The settings the dashboard reads.
pub struct DashboardService {
    pub dias_vencimiento_default: u32,
    pub alerta_caida_ingresos_pct: Decimal4,
}

impl DashboardService {
    pub fn new(dias_vencimiento_default: u32, alerta_caida_ingresos_pct: Decimal4) -> (s: DashboardService)
        ensures
            s.dias_vencimiento_default == dias_vencimiento_default,
            s.alerta_caida_ingresos_pct == alerta_caida_ingresos_pct,
    {
        DashboardService { dias_vencimiento_default, alerta_caida_ingresos_pct }
    }

    /// Rolling windows, not calendar months: monthly is the last month up to now, yearly the last
    /// twelve; the previous window is the current one shifted back by its own length.
    pub fn ventanas(periodo: PeriodoDashboard, ahora: i64) -> (v: Ventanas)
        ensures
            v == ventanas_de(periodo, ahora),
            ventanas_completas(periodo, ahora, v),
    {
        calcular_ventanas(periodo, ahora)
    }

    /// Invoices issued on or before this date and still unpaid count as overdue.
    pub fn umbral(&self, hoy: i32) -> (r: i32)
        ensures
            r == umbral_de(hoy, self.dias_vencimiento_default),
            1 <= hoy - self.dias_vencimiento_default && hoy <= ULTIMO_DIA_9999 ==> r == hoy - self.dias_vencimiento_default,
    {
        umbral_vencimiento(hoy, self.dias_vencimiento_default)
    }

    /// The alerts of the dashboard, in the order they are shown.
    pub fn alertas(&self, conteos: Conteos, actual: ResumenRango, anterior: Option<ResumenRango>) -> (r: Vec<Alerta>)
        ensures
            alertas_v(r@) == alertas_de(conteos, actual, anterior, self.alerta_caida_ingresos_pct@),
    {
        construir_alertas(conteos, actual, anterior, self.alerta_caida_ingresos_pct)
    }
}

/// From 1901 on, the windows are whole: monthly and yearly start exactly one and twelve months
/// back, as chrono counts them, and have a previous window that ends where they start and lasts
/// as long; the whole history starts on the first day of 1900.
pub open spec fn ventanas_completas(periodo: PeriodoDashboard, ahora: i64, v: Ventanas) -> bool {
    ahora >= INSTANTE_1901 ==> match periodo {
        PeriodoDashboard::Mensual => instante_menos_meses(ahora, 1) == Some(v.desde) && v.desde <= ahora
            && v.anterior == Some(Ventana { desde: (v.desde - (ahora - v.desde)) as i64, hasta: v.desde }),
        PeriodoDashboard::Anual => instante_menos_meses(ahora, 12) == Some(v.desde) && v.desde <= ahora
            && v.anterior == Some(Ventana { desde: (v.desde - (ahora - v.desde)) as i64, hasta: v.desde }),
        PeriodoDashboard::Total => instante_civil(COMIENZO_DE_LOS_TIEMPOS, 1, 1, 0, 0, 0) == Some(v.desde)
            && v.anterior is None,
    }
}

/// The windows of a period at the instant `ahora`.
pub fn calcular_ventanas(periodo: PeriodoDashboard, ahora: i64) -> (v: Ventanas)
    ensures
        v == ventanas_de(periodo, ahora),
        ventanas_completas(periodo, ahora, v),
{
    match periodo {
        PeriodoDashboard::Mensual => {
            let desde = match restar_meses(ahora, 1) {
                Some(t) => t,
                None => ahora,
            };
            ventana_con_anterior(desde, ahora)
        },
        PeriodoDashboard::Anual => {
            let desde = match restar_meses(ahora, 12) {
                Some(t) => t,
                None => ahora,
            };
            ventana_con_anterior(desde, ahora)
        },
        PeriodoDashboard::Total => {
            let desde = match instante(COMIENZO_DE_LOS_TIEMPOS, 1, 1, 0, 0, 0) {
                Some(t) => t,
                None => ahora,
            };
            Ventanas { desde, hasta: ahora, anterior: None }
        },
    }
}

/// The previous window of a period that has one spans as long as the current one and ends where
/// it starts.
pub proof fn la_ventana_anterior_es_contigua_y_del_mismo_largo(periodo: PeriodoDashboard, ahora: i64)
    ensures
        ventanas_de(periodo, ahora).anterior matches Some(a) ==> a.hasta == ventanas_de(periodo, ahora).desde && a.hasta
            - a.desde == ventanas_de(periodo, ahora).hasta - ventanas_de(periodo, ahora).desde,
        ventanas_de(periodo, ahora).hasta == ahora,
        periodo == PeriodoDashboard::Total ==> ventanas_de(periodo, ahora).anterior is None,
{
}

/// The date `dias` days before today, today itself when that leaves the calendar.
pub open spec fn umbral_de(hoy: i32, dias: u32) -> i32 {
    match fecha_menos_dias(hoy, dias) {
        Some(f) => f,
        None => hoy,
    }
}

/// How many rows a configured list of the dashboard shows: the configured count, and never
/// fewer than one, so a setting of zero does not empty the panel.
pub fn cantidad_listado(configurada: u32) -> (n: u32)
    ensures
        n == if configurada == 0 { 1 } else { configurada },
{
    if configurada == 0 {
        1
    } else {
        configurada
    }
}

/// The key of the health label of the database.
pub fn estado_base(saludable: bool) -> (r: String)
    ensures
        r@ == if saludable { "Dashboard.Estado.Saludable"@ } else { "Dashboard.Estado.Error"@ },
{
    if saludable {
        copia("Dashboard.Estado.Saludable")
    } else {
        copia("Dashboard.Estado.Error")
    }
}

pub fn umbral_vencimiento(hoy: i32, dias: u32) -> (r: i32)
    ensures
        r == umbral_de(hoy, dias),
        1 <= hoy - dias && hoy <= ULTIMO_DIA_9999 ==> r == hoy - dias,
{
    match restar_dias(hoy, dias) {
        Some(f) => f,
        None => hoy,
    }
}

/// The change from `anterior` to `actual` in percent, as a scaled value with one decimal:
/// `(actual - anterior) / |anterior| * 100`, rounded half away from zero. Without a base there is
/// no change to speak of unless both are zero; a change too large to be written is absent too.
pub open spec fn variacion_de(anterior: int, actual: int) -> Option<int> {
    if anterior == 0 {
        if actual == 0 {
            Some(0)
        } else {
            None
        }
    } else {
        let a = if anterior < 0 { -anterior } else { anterior };
        let v = div_redondeo((actual - anterior) * 1000, a) * 1000;
        if cabe_i64(v) {
            Some(v)
        } else {
            None
        }
    }
}

/// The change of a figure against the previous window; absent, not infinite, without a base.
pub fn variacion(anterior: Money, actual: Money) -> (r: Option<Decimal4>)
    ensures
        match variacion_de(anterior@, actual@) {
            Some(v) => r == Some(Decimal4 { raw: v as i64 }),
            None => r is None,
        },
{
    if anterior.raw == 0 {
        if actual.raw == 0 {
            return Some(Decimal4 { raw: 0 });
        }
        return None;
    }
    let a: i128 = if anterior.raw < 0 {
        -(anterior.raw as i128)
    } else {
        anterior.raw as i128
    };
    let n: i128 = (actual.raw as i128 - anterior.raw as i128) * 1000;
    let q = dividir_redondeando(n, a);
    assert(-0x2_0000_0000_0000_0000_000 <= q <= 0x2_0000_0000_0000_0000_000) by (nonlinear_arith)
        requires
            q == div_redondeo(n as int, a as int),
            -0x1_0000_0000_0000_0000 * 1000 <= n <= 0x1_0000_0000_0000_0000 * 1000,
            a >= 1,
    {
        lema_cota_div_redondeo(n as int, a as int);
    }
    let v: i128 = q * 1000;
    if i64::MIN as i128 <= v && v <= i64::MAX as i128 {
        Some(Decimal4 { raw: v as i64 })
    } else {
        None
    }
}

/// A rounded quotient is no larger in size than the numerator plus one.
proof fn lema_cota_div_redondeo(n: int, d: int)
    requires
        d >= 1,
    ensures
        -(if n < 0 { -n } else { n }) - 1 <= div_redondeo(n, d) <= (if n < 0 { -n } else { n }) + 1,
{
    if n >= 0 {
        assert(n / d <= n) by (nonlinear_arith)
            requires
                n >= 0,
                d >= 1,
        ;
        assert(n / d >= 0) by (nonlinear_arith)
            requires
                n >= 0,
                d >= 1,
        ;
    } else {
        assert((-n) / d <= -n) by (nonlinear_arith)
            requires
                -n >= 0,
                d >= 1,
        ;
        assert((-n) / d >= 0) by (nonlinear_arith)
            requires
                -n >= 0,
                d >= 1,
        ;
    }
}

/// The margin of a profit over the income, in percent with two decimals, rounded half away from
/// zero; zero when there is no income.
pub open spec fn margen_de(ingresos: int, rentabilidad: int) -> int {
    if ingresos == 0 {
        0
    } else if ingresos > 0 {
        div_redondeo(rentabilidad * 10000, ingresos) * 100
    } else {
        div_redondeo(-rentabilidad * 10000, -ingresos) * 100
    }
}

/// The margin of a profitability figure; an overflow when it does not fit.
pub fn margen(ingresos: Money, rentabilidad: Money) -> (r: Result<Decimal4, DomainError>)
    ensures
        cabe_i64(margen_de(ingresos@, rentabilidad@)) ==> r == Ok::<Decimal4, DomainError>(Decimal4 { raw: margen_de(ingresos@, rentabilidad@) as i64 }),
        !cabe_i64(margen_de(ingresos@, rentabilidad@)) ==> r == Err::<Decimal4, DomainError>(DomainError::MoneyOverflow),
{
    if ingresos.raw == 0 {
        return Ok(Decimal4 { raw: 0 });
    }
    let (n, d): (i128, i128) = if ingresos.raw > 0 {
        (rentabilidad.raw as i128 * 10000, ingresos.raw as i128)
    } else {
        (-(rentabilidad.raw as i128) * 10000, -(ingresos.raw as i128))
    };
    let q = dividir_redondeando(n, d);
    proof {
        lema_cota_div_redondeo(n as int, d as int);
    }
    let v: i128 = q * 100;
    if i64::MIN as i128 <= v && v <= i64::MAX as i128 {
        Ok(Decimal4 { raw: v as i64 })
    } else {
        Err(DomainError::MoneyOverflow)
    }
}

/// The totals of a window.
#[derive(Debug, Clone, Copy, PartialEq, Eq, Structural)]
pub struct ResumenRango {
    pub total_ingresos: Money,
    pub total_gastos: Money,
    pub balance: Money,
    pub cantidad: u64,
}

/// The counters the alerts look at.
#[derive(Debug, Clone, Copy, PartialEq, Eq, Structural)]
pub struct Conteos {
    pub facturas_vencidas: u64,
    pub proyectos_pausados: u64,
    pub liquidaciones_pendientes: u64,
}

#[derive(Debug, Clone, Copy, PartialEq, Eq, Structural)]
pub enum TipoAlerta {
    FacturasVencidas,
    BalanceNegativo,
    ProyectosPausados,
    LiquidacionesPendientes,
    CaidaIngresos,
}

#[derive(Debug, Clone, Copy, PartialEq, Eq, Structural)]
pub enum SeveridadAlerta {
    Info,
    Warning,
    Error,
}

/// A warning on the dashboard, with the screen it leads to.
#[derive(Debug)]
pub struct Alerta {
    pub tipo: TipoAlerta,
    pub clave: String,
    pub cantidad: u64,
    pub monto: Option<Money>,
    pub severidad: SeveridadAlerta,
    pub destino: String,
}

/// What an alert says.
pub struct AlertaV {
    pub tipo: TipoAlerta,
    pub clave: Seq<char>,
    pub cantidad: u64,
    pub monto: Option<Money>,
    pub severidad: SeveridadAlerta,
    pub destino: Seq<char>,
}

impl View for Alerta {
    type V = AlertaV;

    open spec fn view(&self) -> AlertaV {
        AlertaV {
            tipo: self.tipo,
            clave: self.clave@,
            cantidad: self.cantidad,
            monto: self.monto,
            severidad: self.severidad,
            destino: self.destino@,
        }
    }
}

pub open spec fn alertas_v(v: Seq<Alerta>) -> Seq<AlertaV> {
    v.map_values(|a: Alerta| a@)
}

pub open spec fn alerta(tipo: TipoAlerta, clave: Seq<char>, cantidad: u64, monto: Option<Money>, severidad: SeveridadAlerta, destino: Seq<char>) -> AlertaV {
    AlertaV { tipo, clave, cantidad, monto, severidad, destino }
}

/// Whether income fell more than the configured percentage against the previous window.
pub open spec fn cae_ingreso(actual: ResumenRango, anterior: Option<ResumenRango>, caida_pct: int) -> bool {
    match anterior {
        None => false,
        Some(a) => match variacion_de(a.total_ingresos@, actual.total_ingresos@) {
            Some(v) => v < -(if caida_pct < 0 { -caida_pct } else { caida_pct }),
            None => false,
        },
    }
}

/// The alerts, in order: overdue invoices, a negative balance, paused projects, pending
/// settlements and a fall in income.
pub open spec fn alertas_de(c: Conteos, actual: ResumenRango, anterior: Option<ResumenRango>, caida_pct: int) -> Seq<AlertaV> {
    (if c.facturas_vencidas > 0 {
        seq![alerta(TipoAlerta::FacturasVencidas, "Dashboard.Alerta.FacturasVencidas"@, c.facturas_vencidas, None, SeveridadAlerta::Warning, "/facturas?estado=vencida"@)]
    } else {
        seq![]
    }) + (if actual.balance@ < 0 {
        seq![alerta(TipoAlerta::BalanceNegativo, "Dashboard.Alerta.BalanceNegativo"@, 0, Some(actual.balance), SeveridadAlerta::Error, "/movimientos"@)]
    } else {
        seq![]
    }) + (if c.proyectos_pausados > 0 {
        seq![alerta(TipoAlerta::ProyectosPausados, "Dashboard.Alerta.ProyectosPausados"@, c.proyectos_pausados, None, SeveridadAlerta::Info, "/proyectos?estado=pausada"@)]
    } else {
        seq![]
    }) + (if c.liquidaciones_pendientes > 0 {
        seq![alerta(TipoAlerta::LiquidacionesPendientes, "Dashboard.Alerta.LiquidacionesPendientes"@, c.liquidaciones_pendientes, None, SeveridadAlerta::Warning, "/liquidaciones"@)]
    } else {
        seq![]
    }) + (if cae_ingreso(actual, anterior, caida_pct) {
        seq![alerta(TipoAlerta::CaidaIngresos, "Dashboard.Alerta.CaidaIngresos"@, 0, None, SeveridadAlerta::Warning, "/movimientos"@)]
    } else {
        seq![]
    })
}

/// An alert of a kind that counts something reports exactly that count, and it is shown exactly
/// when the count is not zero; a kind never appears twice.
pub open spec fn cuenta_lo_que_avisa(alertas: Seq<AlertaV>, tipo: TipoAlerta, cantidad: u64) -> bool {
    &&& forall|i: int| 0 <= i < alertas.len() && (#[trigger] alertas[i]).tipo == tipo ==> alertas[i].cantidad == cantidad
    &&& (cantidad > 0 <==> exists|i: int| 0 <= i < alertas.len() && (#[trigger] alertas[i]).tipo == tipo)
    &&& forall|i: int, j: int| 0 <= i < j < alertas.len() && (#[trigger] alertas[i]).tipo == tipo ==> (#[trigger] alertas[j]).tipo != tipo
}

/// The alerts that count something carry their counts: overdue invoices, paused projects and
/// pending settlements are each shown once, with the number they report, exactly when there are
/// any.
#[verifier::spinoff_prover]
#[verifier::rlimit(50)]
pub proof fn cada_alerta_lleva_su_cantidad(c: Conteos, actual: ResumenRango, anterior: Option<ResumenRango>, caida_pct: int)
    ensures
        cuenta_lo_que_avisa(alertas_de(c, actual, anterior, caida_pct), TipoAlerta::FacturasVencidas, c.facturas_vencidas),
        cuenta_lo_que_avisa(alertas_de(c, actual, anterior, caida_pct), TipoAlerta::ProyectosPausados, c.proyectos_pausados),
        cuenta_lo_que_avisa(alertas_de(c, actual, anterior, caida_pct), TipoAlerta::LiquidacionesPendientes, c.liquidaciones_pendientes),
        forall|i: int| 0 <= i < alertas_de(c, actual, anterior, caida_pct).len() && (#[trigger] alertas_de(c, actual, anterior, caida_pct)[i]).tipo
            == TipoAlerta::BalanceNegativo ==> alertas_de(c, actual, anterior, caida_pct)[i].monto == Some(actual.balance) && actual.balance@ < 0,
        actual.balance@ < 0 ==> exists|i: int| 0 <= i < alertas_de(c, actual, anterior, caida_pct).len() && (#[trigger] alertas_de(c, actual, anterior, caida_pct)[i]).tipo
            == TipoAlerta::BalanceNegativo,
{
    let a1 = if c.facturas_vencidas > 0 {
        seq![alerta(TipoAlerta::FacturasVencidas, "Dashboard.Alerta.FacturasVencidas"@, c.facturas_vencidas, None, SeveridadAlerta::Warning, "/facturas?estado=vencida"@)]
    } else {
        seq![]
    };
    let a2 = if actual.balance@ < 0 {
        seq![alerta(TipoAlerta::BalanceNegativo, "Dashboard.Alerta.BalanceNegativo"@, 0, Some(actual.balance), SeveridadAlerta::Error, "/movimientos"@)]
    } else {
        seq![]
    };
    let a3 = if c.proyectos_pausados > 0 {
        seq![alerta(TipoAlerta::ProyectosPausados, "Dashboard.Alerta.ProyectosPausados"@, c.proyectos_pausados, None, SeveridadAlerta::Info, "/proyectos?estado=pausada"@)]
    } else {
        seq![]
    };
    let a4 = if c.liquidaciones_pendientes > 0 {
        seq![alerta(TipoAlerta::LiquidacionesPendientes, "Dashboard.Alerta.LiquidacionesPendientes"@, c.liquidaciones_pendientes, None, SeveridadAlerta::Warning, "/liquidaciones"@)]
    } else {
        seq![]
    };
    let a5 = if cae_ingreso(actual, anterior, caida_pct) {
        seq![alerta(TipoAlerta::CaidaIngresos, "Dashboard.Alerta.CaidaIngresos"@, 0, None, SeveridadAlerta::Warning, "/movimientos"@)]
    } else {
        seq![]
    };
    let s = alertas_de(c, actual, anterior, caida_pct);
    assert(s == a1 + a2 + a3 + a4 + a5);
    let n1 = a1.len() as int;
    let n2 = n1 + a2.len();
    let n3 = n2 + a3.len();
    let n4 = n3 + a4.len();
    assert(s.len() == n4 + a5.len());
    assert forall|i: int| 0 <= i < s.len() implies
        (i < n1 ==> s[i] == a1[i]) && (n1 <= i < n2 ==> s[i] == a2[i - n1]) && (n2 <= i < n3 ==> s[i] == a3[i - n2])
        && (n3 <= i < n4 ==> s[i] == a4[i - n3]) && (n4 <= i ==> s[i] == a5[i - n4]) by {
        assert((a1 + a2 + a3 + a4 + a5)[i] == s[i]);
        if i < n4 {
            assert((a1 + a2 + a3 + a4)[i] == s[i]);
            if i < n3 {
                assert((a1 + a2 + a3)[i] == s[i]);
                if i < n2 {
                    assert((a1 + a2)[i] == s[i]);
                }
            }
        }
    }
    if c.facturas_vencidas > 0 {
        assert(s[0].tipo == TipoAlerta::FacturasVencidas);
    }
    if c.proyectos_pausados > 0 {
        assert(s[n2].tipo == TipoAlerta::ProyectosPausados);
    }
    if actual.balance@ < 0 {
        assert(s[n1].tipo == TipoAlerta::BalanceNegativo);
    }
    if c.liquidaciones_pendientes > 0 {
        assert(s[n3].tipo == TipoAlerta::LiquidacionesPendientes);
    }
}

fn nueva_alerta(tipo: TipoAlerta, clave: &str, cantidad: u64, monto: Option<Money>, severidad: SeveridadAlerta, destino: &str) -> (a: Alerta)
    ensures
        a@ == alerta(tipo, clave@, cantidad, monto, severidad, destino@),
{
    Alerta { tipo, clave: copia(clave), cantidad, monto, severidad, destino: copia(destino) }
}

/// Appends an alert when the condition holds.
fn agregar_si(v: &mut Vec<Alerta>, cond: bool, a: Alerta)
    ensures
        alertas_v(final(v)@) == alertas_v(old(v)@) + (if cond { seq![a@] } else { seq![] }),
{
    let ghost antes = v@;
    if cond {
        v.push(a);
        assert(alertas_v(v@) =~= alertas_v(antes) + seq![a@]);
    } else {
        assert(alertas_v(v@) =~= alertas_v(antes) + Seq::<AlertaV>::empty());
    }
}

/// The alerts of the dashboard.
pub fn construir_alertas(c: Conteos, actual: ResumenRango, anterior: Option<ResumenRango>, caida_pct: Decimal4) -> (r: Vec<Alerta>)
    ensures
        alertas_v(r@) == alertas_de(c, actual, anterior, caida_pct@),
        cuenta_lo_que_avisa(alertas_v(r@), TipoAlerta::FacturasVencidas, c.facturas_vencidas),
        cuenta_lo_que_avisa(alertas_v(r@), TipoAlerta::ProyectosPausados, c.proyectos_pausados),
        cuenta_lo_que_avisa(alertas_v(r@), TipoAlerta::LiquidacionesPendientes, c.liquidaciones_pendientes),
{
    proof {
        cada_alerta_lleva_su_cantidad(c, actual, anterior, caida_pct@);
    }
    let mut v: Vec<Alerta> = Vec::new();
    assert(alertas_v(v@) =~= Seq::<AlertaV>::empty());
    agregar_si(
        &mut v,
        c.facturas_vencidas > 0,
        nueva_alerta(TipoAlerta::FacturasVencidas, "Dashboard.Alerta.FacturasVencidas", c.facturas_vencidas, None, SeveridadAlerta::Warning, "/facturas?estado=vencida"),
    );
    agregar_si(
        &mut v,
        actual.balance.is_negative(),
        nueva_alerta(TipoAlerta::BalanceNegativo, "Dashboard.Alerta.BalanceNegativo", 0, Some(actual.balance), SeveridadAlerta::Error, "/movimientos"),
    );
    agregar_si(
        &mut v,
        c.proyectos_pausados > 0,
        nueva_alerta(TipoAlerta::ProyectosPausados, "Dashboard.Alerta.ProyectosPausados", c.proyectos_pausados, None, SeveridadAlerta::Info, "/proyectos?estado=pausada"),
    );
    agregar_si(
        &mut v,
        c.liquidaciones_pendientes > 0,
        nueva_alerta(
            TipoAlerta::LiquidacionesPendientes,
            "Dashboard.Alerta.LiquidacionesPendientes",
            c.liquidaciones_pendientes,
            None,
            SeveridadAlerta::Warning,
            "/liquidaciones",
        ),
    );
    let cae = match anterior {
        None => false,
        Some(a) => match variacion(a.total_ingresos, actual.total_ingresos) {
            Some(x) => {
                let p: i128 = caida_pct.raw as i128;
                let limite: i128 = if p < 0 {
                    p
                } else {
                    -p
                };
                (x.raw as i128) < limite
            },
            None => false,
        },
    };
    agregar_si(
        &mut v,
        cae,
        nueva_alerta(TipoAlerta::CaidaIngresos, "Dashboard.Alerta.CaidaIngresos", 0, None, SeveridadAlerta::Warning, "/movimientos"),
    );
    v
}

/// The comparison against the previous window: its income and expenses (zero without one) and
/// the changes, which only exist when there is a previous window.
#[derive(Debug, Clone, Copy, PartialEq, Eq, Structural)]
pub struct Comparacion {
    pub anterior_ingresos: Money,
    pub anterior_gastos: Money,
    pub variacion_ingresos: Option<Decimal4>,
    pub variacion_gastos: Option<Decimal4>,
    pub variacion_balance: Option<Decimal4>,
}

pub open spec fn variacion_opt(anterior: int, actual: int) -> Option<Decimal4> {
    match variacion_de(anterior, actual) {
        Some(v) => Some(Decimal4 { raw: v as i64 }),
        None => None,
    }
}

pub fn comparar(actual: ResumenRango, anterior: Option<ResumenRango>) -> (r: Comparacion)
    ensures
        match anterior {
            None => r == Comparacion {
                anterior_ingresos: Money { raw: 0 },
                anterior_gastos: Money { raw: 0 },
                variacion_ingresos: None,
                variacion_gastos: None,
                variacion_balance: None,
            },
            Some(a) => r == Comparacion {
                anterior_ingresos: a.total_ingresos,
                anterior_gastos: a.total_gastos,
                variacion_ingresos: variacion_opt(a.total_ingresos@, actual.total_ingresos@),
                variacion_gastos: variacion_opt(a.total_gastos@, actual.total_gastos@),
                variacion_balance: variacion_opt(a.balance@, actual.balance@),
            },
        },
{
    match anterior {
        None => Comparacion {
            anterior_ingresos: Money { raw: 0 },
            anterior_gastos: Money { raw: 0 },
            variacion_ingresos: None,
            variacion_gastos: None,
            variacion_balance: None,
        },
        Some(a) => Comparacion {
            anterior_ingresos: a.total_ingresos,
            anterior_gastos: a.total_gastos,
            variacion_ingresos: variacion(a.total_ingresos, actual.total_ingresos),
            variacion_gastos: variacion(a.total_gastos, actual.total_gastos),
            variacion_balance: variacion(a.balance, actual.balance),
        },
    }
}

/// Without a base, a change is absent unless nothing changed; never infinite.
pub proof fn la_variacion_sin_base_es_ausente(actual: int)
    ensures
        variacion_de(0, actual) == (if actual == 0 { Some(0int) } else { None::<int> }),
{
}

} // verus!

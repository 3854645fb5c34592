use certaro::dashboard::{
    calcular_ventanas, cantidad_listado, comparar, estado_base, construir_alertas, margen, umbral_vencimiento, variacion, Conteos, DashboardService,
    PeriodoDashboard, ResumenRango, TipoAlerta, COMIENZO_DE_LOS_TIEMPOS,
};
use certaro::dinero::{Decimal4, Money};
use chrono::Datelike;

/// The day number of a civil date, counted as the library counts it.
fn fecha(y: i32, m: u32, d: u32) -> Option<i32> {
    chrono::NaiveDate::from_ymd_opt(y, m, d).map(|f| f.num_days_from_ce())
}
use chrono::TimeZone;

/// A UTC instant in nanoseconds since the epoch.
fn instante(y: i32, m: u32, d: u32, h: u32, mi: u32, s: u32) -> Option<i64> {
    chrono::Utc.with_ymd_and_hms(y, m, d, h, mi, s).single().and_then(|t| t.timestamp_nanos_opt())
}


fn momento(y: i32, m: u32, d: u32) -> i64 {
    instante(y, m, d, 12, 0, 0).unwrap()
}

fn anterior_mismo_largo() {
    let ahora = momento(2026, 8, 29);
    let v = DashboardService::ventanas(PeriodoDashboard::Mensual, ahora);
    let ant = v.anterior.unwrap();
    assert_eq!(v.hasta, ahora);
    assert_eq!(v.desde, momento(2026, 7, 29));
    assert_eq!(ant.hasta, v.desde);
    assert_eq!(ant.hasta - ant.desde, v.hasta - v.desde);
    assert_eq!(ant.desde, momento(2026, 6, 28));
}

fn anual() {
    let ahora = momento(2026, 8, 29);
    let v = DashboardService::ventanas(PeriodoDashboard::Anual, ahora);
    assert_eq!(v.desde, momento(2025, 8, 29));
    let ant = v.anterior.unwrap();
    assert_eq!(ant.hasta, v.desde);
    assert_eq!(ant.hasta - ant.desde, v.hasta - v.desde);
}

fn total() {
    let v = DashboardService::ventanas(PeriodoDashboard::Total, momento(2026, 8, 29));
    assert!(v.anterior.is_none());
    assert_eq!(chrono::DateTime::from_timestamp_nanos(v.desde).year(), COMIENZO_DE_LOS_TIEMPOS);
}

fn sin_base() {
    let cero = Money::zero();
    let algo = Money::from_raw(10_000_000);
    assert_eq!(variacion(cero, cero), Some(Decimal4::zero()));
    assert_eq!(variacion(cero, algo), None);
}

fn un_decimal() {
    let anterior = Money::from_raw(3_000_000);
    let actual = Money::from_raw(4_000_000);
    assert_eq!(variacion(anterior, actual), Some(Decimal4::from_raw(333_000)));
}

fn margen_cero() {
    let gastos = Money::from_raw(5_000_000);
    assert_eq!(margen(Money::zero(), gastos.neg()).unwrap(), Decimal4::zero());
}

fn margen_dos_decimales() {
    let ingresos = Money::from_raw(30_000_000);
    let rentabilidad = Money::from_raw(10_000_000);
    assert_eq!(margen(ingresos, rentabilidad).unwrap(), Decimal4::from_raw(333_300));
}

fn umbral() {
    let hoy = fecha(2026, 8, 29).unwrap();
    assert_eq!(umbral_vencimiento(hoy, 30), fecha(2026, 7, 30).unwrap());
    assert_eq!(umbral_vencimiento(hoy, 0), hoy);
}

#[test]
fn dashboard_el_periodo_anterior_es_una_ventana_del_mismo_largo() {
    anterior_mismo_largo();
}

#[test]
fn dashboard_el_periodo_anual_retrocede_doce_meses() {
    anual();
}

#[test]
fn dashboard_el_periodo_total_no_tiene_comparacion() {
    total();
}

#[test]
fn dashboard_la_variacion_sin_base_es_ausente_y_no_infinito() {
    sin_base();
}

#[test]
fn dashboard_la_variacion_se_redondea_a_un_decimal() {
    un_decimal();
}

#[test]
fn dashboard_el_margen_con_ingresos_en_cero_es_cero() {
    margen_cero();
}

#[test]
fn dashboard_el_margen_se_redondea_a_dos_decimales() {
    margen_dos_decimales();
}

#[test]
fn dashboard_el_umbral_de_vencimiento_usa_los_dias_configurados() {
    umbral();
}

#[test]
fn mod_el_periodo_anterior_es_una_ventana_del_mismo_largo() {
    anterior_mismo_largo();
}

#[test]
fn mod_el_periodo_anual_retrocede_doce_meses() {
    anual();
}

#[test]
fn mod_el_periodo_total_no_tiene_comparacion() {
    total();
}

#[test]
fn mod_la_variacion_sin_base_es_ausente_y_no_infinito() {
    sin_base();
}

#[test]
fn mod_la_variacion_se_redondea_a_un_decimal() {
    un_decimal();
}

#[test]
fn mod_el_margen_con_ingresos_en_cero_es_cero() {
    margen_cero();
}

#[test]
fn mod_el_margen_se_redondea_a_dos_decimales() {
    margen_dos_decimales();
}

#[test]
fn mod_el_umbral_de_vencimiento_usa_los_dias_configurados() {
    umbral();
}

#[test]
fn una_caida_negativa_se_redondea_lejos_del_cero() {
    // 400 -> 300 is -25 %; 300 -> 200 is -33.33… %, written -33.3.
    assert_eq!(variacion(Money::from_raw(4_000_000), Money::from_raw(3_000_000)), Some(Decimal4::from_raw(-250_000)));
    assert_eq!(variacion(Money::from_raw(3_000_000), Money::from_raw(2_000_000)), Some(Decimal4::from_raw(-333_000)));
    // Against a negative base the change is measured on its size.
    assert_eq!(variacion(Money::from_raw(-1_000_000), Money::from_raw(1_000_000)), Some(Decimal4::from_raw(2_000_000)));
}

#[test]
fn las_alertas_salen_en_orden_y_solo_cuando_corresponde() {
    let actual = ResumenRango {
        total_ingresos: Money::from_raw(1_000_000),
        total_gastos: Money::from_raw(3_000_000),
        balance: Money::from_raw(-2_000_000),
        cantidad: 4,
    };
    let anterior = ResumenRango { total_ingresos: Money::from_raw(2_000_000), ..actual };
    let conteos = Conteos { facturas_vencidas: 2, proyectos_pausados: 0, liquidaciones_pendientes: 1 };
    let alertas = construir_alertas(conteos, actual, Some(anterior), Decimal4::from_raw(200_000));
    let tipos: Vec<TipoAlerta> = alertas.iter().map(|a| a.tipo).collect();
    assert_eq!(
        tipos,
        [
            TipoAlerta::FacturasVencidas,
            TipoAlerta::BalanceNegativo,
            TipoAlerta::LiquidacionesPendientes,
            TipoAlerta::CaidaIngresos
        ]
    );
    assert_eq!(alertas[0].cantidad, 2);
    assert_eq!(alertas[0].destino, "/facturas?estado=vencida");
    assert_eq!(alertas[1].monto, Some(Money::from_raw(-2_000_000)));

    // A fall of exactly the threshold does not alert, and without a previous window nothing can
    // have fallen.
    let igual = construir_alertas(
        Conteos { facturas_vencidas: 0, proyectos_pausados: 0, liquidaciones_pendientes: 0 },
        ResumenRango { balance: Money::zero(), ..actual },
        Some(anterior),
        Decimal4::from_raw(500_000),
    );
    assert!(igual.is_empty());
    let sin_anterior = construir_alertas(
        Conteos { facturas_vencidas: 0, proyectos_pausados: 0, liquidaciones_pendientes: 0 },
        ResumenRango { balance: Money::zero(), ..actual },
        None,
        Decimal4::zero(),
    );
    assert!(sin_anterior.is_empty());
}

#[test]
fn sin_ventana_anterior_no_hay_comparacion() {
    let actual = ResumenRango {
        total_ingresos: Money::from_raw(1_000_000),
        total_gastos: Money::zero(),
        balance: Money::from_raw(1_000_000),
        cantidad: 1,
    };
    let c = comparar(actual, None);
    assert_eq!(c.anterior_ingresos, Money::zero());
    assert_eq!(c.variacion_ingresos, None);
    let v = calcular_ventanas(PeriodoDashboard::Total, momento(2026, 1, 1));
    assert!(v.anterior.is_none());
}

#[test]
fn las_listas_del_tablero_muestran_al_menos_una_fila() {
    assert_eq!(cantidad_listado(0), 1);
    assert_eq!(cantidad_listado(7), 7);
    assert_eq!(estado_base(true), "Dashboard.Estado.Saludable");
    assert_eq!(estado_base(false), "Dashboard.Estado.Error");
}

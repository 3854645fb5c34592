use certaro::dinero::{Decimal4, Money};
use certaro::liquidaciones::{
    construir_sugerencia, AdelantoCandidato, Empleado, EntradaSugerencia, LiquidacionSugerencia, LiquidacionesService,
    OrigenLiquidacion, TipoJornada,
};

use chrono::Datelike;

/// The day number of a civil date, counted as the library counts it.
fn fecha(y: i32, m: u32, d: u32) -> Option<i32> {
    chrono::NaiveDate::from_ymd_opt(y, m, d).map(|f| f.num_days_from_ce())
}


fn dia(y: i32, m: u32, d: u32) -> i32 {
    fecha(y, m, d).unwrap()
}

fn mult(raw: i64) -> Decimal4 {
    Decimal4::from_raw(raw)
}

fn empleado(sabado: i64, domingo: i64, feriado: i64) -> Empleado {
    Empleado {
        id: 1,
        nombre: "Juan".to_owned(),
        tarifa_diaria: Money::from_units(40_000).unwrap(),
        multiplicador_sabado: mult(sabado),
        multiplicador_domingo: mult(domingo),
        multiplicador_feriado: mult(feriado),
        activo: true,
    }
}

fn sugerir(
    empleado: &Empleado,
    desde: i32,
    hasta: i32,
    manuales: Option<Decimal4>,
    jornadas: &[(i32, TipoJornada)],
    feriados: &[i32],
    candidatos: Vec<AdelantoCandidato>,
) -> LiquidacionSugerencia {
    construir_sugerencia(empleado, desde, hasta, manuales, &jornadas.to_vec(), &feriados.to_vec(), &candidatos).unwrap()
}

fn adelanto(monto: i64, liquidacion: Option<u128>) -> AdelantoCandidato {
    AdelantoCandidato {
        movimiento_id: u128::try_from(monto).unwrap_or(1),
        fecha: dia(2026, 8, 5),
        concepto: "Adelanto".to_owned(),
        monto: Money::from_units(monto).unwrap(),
        liquidacion_id: liquidacion,
    }
}

#[test]
fn sugerencia_liquidacion_manual() {
    let e = empleado(10_000, 10_000, 10_000);
    let s = sugerir(
        &e,
        dia(2026, 8, 1),
        dia(2026, 8, 15),
        Some(Decimal4::from_units(10).unwrap()),
        &[],
        &[],
        vec![adelanto(30_000, None), adelanto(40_000, None), adelanto(50_000, None), adelanto(140_000, None)],
    );
    assert_eq!(s.origen, OrigenLiquidacion::Manual);
    assert_eq!(s.total_bruto, Money::from_units(400_000).unwrap());
    assert_eq!(s.total_adelantos, Money::from_units(260_000).unwrap());
    assert_eq!(s.total_neto, Money::from_units(140_000).unwrap());
}

#[test]
fn sugerencia_liquidacion_desde_asistencia() {
    let e = empleado(0, 0, 20_000);
    let s = sugerir(
        &e,
        dia(2026, 8, 24),
        dia(2026, 8, 29),
        None,
        &[
            (dia(2026, 8, 24), TipoJornada::Completa),
            (dia(2026, 8, 25), TipoJornada::Media),
            (dia(2026, 8, 26), TipoJornada::Falta),
            (dia(2026, 8, 27), TipoJornada::FaltaJustificada),
            (dia(2026, 8, 28), TipoJornada::Feriado),
            (dia(2026, 8, 29), TipoJornada::Completa),
        ],
        &[],
        vec![],
    );
    assert_eq!(s.origen, OrigenLiquidacion::Asistencia);
    assert_eq!(s.dias_trabajados, mult(25_000));
    assert_eq!(s.total_bruto, Money::from_units(140_000).unwrap());
    assert_eq!(s.desglose.faltas, 1);
    assert_eq!(s.desglose.faltas_justificadas, 1);
}

#[test]
fn sugerencia_liquidacion_por_calendario() {
    let e = empleado(0, 0, 0);
    let s = sugerir(&e, dia(2026, 8, 24), dia(2026, 8, 28), None, &[], &[], vec![]);
    assert_eq!(s.origen, OrigenLiquidacion::Calendario);
    assert_eq!(s.dias_trabajados, Decimal4::from_units(5).unwrap());
    assert_eq!(s.total_bruto, Money::from_units(200_000).unwrap());
}

#[test]
fn la_asistencia_gana_sobre_el_calendario() {
    let e = empleado(0, 0, 0);
    let s = sugerir(
        &e,
        dia(2026, 8, 24),
        dia(2026, 8, 28),
        None,
        &[(dia(2026, 8, 24), TipoJornada::Completa)],
        &[],
        vec![],
    );
    assert_eq!(s.origen, OrigenLiquidacion::Asistencia);
    assert_eq!(s.dias_trabajados, Decimal4::one());
    assert_eq!(s.total_bruto, Money::from_units(40_000).unwrap());
}

#[test]
fn sugerencia_prioridad_feriado_sobre_domingo() {
    let e = empleado(15_000, 20_000, 30_000);
    let s = sugerir(&e, dia(2026, 8, 30), dia(2026, 8, 30), None, &[], &[dia(2026, 8, 30)], vec![]);
    assert_eq!(s.total_bruto, Money::from_units(120_000).unwrap());
    assert_eq!(s.dias_trabajados, Decimal4::one());
}

#[test]
fn sugerencia_prioridad_domingo_sobre_sabado() {
    let e = empleado(15_000, 20_000, 30_000);
    let sabado = sugerir(&e, dia(2026, 8, 29), dia(2026, 8, 29), None, &[], &[], vec![]);
    let domingo = sugerir(&e, dia(2026, 8, 30), dia(2026, 8, 30), None, &[], &[], vec![]);
    assert_eq!(sabado.total_bruto, Money::from_units(60_000).unwrap());
    assert_eq!(domingo.total_bruto, Money::from_units(80_000).unwrap());
}

#[test]
fn sugerencia_ignora_dias_excluidos() {
    let e = empleado(0, 0, 0);
    let s = sugerir(&e, dia(2026, 8, 29), dia(2026, 8, 30), None, &[], &[], vec![]);
    assert_eq!(s.dias_trabajados, Decimal4::zero());
    assert_eq!(s.total_bruto, Money::zero());
}

#[test]
fn sugerencia_no_reusa_un_adelanto_ya_liquidado() {
    let e = empleado(10_000, 10_000, 10_000);
    let s = sugerir(
        &e,
        dia(2026, 8, 1),
        dia(2026, 8, 15),
        Some(Decimal4::from_units(10).unwrap()),
        &[],
        &[],
        vec![adelanto(50_000, None), adelanto(80_000, Some(9))],
    );
    assert_eq!(s.total_adelantos, Money::from_units(50_000).unwrap());
    assert!(s.adelantos[1].ya_descontado);
    assert!(!s.adelantos[1].incluir);
}

#[test]
fn sugerencia_media_jornada_cuenta_medio_dia() {
    let e = empleado(0, 0, 0);
    let s = sugerir(
        &e,
        dia(2026, 8, 24),
        dia(2026, 8, 24),
        None,
        &[(dia(2026, 8, 24), TipoJornada::Media)],
        &[],
        vec![],
    );
    assert_eq!(s.dias_trabajados, Decimal4::half());
    assert_eq!(s.total_bruto, Money::from_units(20_000).unwrap());
}

#[test]
fn la_rama_manual_no_aplica_multiplicadores() {
    let e = empleado(15_000, 20_000, 30_000);
    let s = sugerir(
        &e,
        dia(2026, 8, 1),
        dia(2026, 8, 15),
        Some(Decimal4::from_units(10).unwrap()),
        &[],
        &[dia(2026, 8, 3), dia(2026, 8, 4)],
        vec![],
    );
    assert_eq!(s.total_bruto, Money::from_units(400_000).unwrap());
    assert_eq!(s.desglose.recargos, Money::zero());
}

#[test]
fn el_test_de_referencia_da_el_valor_exacto() {
    let e = empleado(15_000, 0, 0);
    let mut jornadas: Vec<(i32, TipoJornada)> = [3, 4, 5, 6, 7, 10, 11, 12, 13, 14, 17, 18]
        .into_iter()
        .map(|d| (dia(2026, 8, d), TipoJornada::Completa))
        .collect();
    jornadas.push((dia(2026, 8, 19), TipoJornada::Media));
    jornadas.push((dia(2026, 8, 20), TipoJornada::Media));
    jornadas.push((dia(2026, 8, 22), TipoJornada::Completa));
    let s = sugerir(
        &e,
        dia(2026, 8, 3),
        dia(2026, 8, 22),
        None,
        &jornadas,
        &[],
        vec![adelanto(150_000, None), adelanto(80_000, None)],
    );
    assert_eq!(s.total_bruto, Money::from_units(580_000).unwrap());
    assert_eq!(s.total_adelantos, Money::from_units(230_000).unwrap());
    assert_eq!(s.total_neto, Money::from_units(350_000).unwrap());
    assert_eq!(s.desglose.recargos, Money::from_units(20_000).unwrap());
}

#[test]
fn un_periodo_sin_feriados_se_marca_para_advertir() {
    let e = empleado(0, 0, 20_000);
    let s = sugerir(&e, dia(2026, 8, 24), dia(2026, 8, 28), None, &[], &[], vec![]);
    assert!(s.feriados_no_disponibles);
}

#[test]
fn un_rango_invertido_no_se_sugiere() {
    let svc = LiquidacionesService::new();
    let e = svc.sugerir(dia(2026, 8, 10), dia(2026, 8, 1), &vec![], &vec![]).unwrap_err();
    assert_eq!(e.fields()[0].field, "hasta");
    assert_eq!(e.fields()[0].message_key, "Validation.Liquidacion.FechaInicioInvalid");
}

#[test]
fn el_lote_sugiere_a_cada_empleado_en_orden() {
    let svc = LiquidacionesService::new();
    let entradas = vec![
        EntradaSugerencia { empleado: empleado(0, 0, 0), dias_manuales: None, jornadas: vec![], candidatos: vec![] },
        EntradaSugerencia {
            empleado: Empleado { id: 2, ..empleado(0, 0, 0) },
            dias_manuales: Some(Decimal4::from_units(3).unwrap()),
            jornadas: vec![],
            candidatos: vec![],
        },
    ];
    let r = svc.sugerir(dia(2026, 8, 24), dia(2026, 8, 28), &entradas, &vec![]).unwrap();
    assert_eq!(r.len(), 2);
    assert_eq!(r[0].total_bruto, Money::from_units(200_000).unwrap());
    assert_eq!(r[1].empleado_id, 2);
    assert_eq!(r[1].total_bruto, Money::from_units(120_000).unwrap());
}

#[test]
fn los_adelantos_congelados_tienen_que_sumar_el_total() {
    let svc = LiquidacionesService::new();
    let montos = vec![Money::from_units(100).unwrap(), Money::from_units(50).unwrap()];
    assert!(svc.verificar_suma_adelantos(&montos, Money::from_units(150).unwrap()).is_ok());
    let e = svc.verificar_suma_adelantos(&montos, Money::from_units(151).unwrap()).unwrap_err();
    assert!(e.is_internal());
}

#[test]
fn un_periodo_solapado_nombra_al_empleado_y_al_otro_periodo() {
    let svc = LiquidacionesService::new();
    let e = svc.periodo_solapado("Juan", dia(2026, 8, 1), dia(2026, 8, 15));
    assert_eq!(e.code(), "CONFLICT");
    assert_eq!(e.param("empleado").unwrap(), "Juan");
    assert_eq!(e.param("desde").unwrap(), "2026-08-01");
    assert_eq!(e.param("hasta").unwrap(), "2026-08-15");
}

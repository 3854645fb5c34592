use certaro::certificados::{
    avances_pedidos, verificar_acumulados, Avance, CertificadoInput, CertificadoInputItem, CertificadosService,
    LineaEmitida, OrdenTrabajo, OrdenTrabajoItem,
};
use certaro::validacion::movimientos::ContextoFecha;
use certaro::dinero::{Decimal4, Money};

fn item(n: u128, orden: i32, actual_raw: i64) -> OrdenTrabajoItem {
    OrdenTrabajoItem {
        id: n,
        descripcion: format!("item {n}"),
        unidad: "u".to_owned(),
        cantidad: Decimal4::from_raw(100_000),
        precio_unitario: Money::from_raw(1_000_000),
        porcentaje_anterior: Decimal4::zero(),
        porcentaje_actual: Decimal4::from_raw(actual_raw),
        ejecutado: false,
        orden,
    }
}

fn orden(items: Vec<OrdenTrabajoItem>) -> OrdenTrabajo {
    OrdenTrabajo {
        id: 100,
        titulo: "Planilla".to_owned(),
        ajuste_uocra_porcentaje: Decimal4::zero(),
        otros_descuentos: Money::zero(),
        items,
    }
}

fn input(items: &[(u128, i64)]) -> CertificadoInput {
    CertificadoInput {
        orden_trabajo_id: 100,
        fecha: 739_000,
        observaciones: None,
        items: items
            .iter()
            .map(|(n, pct)| CertificadoInputItem {
                orden_trabajo_item_id: *n,
                porcentaje_actual: Decimal4::from_raw(*pct),
            })
            .collect(),
    }
}

fn un_avance_en_cero() {
    let o = orden(vec![item(1, 0, 0), item(2, 1, 500_000)]);
    let avances = avances_pedidos(&input(&[(1, 0), (2, 500_000)]), &o).unwrap();
    assert_eq!(avances.len(), 1);
    assert_eq!(avances[0].item_id, 2);
}

fn orden_de_la_planilla() {
    let o = orden(vec![item(1, 5, 100_000), item(2, 1, 200_000)]);
    let avances = avances_pedidos(&input(&[(1, 100_000), (2, 200_000)]), &o).unwrap();
    assert_eq!(avances.iter().map(|a| a.orden).collect::<Vec<_>>(), [1, 5]);
}

fn item_ajeno() {
    let o = orden(vec![item(1, 0, 100_000)]);
    let error = avances_pedidos(&input(&[(9, 100_000)]), &o).unwrap_err();
    assert_eq!(error.fields()[0].field, "items[0].ordenTrabajoItemId");
}

fn acumulado_acota() {
    let o = orden(vec![item(1, 0, 450_000)]);
    let avances = vec![Avance { indice: 0, item_id: 1, orden: 0, porcentaje: Decimal4::from_raw(450_000) }];
    let acumulados = vec![(1u128, Decimal4::from_raw(600_000))];
    let error = verificar_acumulados(&avances, &o, &acumulados).unwrap_err();
    assert_eq!(error.fields()[0].message_key, "Validation.Certificado.AcumuladoExcedido");
    assert_eq!(error.fields()[0].param("acumulado").unwrap(), "60.0000");
}

fn cerrar_en_cien() {
    let o = orden(vec![item(1, 0, 400_000)]);
    let avances = vec![Avance { indice: 0, item_id: 1, orden: 0, porcentaje: Decimal4::from_raw(400_000) }];
    let acumulados = vec![(1u128, Decimal4::from_raw(600_000))];
    assert!(verificar_acumulados(&avances, &o, &acumulados).is_ok());
}

fn sin_historia() {
    let o = orden(vec![item(1, 0, 1_000_000)]);
    let avances = vec![Avance { indice: 0, item_id: 1, orden: 0, porcentaje: Decimal4::hundred() }];
    assert!(verificar_acumulados(&avances, &o, &Vec::new()).is_ok());
}

#[test]
fn certificados_un_avance_en_cero_no_se_certifica() {
    un_avance_en_cero();
}

#[test]
fn certificados_los_avances_salen_en_el_orden_de_la_planilla() {
    orden_de_la_planilla();
}

#[test]
fn certificados_un_item_ajeno_a_la_orden_es_un_formulario_viejo() {
    item_ajeno();
}

#[test]
fn certificados_el_acumulado_historico_acota_el_avance() {
    acumulado_acota();
}

#[test]
fn certificados_cerrar_en_cien_exacto_se_permite() {
    cerrar_en_cien();
}

#[test]
fn certificados_sin_historia_el_avance_llega_hasta_cien() {
    sin_historia();
}

#[test]
fn calculation_un_avance_en_cero_no_se_certifica() {
    un_avance_en_cero();
}

#[test]
fn calculation_los_avances_salen_en_el_orden_de_la_planilla() {
    orden_de_la_planilla();
}

#[test]
fn calculation_un_item_ajeno_a_la_orden_es_un_formulario_viejo() {
    item_ajeno();
}

#[test]
fn calculation_el_acumulado_historico_acota_el_avance() {
    acumulado_acota();
}

#[test]
fn calculation_cerrar_en_cien_exacto_se_permite() {
    cerrar_en_cien();
}

#[test]
fn calculation_sin_historia_el_avance_llega_hasta_cien() {
    sin_historia();
}

#[test]
fn emitir_y_anular_el_ultimo_certificado() {
    let svc = CertificadosService::new();
    let fechas = ContextoFecha::from_config("2000-01-01", 365, 739_100);
    let o = orden(vec![item(1, 0, 0), item(2, 1, 0)]);
    let em = svc
        .emitir(&input(&[(2, 500_000)]), &fechas, &o, &vec![], 6, &vec![])
        .unwrap();
    assert_eq!(em.numero, 7);
    assert_eq!(em.calculo.lineas.len(), 1);
    assert_eq!(em.calculo.total_certificado, Money::from_raw(5_000_000));
    assert_eq!(em.actualizaciones[0].item_id, 2);
    assert_eq!(em.actualizaciones[0].porcentaje_anterior, Decimal4::from_raw(500_000));
    assert_eq!(em.actualizaciones[0].porcentaje_actual, Decimal4::zero());
    assert!(!em.actualizaciones[0].ejecutado);
    let vacio = svc.emitir(&input(&[(2, 0)]), &fechas, &o, &vec![], 6, &vec![]).unwrap_err();
    assert_eq!(vacio.code(), "CONFLICT");
    let excedido = svc
        .emitir(&input(&[(2, 600_000)]), &fechas, &o, &vec![(2, Decimal4::from_raw(500_000))], 6, &vec![])
        .unwrap_err();
    assert_eq!(excedido.fields()[0].message_key, "Validation.Certificado.AcumuladoExcedido");

    let mut tras = item(2, 1, 0);
    tras.porcentaje_anterior = Decimal4::from_raw(500_000);
    let items = vec![item(1, 0, 0), tras];
    let lineas = vec![LineaEmitida { orden_trabajo_item_id: 2, porcentaje_actual: Decimal4::from_raw(500_000) }];
    let plan = svc.anular(7, 7, &lineas, &items).unwrap();
    assert_eq!(plan[0].porcentaje_anterior, Decimal4::zero());
    assert_eq!(plan[0].porcentaje_actual, Decimal4::from_raw(500_000));
    assert_eq!(svc.anular(6, 7, &lineas, &items).unwrap_err().param("ultimo").unwrap(), "7");
}

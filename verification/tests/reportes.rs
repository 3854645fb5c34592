use certaro::dinero::{Decimal4, Money};
use certaro::reportes::{describir, MovimientoFiltroDto, MovimientoListItem};
use certaro::validacion::movimientos::Moneda;

use chrono::Datelike;

/// The day number of a civil date, counted as the library counts it.
fn fecha(y: i32, m: u32, d: u32) -> Option<i32> {
    chrono::NaiveDate::from_ymd_opt(y, m, d).map(|f| f.num_days_from_ce())
}


fn item() -> MovimientoListItem {
    MovimientoListItem {
        id: 1,
        fecha: 0,
        concepto: "Cable".to_owned(),
        monto: Money::zero(),
        cantidad: Decimal4::one(),
        total: Money::zero(),
        moneda: Moneda::Ars,
        tipo_movimiento_nombre: "Gasto".to_owned(),
        categoria_nombre: Some("Materiales".to_owned()),
        cliente_nombre: Some("Acme".to_owned()),
        trabajo_descripcion: Some("Tablero".to_owned()),
    }
}

fn sin_filtro() -> MovimientoFiltroDto {
    MovimientoFiltroDto {
        concepto: None,
        fecha_desde: None,
        fecha_hasta: None,
        tipo_movimiento_id: None,
        categoria_id: None,
        cliente_id: None,
        trabajo_id: None,
        moneda: None,
    }
}

#[test]
fn sin_filtros_no_hay_nada_que_describir() {
    assert!(describir(&sin_filtro(), &vec![item()]).is_empty());
}

#[test]
fn cada_filtro_aporta_su_linea_con_el_nombre_de_la_fila() {
    let filtro = MovimientoFiltroDto {
        concepto: Some("  cable ".to_owned()),
        cliente_id: Some(4),
        categoria_id: Some(3),
        fecha_desde: fecha(2026, 8, 1),
        moneda: Some(Moneda::Ars),
        ..sin_filtro()
    };
    let descripcion = describir(&filtro, &vec![item()]);
    let claves: Vec<&str> = descripcion.iter().map(|d| d.clave.as_str()).collect();
    assert_eq!(
        claves,
        vec![
            "Report.Filtro.Texto",
            "Report.Filtro.Desde",
            "Report.Filtro.Categoria",
            "Report.Filtro.Cliente",
            "Report.Filtro.Moneda"
        ]
    );
    assert_eq!(descripcion[0].valor, "cable");
    assert_eq!(descripcion[3].valor, "Acme");
    assert_eq!(descripcion[1].valor, "2026-08-01");
    assert_eq!(descripcion[4].valor, "ARS");
}

#[test]
fn un_filtro_que_no_devolvio_filas_no_inventa_un_nombre() {
    let filtro = MovimientoFiltroDto { cliente_id: Some(4), ..sin_filtro() };
    assert!(describir(&filtro, &vec![]).is_empty());
}

#[test]
fn un_concepto_en_blanco_no_cuenta_como_filtro() {
    let filtro = MovimientoFiltroDto { concepto: Some("   ".to_owned()), ..sin_filtro() };
    assert!(describir(&filtro, &vec![item()]).is_empty());
}

#[test]
fn el_tipo_y_el_trabajo_toman_el_nombre_de_la_primera_fila() {
    let filtro = MovimientoFiltroDto { tipo_movimiento_id: Some(2), trabajo_id: Some(5), ..sin_filtro() };
    let d = describir(&filtro, &vec![item()]);
    assert_eq!(d.len(), 2);
    assert_eq!(d[0].clave, "Report.Filtro.Tipo");
    assert_eq!(d[0].valor, "Gasto");
    assert_eq!(d[1].valor, "Tablero");
}

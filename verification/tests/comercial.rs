use certaro::comercial::{dias_mora, BucketsDeuda, ComercialService, FacturaPendiente};
use certaro::dinero::Money;
use certaro::facturas::EstadoFactura;

use chrono::Datelike;

/// The day number of a civil date, counted as the library counts it.
fn fecha(y: i32, m: u32, d: u32) -> Option<i32> {
    chrono::NaiveDate::from_ymd_opt(y, m, d).map(|f| f.num_days_from_ce())
}


fn money(raw: i64) -> Money {
    Money::from_raw(raw)
}

fn limites() -> Vec<u32> {
    vec![30, 60, 90]
}

fn dia(y: i32, m: u32, d: u32) -> i32 {
    fecha(y, m, d).unwrap()
}

#[test]
fn los_bordes_de_los_buckets_son_inclusivos_por_arriba() {
    let saldo = money(1_000_000);
    let casos = [
        (0_i64, "b0a30"),
        (30, "b0a30"),
        (31, "b31a60"),
        (60, "b31a60"),
        (61, "b61a90"),
        (90, "b61a90"),
        (91, "mas90"),
    ];
    for (dias, esperado) in casos {
        let mut b = BucketsDeuda::default();
        b.add(dias, saldo, &limites()).unwrap();
        let obtenido = if b.b0a30 == saldo {
            "b0a30"
        } else if b.b31a60 == saldo {
            "b31a60"
        } else if b.b61a90 == saldo {
            "b61a90"
        } else {
            "mas90"
        };
        assert_eq!(obtenido, esperado, "con {dias} días");
    }
}

#[test]
fn los_buckets_suman_el_total() {
    let mut b = BucketsDeuda::default();
    for (dias, monto) in [(10, 1_000_000), (45, 2_000_000), (80, 3_000_000), (400, 500_000)] {
        b.add(dias, money(monto), &limites()).unwrap();
    }
    let suma = Money::try_sum(&vec![b.b0a30, b.b31a60, b.b61a90, b.mas90]).unwrap();
    assert_eq!(suma, b.total);
    assert_eq!(b.total, money(6_500_000));
}

#[test]
fn una_configuracion_de_buckets_invalida_no_pierde_plata() {
    let mut b = BucketsDeuda::default();
    b.add(5, money(1_000_000), &[]).unwrap();
    assert_eq!(b.total, money(1_000_000));
    assert_eq!(b.mas90, money(1_000_000));
}

fn factura(numero: &str, fecha: i32, vencimiento: Option<i32>, total: i64, pagado: i64) -> FacturaPendiente {
    FacturaPendiente {
        id: 0,
        cliente_id: 0,
        cliente_nombre: String::new(),
        numero: numero.to_owned(),
        fecha,
        fecha_vencimiento: vencimiento,
        estado: EstadoFactura::Emitida,
        total: money(total),
        pagado: money(pagado),
    }
}

#[test]
fn la_mora_se_cuenta_desde_el_vencimiento_cuando_existe() {
    let hoy = dia(2026, 8, 29);
    let f = factura("0001", dia(2026, 6, 1), Some(dia(2026, 8, 19)), 10_000_000, 0);
    assert_eq!(dias_mora(&f, money(10_000_000), hoy, 30), 10);
    assert_eq!(dias_mora(&f, Money::zero(), hoy, 30), 0);
    let sin_vencimiento = FacturaPendiente { fecha_vencimiento: None, ..f };
    assert_eq!(dias_mora(&sin_vencimiento, money(10_000_000), hoy, 30), 59);
}

#[test]
fn una_factura_todavia_no_vencida_no_tiene_mora() {
    let hoy = dia(2026, 8, 29);
    let f = factura("0002", hoy, Some(dia(2026, 9, 30)), 5_000_000, 0);
    assert_eq!(dias_mora(&f, money(5_000_000), hoy, 30), 0);
}

#[test]
fn un_sobrepago_no_genera_saldo_negativo() {
    let mut f = factura("0003", dia(2026, 1, 1), None, 1_000_000, 1_200_000);
    f.estado = EstadoFactura::Pagada;
    assert_eq!(f.saldo().unwrap(), Money::zero());
}

#[test]
fn la_cuenta_corriente_va_de_la_mas_nueva_a_la_mas_vieja_y_suma_lo_listado() {
    let svc = ComercialService::new(30, limites());
    let hoy = dia(2026, 8, 29);
    let facturas = vec![
        factura("0001", dia(2026, 6, 1), None, 1_000_000, 0),
        factura("0003", dia(2026, 7, 1), None, 2_000_000, 500_000),
        factura("0002", dia(2026, 7, 1), None, 3_000_000, 3_000_000),
        factura("0004", dia(2026, 5, 1), None, 4_000_000, 1_000_000),
    ];
    let c = svc.cuenta_corriente(7, Some("Acme".to_owned()), &facturas, false, hoy).unwrap();
    assert_eq!(c.cliente_nombre, "Acme");
    let numeros: Vec<&str> = c.facturas.iter().map(|f| f.numero.as_str()).collect();
    assert_eq!(numeros, ["0003", "0001", "0004"]);
    assert_eq!(c.total_facturado, money(7_000_000));
    assert_eq!(c.total_pagado, money(1_500_000));
    assert_eq!(c.saldo, money(5_500_000));

    let con_pagadas = svc.cuenta_corriente(7, None, &facturas, true, hoy).unwrap();
    let numeros: Vec<&str> = con_pagadas.facturas.iter().map(|f| f.numero.as_str()).collect();
    assert_eq!(numeros, ["0003", "0002", "0001", "0004"]);
    assert_eq!(con_pagadas.cliente_nombre, "");
}

#[test]
fn la_antiguedad_agrupa_por_cliente_y_ordena_por_deuda() {
    let svc = ComercialService::new(30, limites());
    let corte = dia(2026, 8, 31);
    let mut a = factura("A1", dia(2026, 8, 1), None, 1_000_000, 0);
    a.cliente_id = 2;
    a.cliente_nombre = "Beta".to_owned();
    let mut b = factura("B1", dia(2026, 1, 1), None, 3_000_000, 0);
    b.cliente_id = 1;
    b.cliente_nombre = "Alfa".to_owned();
    let mut c = factura("A2", dia(2026, 8, 1), Some(dia(2026, 6, 15)), 5_000_000, 1_000_000);
    c.cliente_id = 2;
    c.cliente_nombre = "Beta".to_owned();
    let mut d = factura("C1", dia(2026, 8, 1), None, 1_000_000, 1_000_000);
    d.cliente_id = 3;
    let r = svc.antiguedad_deuda(&vec![a, b, c, d], Some(corte), dia(2027, 1, 1)).unwrap();
    assert_eq!(r.fecha_corte, corte);
    assert_eq!(r.total, money(8_000_000));
    assert_eq!(r.bucket0a30, money(1_000_000));
    assert_eq!(r.bucket61a90, money(4_000_000));
    assert_eq!(r.bucket_mas90, money(3_000_000));
    assert_eq!(r.detalle.len(), 2);
    assert_eq!(r.detalle[0].cliente_nombre, "Beta");
    assert_eq!(r.detalle[0].total, money(5_000_000));
    assert_eq!(r.detalle[1].cliente_id, 1);
    assert_eq!(r.limites, limites());
    for g in &r.detalle {
        let suma = g.bucket0a30.raw() + g.bucket31a60.raw() + g.bucket61a90.raw() + g.bucket_mas90.raw();
        assert_eq!(suma, g.total.raw());
    }
}

#[test]
fn un_desborde_de_saldo_es_un_error_de_dominio() {
    let svc = ComercialService::new(30, limites());
    let f = factura("X", 0, None, i64::MAX, -1);
    assert!(svc.cuenta_corriente(1, None, &vec![f], false, 10).is_err());
}

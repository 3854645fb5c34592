use certaro::auth::{Acceso, AuthService, Cuenta, SegundoFactor};
use certaro::calendario::{
    construir_agenda, evento_feriado, evento_trabajo, ordenar_eventos, CalendarioService, EdicionEvento, EventoCalendario, TipoEvento,
};
use certaro::certificados::{
    calcular_certificado, plan_anulacion, plan_emision, Avance, LineaEmitida, OrdenTrabajo, OrdenTrabajoItem,
};
use certaro::cotizaciones::{Cotizacion, CotizacionesService};
use certaro::dinero::{Decimal4, Money};
use certaro::entidades::{
    ClientesService, EmpleadosService, EstadoObra, EstadoTrabajo, ObrasService, OrdenesTrabajoService,
    ProyectosService, TiposMovimientoService, TrabajoAbierto, TrabajosService,
};
use certaro::facturas::{
    con_total_recalculado, verificar_admite_pagos, verificar_borrado, verificar_transicion, EstadoFactura, FacturaInput,
    FacturasService, PagoRegistrado,
};
use certaro::kanban::{
    columna_para_estado, columnas_por_defecto, reordenar, resumen_checklist, siguiente_orden, ColumnaPreset,
    plan_sincronizacion, plan_sincronizacion_ordenes, AccionTarjeta, EdicionTarjeta, Tarjeta, KanbanService, Posicion,
};

use chrono::Datelike;

/// The day number of a civil date, counted as the library counts it.
fn fecha(y: i32, m: u32, d: u32) -> Option<i32> {
    chrono::NaiveDate::from_ymd_opt(y, m, d).map(|f| f.num_days_from_ce())
}


fn dia(y: i32, m: u32, d: u32) -> i32 {
    fecha(y, m, d).unwrap()
}

fn factura(subtotal: i64, iva: i64, total: i64) -> FacturaInput {
    FacturaInput {
        numero: "A-1".to_owned(),
        fecha: dia(2026, 8, 1),
        fecha_vencimiento: None,
        cliente_id: 1,
        subtotal: Money::from_raw(subtotal),
        iva: Money::from_raw(iva),
        total: Money::from_raw(total),
        observaciones: None,
    }
}

#[test]
fn el_total_de_una_factura_es_subtotal_mas_iva() {
    let f = con_total_recalculado(factura(1_000_000, 210_000, 5));
    assert_eq!(f.total, Money::from_raw(1_210_000));
    let f = con_total_recalculado(factura(i64::MAX, 1, 5));
    assert_eq!(f.total, Money::from_raw(5));
}

#[test]
fn el_vencimiento_por_defecto_suma_el_plazo() {
    let svc = FacturasService::new(30, Money::zero());
    assert_eq!(svc.dias_vencimiento(), 30);
    assert_eq!(svc.vencimiento_inicial(dia(2026, 8, 1), None), dia(2026, 8, 31));
    assert_eq!(svc.vencimiento_inicial(dia(2026, 8, 1), Some(dia(2026, 9, 5))), dia(2026, 9, 5));
}

fn pago(id: u128, monto: i64, borrado: bool) -> PagoRegistrado {
    PagoRegistrado { id, monto: Money::from_raw(monto), borrado }
}

#[test]
fn un_pago_no_puede_exceder_el_saldo_mas_la_tolerancia() {
    let svc = FacturasService::new(30, Money::from_raw(10_000));
    let pagos = vec![pago(1, 600_000, false), pago(2, 300_000, true)];
    let total = Money::from_raw(1_000_000);
    assert!(svc.ensure_no_excede_saldo(&pagos, total, Money::from_raw(410_000), None).is_ok());
    let e = svc.ensure_no_excede_saldo(&pagos, total, Money::from_raw(410_001), None).unwrap_err();
    assert_eq!(e.message_key(), "Validation.PagoFactura.ExcedeSaldo");
    assert_eq!(e.param("saldo").unwrap(), "40.0000");
    // Editing a payment leaves it out of what was already paid.
    assert!(svc.ensure_no_excede_saldo(&pagos, total, Money::from_raw(1_000_000), Some(1)).is_ok());
}

#[test]
fn una_factura_con_pagos_no_se_anula_ni_se_borra() {
    let pagos = vec![pago(1, 100, false), pago(2, 100, true)];
    let e = verificar_transicion(&pagos, EstadoFactura::Anulada, Money::from_raw(100)).unwrap_err();
    assert_eq!(e.message_key(), "State.Factura.TienePagos");
    assert_eq!(e.param("count").unwrap(), "1");
    assert!(verificar_transicion(&pagos, EstadoFactura::Pagada, Money::from_raw(100)).is_ok());
    let e = verificar_transicion(&vec![], EstadoFactura::Emitida, Money::zero()).unwrap_err();
    assert_eq!(e.message_key(), "State.Factura.RequiereTotalPositivo");
    let e = verificar_borrado(&pagos, 0).unwrap_err();
    assert_eq!(e.code(), "DEPENDENCY_IN_USE");
    let e = verificar_borrado(&vec![], 3).unwrap_err();
    assert_eq!(e.message_key(), "Conflict.Factura.ConMovimientos");
    assert_eq!(e.param("count").unwrap(), "3");
    assert!(verificar_borrado(&vec![pago(1, 5, true)], 0).is_ok());
    let e = verificar_admite_pagos(false, "anulada").unwrap_err();
    assert_eq!(e.param("estado").unwrap(), "anulada");
}

#[test]
fn las_dependencias_se_informan_en_orden() {
    let e = ClientesService::new().verificar_borrado(0, 2, 5).unwrap_err();
    assert_eq!(e.message_key(), "Conflict.Cliente.ConFacturas");
    assert_eq!(e.param("count").unwrap(), "2");
    assert!(ClientesService::new().verificar_borrado(0, 0, 0).is_ok());
    assert_eq!(
        EmpleadosService::new().verificar_borrado(1, 0).unwrap_err().message_key(),
        "Conflict.Empleado.ConLiquidaciones"
    );
    assert_eq!(TrabajosService::new().verificar_borrado(0, 4).unwrap_err().message_key(), "Conflict.Trabajo.ConMovimientos");
    assert_eq!(ObrasService::new().verificar_borrado(1).unwrap_err().message_key(), "Conflict.Obra.ConTrabajos");
    assert_eq!(ProyectosService::new().verificar_borrado(1).unwrap_err().message_key(), "Conflict.Proyecto.ConTrabajos");
    assert_eq!(
        OrdenesTrabajoService::new().verificar_borrado(1).unwrap_err().message_key(),
        "Conflict.OrdenTrabajo.ConCertificados"
    );
    let tipos = TiposMovimientoService::new();
    assert_eq!(tipos.verificar_borrado(true, 0).unwrap_err().message_key(), "Conflict.TipoMovimiento.EsDeSistema");
    assert_eq!(tipos.verificar_borrado(false, 3).unwrap_err().message_key(), "Conflict.TipoMovimiento.EnUso");
    assert_eq!(tipos.verificar_nombre_libre(true, "Gasto").unwrap_err().param("nombre").unwrap(), "Gasto");
}

#[test]
fn cerrar_una_obra_con_trabajos_abiertos_pide_cascada() {
    let svc = ObrasService::new();
    let hoy = dia(2026, 8, 29);
    let abiertos = vec![
        TrabajoAbierto { id: 1, estado: EstadoTrabajo::EnProceso, fecha_fin: None },
        TrabajoAbierto { id: 2, estado: EstadoTrabajo::Presupuestado, fecha_fin: Some(dia(2026, 8, 1)) },
    ];
    let e = svc.plan_transicion(EstadoObra::Finalizada, &abiertos, false, hoy).unwrap_err();
    assert_eq!(e.message_key(), "State.Obra.TieneTrabajosAbiertos");
    assert_eq!(e.param("count").unwrap(), "2");
    let plan = svc.plan_transicion(EstadoObra::Cancelada, &abiertos, true, hoy).unwrap();
    assert_eq!(plan[0].estado, EstadoTrabajo::Cancelado);
    assert_eq!(plan[0].fecha_fin, hoy);
    assert_eq!(plan[1].fecha_fin, dia(2026, 8, 1));
    assert!(svc.plan_transicion(EstadoObra::Pausada, &abiertos, false, hoy).unwrap().is_empty());
    let e = svc.verificar_numero_libre(true, 1892).unwrap_err();
    assert_eq!(e.param("numero").unwrap(), "1892");
}

#[test]
fn cerrar_un_proyecto_cancela_los_trabajos_presupuestados() {
    let svc = ProyectosService::new();
    let hoy = dia(2026, 8, 29);
    let abiertos = vec![
        TrabajoAbierto { id: 1, estado: EstadoTrabajo::EnProceso, fecha_fin: None },
        TrabajoAbierto { id: 2, estado: EstadoTrabajo::Presupuestado, fecha_fin: None },
    ];
    let e = svc.plan_transicion(EstadoObra::Finalizada, &abiertos, false, hoy).unwrap_err();
    assert_eq!(e.message_key(), "State.Proyecto.TieneTrabajosAbiertos");
    let plan = svc.plan_transicion(EstadoObra::Finalizada, &abiertos, true, hoy).unwrap();
    assert_eq!(plan[0].estado, EstadoTrabajo::Finalizado);
    assert_eq!(plan[1].estado, EstadoTrabajo::Cancelado);
    assert_eq!(plan[1].fecha_fin, hoy);
    let plan = svc.plan_transicion(EstadoObra::Cancelada, &abiertos, true, hoy).unwrap();
    assert_eq!(plan[0].estado, EstadoTrabajo::Cancelado);
    let obras = ObrasService::new();
    let plan = obras.plan_transicion(EstadoObra::Finalizada, &abiertos, true, hoy).unwrap();
    assert_eq!(plan[1].estado, EstadoTrabajo::Finalizado);
}

#[test]
fn finalizar_un_trabajo_le_pone_fecha_de_fin_y_reabrirlo_se_la_quita() {
    let svc = TrabajosService::new();
    let hoy = dia(2026, 8, 29);
    assert_eq!(svc.fecha_fin_tras_transicion(EstadoTrabajo::EnProceso, EstadoTrabajo::Finalizado, None, hoy), Some(hoy));
    assert_eq!(svc.fecha_fin_tras_transicion(EstadoTrabajo::Finalizado, EstadoTrabajo::EnProceso, Some(hoy), hoy), None);
    assert_eq!(svc.fecha_fin_tras_transicion(EstadoTrabajo::Presupuestado, EstadoTrabajo::EnProceso, Some(3), hoy), Some(3));
    let e = svc.verificar_obra(true, false, "finalizada").unwrap_err();
    assert_eq!(e.param("estadoObra").unwrap(), "finalizada");
    assert!(svc.verificar_obra(false, false, "finalizada").is_ok());
}

#[test]
fn una_linea_certificada_sobrevive_al_formulario() {
    let svc = OrdenesTrabajoService::new();
    let existentes = vec![10, 11];
    assert_eq!(svc.plan_items(&vec![Some(10), Some(99), None], &existentes), vec![Some(10), None, None]);
    assert!(svc.verificar_certificados_conservados(&vec![Some(10)], &existentes, &vec![10]).is_ok());
    let e = svc.verificar_certificados_conservados(&vec![Some(10)], &existentes, &vec![11]).unwrap_err();
    assert_eq!(e.message_key(), "Conflict.OrdenTrabajo.ItemCertificado");
}

#[test]
fn el_tablero_pone_lo_nuevo_al_final_y_controla_la_version() {
    assert_eq!(siguiente_orden(&vec![]), 0);
    assert_eq!(siguiente_orden(&vec![3, -1, 7]), 8);
    let svc = KanbanService::new();
    assert!(svc.verificar_version(1, "0000000000000001", "kanban_tarjetas").is_ok());
    let e = svc.verificar_version(2, "0000000000000001", "kanban_tarjetas").unwrap_err();
    assert_eq!(e.code(), "CONCURRENCY");
    assert_eq!(e.param("entity").unwrap(), "kanban_tarjetas");
    let e = svc.verificar_version(1, "xyz", "kanban_tarjetas").unwrap_err();
    assert_eq!(e.fields()[0].message_key, "Validation.RowVersion.Invalid");
    assert!(svc.verificar_version(0xABCD, "000000000000abCD", "t").is_ok());
    assert_eq!(svc.verificar_borrado_tablero(true).unwrap_err().fields()[0].message_key, "Validation.Kanban.CannotDeletePreset");
    let cols = columnas_por_defecto();
    assert_eq!(cols[1].nombre, "En Progreso");
}

#[test]
fn reordenar_solo_escribe_lo_que_cambia() {
    let existentes = vec![Posicion { id: 1, orden: 0 }, Posicion { id: 2, orden: 5 }, Posicion { id: 3, orden: 2 }];
    let plan = reordenar(&vec![1, 3, 2, 9], &existentes);
    assert_eq!(plan, vec![Posicion { id: 3, orden: 1 }, Posicion { id: 2, orden: 2 }]);
    let cols = vec![ColumnaPreset { id: 1, estado_mapeado: None }, ColumnaPreset { id: 2, estado_mapeado: Some(3) }];
    assert_eq!(columna_para_estado(&cols, 3), Some(2));
    assert_eq!(columna_para_estado(&cols, 4), Some(1));
    assert_eq!(columna_para_estado(&vec![], 4), None);
    assert_eq!(resumen_checklist(&vec![true, false, true]), (3, 2));
}

fn cotizacion(casa: &str, compra: i64) -> Cotizacion {
    Cotizacion { casa: casa.to_owned(), nombre: casa.to_owned(), compra: Money::from_raw(compra), venta: Money::from_raw(compra), desactualizada: false }
}

#[test]
fn las_cotizaciones_siguen_el_orden_configurado() {
    let svc = CotizacionesService::new(15, vec!["Blue".to_owned(), " oficial ".to_owned(), "tarjeta".to_owned()]);
    let lista = vec![cotizacion("oficial", 1), cotizacion("blue", 2)];
    let v = svc.visibles(&lista, &svc.casas);
    let casas: Vec<&str> = v.iter().map(|c| c.casa.as_str()).collect();
    assert_eq!(casas, ["blue", "oficial"]);
    assert!(svc.usar_cache(false, Some(0), 14 * 60_000_000_000));
    assert!(!svc.usar_cache(false, Some(0), 15 * 60_000_000_000));
    assert!(!svc.usar_cache(true, Some(0), 0));
    let r = svc.resolver(Some(vec![]), Some(vec![cotizacion("blue", 3)]));
    assert!(!r.guardar);
    assert!(r.cotizaciones[0].desactualizada);
    let r = svc.resolver(None, None);
    assert!(r.cotizaciones.is_empty());
    let r = svc.resolver(Some(vec![cotizacion("oficial", 4)]), None);
    assert!(r.guardar);
    assert_eq!(r.cotizaciones.len(), 1);
}

#[test]
fn el_ingreso_se_rechaza_en_orden() {
    let svc = AuthService::new();
    assert_eq!(svc.verificar_cuenta(None).unwrap_err().code(), "CONFLICT");
    let cuenta = Cuenta { activo: true, bloqueado: true, tiene_clave: true };
    assert_eq!(svc.verificar_cuenta(Some(cuenta)).unwrap_err().message_key(), "Validation.Auth.UserLocked");
    let cuenta = Cuenta { activo: false, bloqueado: true, tiene_clave: false };
    assert_eq!(svc.verificar_cuenta(Some(cuenta)).unwrap_err().message_key(), "Validation.Auth.UserInactive");
    assert_eq!(
        svc.verificar_clave(false).unwrap_err().message_key(),
        svc.verificar_cuenta(None).unwrap_err().message_key()
    );
    let f = SegundoFactor { requiere: true, tiene_secreto: true, trae_codigo: false, codigo_valido: false };
    assert_eq!(svc.verificar_2fa(f).unwrap_err().message_key(), "Validation.Auth.2faCodeRequired");
    assert!(svc.verificar_2fa(SegundoFactor { requiere: false, ..f }).is_ok());
    assert_eq!(svc.vencimiento_sesion(0), Some(7 * 86_400_000_000_000));
    assert_eq!(svc.normalizar_email("  Ana@Example.COM "), "ana@example.com");
    assert!(!svc.hay_clave_nueva(Some("   ")));
    assert_eq!(svc.otpauth_url("a@b.c", "XYZ"), "otpauth://totp/Certaro:a@b.c?secret=XYZ&issuer=Certaro");
    assert_eq!(svc.a_quitar(&vec![1, 2, 3], &vec![2]), vec![1, 3]);
}

#[test]
fn la_agenda_proyecta_feriados_y_trabajos_y_ordena_por_inicio() {
    let f = evento_feriado(1, dia(2026, 8, 17), "Paso a la Inmortalidad", None);
    assert_eq!(f.inicio, "2026-08-17T00:00:00.000Z");
    assert_eq!(f.titulo, "Feriado: Paso a la Inmortalidad");
    let t = evento_trabajo(2, "Tablero", dia(2026, 8, 3), None, dia(2026, 8, 1), dia(2026, 8, 31)).unwrap();
    assert_eq!(t.fin, "2026-08-03T17:00:00.000Z");
    assert!(evento_trabajo(2, "Tablero", dia(2026, 9, 3), None, dia(2026, 8, 1), dia(2026, 8, 31)).is_none());
    let orden = ordenar_eventos(vec![f, t]);
    assert_eq!(orden[0].id, 2);
    let svc = CalendarioService::new();
    assert_eq!(svc.validar_evento("  ", 0, 1).unwrap_err().fields()[0].field, "titulo");
    assert_eq!(svc.validar_evento("x", 2, 1).unwrap_err().fields()[0].field, "fin");
    assert_eq!(svc.grupo_personal(&vec![(1, "Equipos".to_owned()), (2, "PERSONAL".to_owned())]), Some(2));
}

fn item(id: u128, anterior: i64) -> OrdenTrabajoItem {
    OrdenTrabajoItem {
        id,
        descripcion: "Cable".to_owned(),
        unidad: "m".to_owned(),
        cantidad: Decimal4::from_units(10).unwrap(),
        precio_unitario: Money::from_units(100).unwrap(),
        porcentaje_anterior: Decimal4::from_raw(anterior),
        porcentaje_actual: Decimal4::zero(),
        ejecutado: false,
        orden: 0,
    }
}

#[test]
fn emitir_y_anular_un_certificado_deja_la_orden_como_estaba() {
    let orden = OrdenTrabajo {
        id: 1,
        titulo: "Planilla".to_owned(),
        ajuste_uocra_porcentaje: Decimal4::from_units(10).unwrap(),
        otros_descuentos: Money::zero(),
        items: vec![item(7, 200_000)],
    };
    let avances = vec![Avance { indice: 0, item_id: 7, orden: 0, porcentaje: Decimal4::from_raw(300_000) }];
    let acumulados = vec![(7u128, Decimal4::from_raw(200_000))];
    let c = calcular_certificado(&orden, &avances, &acumulados, Money::zero()).unwrap();
    // 30 % of 1 000 is 300; the adjustment adds 10 % of it.
    assert_eq!(c.total_certificado, Money::from_units(300).unwrap());
    assert_eq!(c.ajuste_uocra, Money::from_units(30).unwrap());
    assert_eq!(c.total_neto, Money::from_units(330).unwrap());
    let emision = plan_emision(&c.lineas).unwrap();
    assert_eq!(emision[0].porcentaje_anterior, Decimal4::from_raw(500_000));
    assert_eq!(emision[0].porcentaje_actual, Decimal4::zero());
    let despues = vec![item(7, 500_000)];
    let lineas = vec![LineaEmitida { orden_trabajo_item_id: 7, porcentaje_actual: Decimal4::from_raw(300_000) }];
    let anulacion = plan_anulacion(1, 1, &lineas, &despues).unwrap();
    assert_eq!(anulacion[0].porcentaje_anterior, Decimal4::from_raw(200_000));
    assert_eq!(anulacion[0].porcentaje_actual, Decimal4::from_raw(300_000));
    let e = plan_anulacion(1, 2, &lineas, &despues).unwrap_err();
    assert_eq!(e.param("ultimo").unwrap(), "2");
}

#[test]
fn la_agenda_junta_eventos_feriados_y_trabajos_por_inicio() {
    let guardado = EventoCalendario {
        id: 9,
        titulo: "Reunión".to_string(),
        descripcion: None,
        tipo: TipoEvento::Otro,
        inicio: "2026-08-10T09:00:00.000Z".to_string(),
        fin: "2026-08-10T10:00:00.000Z".to_string(),
        todo_el_dia: false,
        color: None,
        trabajo_id: None,
        kanban_tarjeta_id: Some(7),
        recursos: vec![3, 4],
        es_virtual: true,
        row_version: 11,
    };
    let feriados = vec![
        (1u128, dia(2026, 8, 17), "San Martín".to_string(), Some("trasladable".to_string())),
        (2u128, dia(2026, 9, 21), "Fuera".to_string(), None),
    ];
    let trabajos = vec![
        (3u128, "Tablero".to_string(), dia(2026, 8, 3), Some(dia(2026, 8, 5))),
        (4u128, "Otro mes".to_string(), dia(2026, 7, 3), None),
    ];
    let r = construir_agenda(vec![guardado], &feriados, &trabajos, dia(2026, 8, 1), dia(2026, 8, 31));
    assert_eq!(r.len(), 3);
    assert_eq!(r[0].id, 3);
    assert_eq!(r[0].inicio, "2026-08-03T08:00:00.000Z");
    assert_eq!(r[0].fin, "2026-08-05T18:00:00.000Z");
    assert_eq!(r[1].id, 9);
    assert!(!r[1].es_virtual);
    assert_eq!(r[2].titulo, "Feriado: San Martín");
    assert!(r[2].es_virtual && r[2].todo_el_dia);
}

#[test]
fn sincronizar_un_tablero_de_trabajos() {
    let cols = vec![
        ColumnaPreset { id: 10, estado_mapeado: Some(0) },
        ColumnaPreset { id: 11, estado_mapeado: Some(1) },
    ];
    let tarjetas = vec![(1u128, 10u128, "Tablero".to_string()), (2u128, 10u128, "Viejo".to_string())];
    let trabajos = vec![
        (1u128, 0i32, "Tablero".to_string()),
        (2u128, 1i32, "Nuevo".to_string()),
        (3u128, 7i32, "Sin tarjeta".to_string()),
    ];
    let plan = plan_sincronizacion(&cols, &tarjetas, &trabajos);
    assert_eq!(plan, vec![(1, AccionTarjeta::Nada), (2, AccionTarjeta::Actualizar), (3, AccionTarjeta::Crear)]);
    let aplicadas = vec![
        (1u128, 10u128, "Tablero".to_string()),
        (2u128, 11u128, "Nuevo".to_string()),
        (3u128, 10u128, "Sin tarjeta".to_string()),
    ];
    let segundo = plan_sincronizacion(&cols, &aplicadas, &trabajos);
    assert!(segundo.iter().all(|(_, a)| *a == AccionTarjeta::Nada));
    assert!(plan_sincronizacion(&vec![], &tarjetas, &trabajos).iter().all(|(_, a)| *a == AccionTarjeta::Nada));
}

#[test]
fn las_cotizaciones_frescas_no_consultan_y_las_viejas_si() {
    let svc = CotizacionesService::new(15, vec!["blue".to_owned()]);
    let consultas = std::cell::Cell::new(0);
    let r = svc.obtener(false, Some((vec![cotizacion("blue", 1)], 0)), 60_000_000_000, || {
        consultas.set(consultas.get() + 1);
        Some(vec![cotizacion("blue", 9)])
    });
    assert_eq!(consultas.get(), 0);
    assert!(!r.guardar);
    assert_eq!(r.cotizaciones[0].compra, Money::from_raw(1));
    let r = svc.obtener(true, Some((vec![cotizacion("blue", 1)], 0)), 60_000_000_000, || Some(vec![cotizacion("blue", 9)]));
    assert!(r.guardar);
    assert_eq!(r.cotizaciones[0].compra, Money::from_raw(9));
    let r = svc.obtener(false, Some((vec![cotizacion("blue", 1)], 0)), 16 * 60_000_000_000, || None);
    assert!(!r.guardar);
    assert!(r.cotizaciones[0].desactualizada);
    let r = svc.obtener(false, None, 0, || None);
    assert!(r.cotizaciones.is_empty());
}

#[test]
fn editar_un_evento_exige_la_version_leida_y_recorta_el_titulo() {
    let svc = CalendarioService::new();
    assert_eq!(svc.verificar_edicion("  Obra  ", 1, 2, 5, 5).unwrap(), "Obra");
    assert_eq!(svc.verificar_edicion("Obra", 1, 2, 5, 4).unwrap_err().code(), "CONCURRENCY");
    assert_eq!(svc.verificar_edicion(" ", 1, 2, 5, 4).unwrap_err().fields()[0].field, "titulo");
    assert_eq!(svc.verificar_edicion("x", 3, 2, 5, 5).unwrap_err().fields()[0].field, "fin");
}

#[test]
fn sincronizar_un_tablero_de_ordenes_solo_mira_el_titulo() {
    let cols = vec![ColumnaPreset { id: 10, estado_mapeado: None }];
    let tarjetas = vec![(1u128, 99u128, "Planilla".to_string()), (2u128, 10u128, "Vieja".to_string())];
    let ordenes = vec![(1u128, "Planilla".to_string()), (2u128, "Nueva".to_string()), (3u128, "Otra".to_string())];
    let plan = plan_sincronizacion_ordenes(&cols, &tarjetas, &ordenes);
    assert_eq!(plan, vec![(1, AccionTarjeta::Nada), (2, AccionTarjeta::Actualizar), (3, AccionTarjeta::Crear)]);
    assert!(plan_sincronizacion_ordenes(&vec![], &tarjetas, &ordenes).iter().all(|(_, a)| *a == AccionTarjeta::Nada));
}

fn evento_guardado() -> EventoCalendario {
    EventoCalendario {
        id: 9,
        titulo: "Reunión".to_string(),
        descripcion: None,
        tipo: TipoEvento::Otro,
        inicio: "2026-08-10T09:00:00.000Z".to_string(),
        fin: "2026-08-10T10:00:00.000Z".to_string(),
        todo_el_dia: false,
        color: None,
        trabajo_id: Some(5),
        kanban_tarjeta_id: Some(7),
        recursos: vec![3],
        es_virtual: false,
        row_version: 11,
    }
}

fn edicion(titulo: &str, inicio: &str, fin: &str, version: u64) -> EdicionEvento {
    EdicionEvento {
        titulo: titulo.to_string(),
        descripcion: Some("sala 2".to_string()),
        tipo: TipoEvento::Trabajo,
        inicio: inicio.to_string(),
        fin: fin.to_string(),
        todo_el_dia: true,
        color: Some("#000000".to_string()),
        row_version: version,
        recurso_ids: None,
    }
}

#[test]
fn la_agenda_lee_su_rango_y_rechaza_fechas_ilegibles() {
    let svc = CalendarioService::new();
    let e = svc.agenda("ayer", "2026-08-31T23:59:59.999Z", vec![], &vec![], &vec![]).unwrap_err();
    assert_eq!(e.fields()[0].field, "desde");
    let e = svc.agenda("2026-08-01T00:00:00.000Z", "", vec![], &vec![], &vec![]).unwrap_err();
    assert_eq!(e.fields()[0].field, "hasta");
    let trabajos = vec![(3u128, "Tablero".to_string(), dia(2026, 8, 3), None)];
    let r = svc.agenda("2026-08-01T00:00:00.000Z", "2026-08-31T23:59:59.999Z", vec![evento_guardado()], &vec![], &trabajos).unwrap();
    assert_eq!(r.len(), 2);
    assert_eq!(r[0].trabajo_id, Some(3));
    assert_eq!(r[1].recursos, vec![3]);
}

#[test]
fn editar_un_evento_cambia_solo_lo_del_formulario() {
    let svc = CalendarioService::new();
    let r = svc
        .actualizar_evento(evento_guardado(), edicion("  Obra  ", "2026-08-11T09:00:00Z", "2026-08-11T10:30:00+00:00", 11))
        .unwrap();
    assert_eq!(r.titulo, "Obra");
    assert_eq!(r.inicio, "2026-08-11T09:00:00.000Z");
    assert_eq!(r.fin, "2026-08-11T10:30:00.000Z");
    assert_eq!(r.tipo, TipoEvento::Trabajo);
    assert!(r.todo_el_dia && !r.es_virtual);
    assert_eq!(r.kanban_tarjeta_id, Some(7));
    assert_eq!(r.trabajo_id, Some(5));
    assert_eq!(r.recursos, vec![3]);
    let e = svc.actualizar_evento(evento_guardado(), edicion("Obra", "no", "2026-08-11T10:30:00Z", 11)).unwrap_err();
    assert_eq!(e.fields()[0].field, "inicio");
    let e = svc.actualizar_evento(evento_guardado(), edicion("Obra", "2026-08-11T09:00:00Z", "2026-08-11T10:30:00Z", 10)).unwrap_err();
    assert_eq!(e.code(), "CONCURRENCY");
}

#[test]
fn editar_una_tarjeta_deja_su_lugar_y_sus_vinculos() {
    let svc = KanbanService::new();
    let actual = Tarjeta {
        id: 1,
        columna_id: 10,
        titulo: "Vieja".to_string(),
        descripcion: None,
        prioridad: 1,
        fecha_vencimiento: None,
        orden: 4,
        trabajo_id: Some(8),
        orden_trabajo_id: None,
        archivada: false,
        etiquetas: vec![2],
        row_version: 0xAB,
    };
    let ed = EdicionTarjeta {
        titulo: "Nueva".to_string(),
        descripcion: Some("d".to_string()),
        prioridad: 3,
        fecha_vencimiento: Some(dia(2026, 9, 1)),
        row_version: "00000000000000ab".to_string(),
        etiqueta_ids: None,
    };
    let t = svc.editar_tarjeta(actual, ed).unwrap();
    assert_eq!(t.titulo, "Nueva");
    assert_eq!(t.prioridad, 3);
    assert_eq!((t.columna_id, t.orden, t.trabajo_id), (10, 4, Some(8)));
    assert_eq!(t.etiquetas, vec![2]);
}

#[test]
fn cinco_claves_erroneas_bloquean_quince_minutos() {
    let svc = AuthService::new();
    let mut a = Acceso { intentos_fallidos: 3, bloqueado_hasta: None };
    let (r, b) = svc.intento_de_clave(false, a, 1_000);
    assert_eq!(r.unwrap_err().code(), "CONFLICT");
    assert_eq!(b.intentos_fallidos, 4);
    assert!(!svc.esta_bloqueado(b, 1_000));
    a = b;
    let (_, b) = svc.intento_de_clave(false, a, 1_000);
    assert_eq!(b.bloqueado_hasta, Some(1_000 + 15 * 60_000_000_000));
    assert!(svc.esta_bloqueado(b, 1_000 + 60_000_000_000));
    let (r, c) = svc.intento_de_clave(true, b, 2_000);
    assert!(r.is_ok());
    assert_eq!(c, Acceso { intentos_fallidos: 0, bloqueado_hasta: None });
}

use certaro::certificados::{CertificadoInput, CertificadoInputItem};
use certaro::dinero::{Decimal4, Money};
use certaro::error::AppError;
use certaro::liquidaciones::TipoJornada;
use certaro::validacion::asistencias::{self, AsistenciaRangoInput, AsistenciaUpsertInput};
use certaro::validacion::certificados as val_certificados;
use certaro::validacion::clientes::{self, ClienteContactoInput, ClienteInput};
use certaro::validacion::movimientos::{self, ContextoFecha, Moneda, MovimientoInput, TIPO_ADELANTO, TIPO_GASTO};
use certaro::validacion::proyectos::{self, ProyectoInput};
use certaro::validacion::trabajos::{self, TrabajoInput};
use certaro::validacion::NOMBRE_LARGO;

use chrono::Datelike;

/// The day number of a civil date, counted as the library counts it.
fn fecha(y: i32, m: u32, d: u32) -> Option<i32> {
    chrono::NaiveDate::from_ymd_opt(y, m, d).map(|f| f.num_days_from_ce())
}
use chrono::TimeZone;

/// A UTC instant in nanoseconds since the epoch.
fn instante(y: i32, m: u32, d: u32, h: u32, mi: u32, s: u32) -> Option<i64> {
    chrono::Utc.with_ymd_and_hms(y, m, d, h, mi, s).single().and_then(|t| t.timestamp_nanos_opt())
}


fn dia(y: i32, m: u32, d: u32) -> i32 {
    fecha(y, m, d).unwrap()
}

fn keys(error: AppError) -> Vec<String> {
    error.fields().iter().map(|f| f.message_key.clone()).collect()
}

fn contexto_asistencias() -> ContextoFecha {
    ContextoFecha { minima: dia(2000, 1, 1), hoy: dia(2026, 8, 29), max_dias_futuro: 365 }
}

fn asistencia() -> AsistenciaUpsertInput {
    AsistenciaUpsertInput {
        empleado_id: 1,
        fecha: dia(2026, 8, 3),
        tipo_jornada: Some(TipoJornada::Completa),
        trabajo_id: None,
        observaciones: None,
    }
}

#[test]
fn una_celda_minima_es_valida() {
    assert!(asistencias::validate(&asistencia(), &contexto_asistencias()).is_ok());
}

#[test]
fn borrar_una_celda_es_valido() {
    let dto = AsistenciaUpsertInput { tipo_jornada: None, ..asistencia() };
    assert!(asistencias::validate(&dto, &contexto_asistencias()).is_ok());
}

#[test]
fn el_empleado_es_obligatorio() {
    let dto = AsistenciaUpsertInput { empleado_id: 0, ..asistencia() };
    assert_eq!(keys(asistencias::validate(&dto, &contexto_asistencias()).unwrap_err()), ["Validation.Asistencia.EmpleadoRequired"]);
}

#[test]
fn una_fecha_fuera_de_rango_se_rechaza() {
    let dto = AsistenciaUpsertInput { fecha: dia(1999, 12, 31), ..asistencia() };
    let e = asistencias::validate(&dto, &contexto_asistencias()).unwrap_err();
    assert_eq!(e.fields()[0].param("minima").unwrap(), "2000-01-01");
    assert_eq!(e.fields()[0].param("maxima").unwrap(), "2027-08-29");
    assert_eq!(keys(e), ["Validation.Common.FechaOutOfRange"]);
}

#[test]
fn un_rango_invertido_se_rechaza() {
    let dto = AsistenciaRangoInput {
        empleado_id: 1,
        desde: dia(2026, 8, 10),
        hasta: dia(2026, 8, 1),
        tipo_jornada: TipoJornada::Completa,
        solo_dias_habiles: true,
        trabajo_id: None,
    };
    assert_eq!(keys(asistencias::validate_rango(&dto, &contexto_asistencias()).unwrap_err()), ["Validation.Asistencia.RangoInvalid"]);
}

fn contexto_certificados() -> ContextoFecha {
    ContextoFecha { hoy: dia(2026, 3, 1), minima: dia(2000, 1, 1), max_dias_futuro: 365 }
}

fn certificado() -> CertificadoInput {
    CertificadoInput {
        orden_trabajo_id: 1,
        fecha: dia(2026, 3, 1),
        observaciones: None,
        items: vec![CertificadoInputItem { orden_trabajo_item_id: 2, porcentaje_actual: Decimal4::from_raw(600_000) }],
    }
}

#[test]
fn un_certificado_minimo_es_valido() {
    assert!(val_certificados::validate(&certificado(), &contexto_certificados()).is_ok());
}

#[test]
fn sin_items_no_hay_certificado() {
    let dto = CertificadoInput { items: vec![], ..certificado() };
    assert_eq!(keys(val_certificados::validate(&dto, &contexto_certificados()).unwrap_err()), ["Validation.Certificado.ItemsRequired"]);
}

#[test]
fn el_porcentaje_esta_acotado() {
    let dto = CertificadoInput {
        items: vec![CertificadoInputItem { orden_trabajo_item_id: 2, porcentaje_actual: Decimal4::from_raw(1_005_000) }],
        ..certificado()
    };
    let e = val_certificados::validate(&dto, &contexto_certificados()).unwrap_err();
    assert_eq!(e.fields()[0].field, "items[0].porcentajeActual");
    assert_eq!(keys(e), ["Validation.Certificado.PorcentajeInvalid"]);
}

#[test]
fn una_fecha_de_hace_veinte_anios_se_rechaza() {
    let dto = CertificadoInput { fecha: dia(1999, 12, 31), ..certificado() };
    assert_eq!(keys(val_certificados::validate(&dto, &contexto_certificados()).unwrap_err()), ["Validation.Common.FechaOutOfRange"]);
}

#[test]
fn las_observaciones_de_un_certificado_tienen_un_largo_maximo() {
    assert!(val_certificados::validate_observaciones(None).is_ok());
    let largas = "x".repeat(2001);
    assert_eq!(
        keys(val_certificados::validate_observaciones(Some(&largas)).unwrap_err()),
        ["Validation.Certificado.ObservacionesMaxLength"]
    );
}

fn contacto() -> ClienteContactoInput {
    ClienteContactoInput {
        id: None,
        etiqueta: "Oficina".to_owned(),
        email: "proyecto@example.com".to_owned(),
        nombre: None,
        telefono: None,
        es_principal: false,
    }
}

fn cliente() -> ClienteInput {
    ClienteInput {
        nombre: "Tecnocasa".to_owned(),
        cuit: None,
        direccion: None,
        telefono: None,
        email: None,
        condicion_iva: None,
        contactos: vec![],
    }
}

#[test]
fn un_cliente_minimo_es_valido() {
    assert!(clientes::validate(&cliente()).is_ok());
}

#[test]
fn el_nombre_es_obligatorio() {
    let dto = ClienteInput { nombre: "   ".to_owned(), ..cliente() };
    assert_eq!(keys(clientes::validate(&dto).unwrap_err()), ["Validation.Cliente.NombreRequired"]);
}

#[test]
fn el_cuit_exige_los_guiones() {
    for valido in ["20-12345678-9", "30-71234567-0"] {
        let dto = ClienteInput { cuit: Some(valido.to_owned()), ..cliente() };
        assert!(clientes::validate(&dto).is_ok(), "{valido}");
    }
    for invalido in ["20123456789", "20-1234567-9", "AB-12345678-9", "20-12345678"] {
        let dto = ClienteInput { cuit: Some(invalido.to_owned()), ..cliente() };
        assert_eq!(keys(clientes::validate(&dto).unwrap_err()), ["Validation.Cliente.CuitInvalid"], "{invalido}");
    }
}

#[test]
fn un_cuit_vacio_es_ausencia_y_no_un_error() {
    let dto = ClienteInput { cuit: Some("  ".to_owned()), ..cliente() };
    assert!(clientes::validate(&dto).is_ok());
}

#[test]
fn el_email_tiene_que_parecer_un_email() {
    for invalido in ["sin-arroba", "a@b", "@example.com", "a@ example.com"] {
        let dto = ClienteInput { email: Some(invalido.to_owned()), ..cliente() };
        assert!(keys(clientes::validate(&dto).unwrap_err()).contains(&"Validation.Cliente.EmailInvalid".to_owned()), "{invalido}");
    }
}

#[test]
fn no_puede_haber_dos_contactos_principales() {
    let dto = ClienteInput {
        contactos: vec![
            ClienteContactoInput { es_principal: true, ..contacto() },
            ClienteContactoInput { email: "otro@example.com".to_owned(), es_principal: true, ..contacto() },
        ],
        ..cliente()
    };
    let e = clientes::validate(&dto).unwrap_err();
    assert_eq!(e.fields()[0].param("count").unwrap(), "2");
    assert_eq!(keys(e), ["Validation.Cliente.ContactoPrincipalUnico"]);
}

#[test]
fn un_solo_principal_es_correcto() {
    let dto = ClienteInput {
        contactos: vec![
            ClienteContactoInput { es_principal: true, ..contacto() },
            ClienteContactoInput { email: "otro@example.com".to_owned(), ..contacto() },
        ],
        ..cliente()
    };
    assert!(clientes::validate(&dto).is_ok());
}

#[test]
fn dos_contactos_con_el_mismo_email_se_rechazan() {
    let dto = ClienteInput {
        contactos: vec![contacto(), ClienteContactoInput { email: "PROYECTO@example.com".to_owned(), ..contacto() }],
        ..cliente()
    };
    let e = clientes::validate(&dto).unwrap_err();
    assert_eq!(e.fields()[0].field, "contactos[1].email");
    assert_eq!(e.fields()[0].param("email").unwrap(), "proyecto@example.com");
    assert_eq!(keys(e), ["Validation.Cliente.ContactoEmailDuplicado"]);
}

#[test]
fn los_errores_de_un_contacto_llevan_su_indice() {
    let dto = ClienteInput {
        contactos: vec![
            contacto(),
            ClienteContactoInput { etiqueta: String::new(), email: "roto".to_owned(), ..contacto() },
        ],
        ..cliente()
    };
    let error = clientes::validate(&dto).unwrap_err();
    let campos: Vec<String> = error.fields().iter().map(|f| f.field.clone()).collect();
    assert!(campos.contains(&"contactos[1].etiqueta".to_owned()));
    assert!(campos.contains(&"contactos[1].email".to_owned()));
    assert!(!campos.iter().any(|c| c.starts_with("contactos[0]")));
}

#[test]
fn se_informan_todos_los_problemas_de_una_vez() {
    let dto = ClienteInput {
        nombre: String::new(),
        cuit: Some("nope".to_owned()),
        email: Some("tampoco".to_owned()),
        ..cliente()
    };
    assert_eq!(keys(clientes::validate(&dto).unwrap_err()).len(), 3);
}

fn contexto_movimientos() -> ContextoFecha {
    ContextoFecha::from_config("2000-01-01", 365, dia(2026, 8, 29))
}

fn momento(y: i32, m: u32, d: u32) -> i64 {
    instante(y, m, d, 12, 0, 0).unwrap()
}

fn movimiento() -> MovimientoInput {
    MovimientoInput {
        fecha: momento(2026, 8, 29),
        concepto: "Cable 2.5".to_owned(),
        monto: Money::from_raw(15_000_000),
        cantidad: Decimal4::one(),
        tipo_movimiento_id: TIPO_GASTO,
        moneda: Moneda::Ars,
        cotizacion_aplicada: None,
        tipo_concepto_pago_id: None,
        categoria_id: Some(7),
        cliente_id: None,
        trabajo_id: None,
        empleado_id: None,
        factura_id: None,
    }
}

#[test]
fn un_movimiento_completo_pasa() {
    assert!(movimientos::validate(&movimiento(), &contexto_movimientos()).is_ok());
}

#[test]
fn el_concepto_admite_quinientos_caracteres_y_no_quinientos_uno() {
    let dto = MovimientoInput { concepto: "a".repeat(500), ..movimiento() };
    assert!(movimientos::validate(&dto, &contexto_movimientos()).is_ok());
    let dto = MovimientoInput { concepto: "a".repeat(501), ..movimiento() };
    assert_eq!(keys(movimientos::validate(&dto, &contexto_movimientos()).unwrap_err()), ["Validation.Movimiento.ConceptoMaxLength"]);
}

#[test]
fn el_monto_y_la_cantidad_tienen_que_ser_positivos() {
    let dto = MovimientoInput { monto: Money::zero(), ..movimiento() };
    assert_eq!(keys(movimientos::validate(&dto, &contexto_movimientos()).unwrap_err()), ["Validation.Movimiento.MontoRequired"]);
    let dto = MovimientoInput { cantidad: Decimal4::zero(), ..movimiento() };
    assert_eq!(keys(movimientos::validate(&dto, &contexto_movimientos()).unwrap_err()), ["Validation.Movimiento.CantidadRequired"]);
}

#[test]
fn la_categoria_es_obligatoria_aunque_la_columna_admita_nulo() {
    let dto = MovimientoInput { categoria_id: None, ..movimiento() };
    assert_eq!(keys(movimientos::validate(&dto, &contexto_movimientos()).unwrap_err()), ["Validation.Movimiento.CategoriaRequired"]);
}

#[test]
fn en_dolares_la_cotizacion_es_obligatoria() {
    let dto = MovimientoInput { moneda: Moneda::Usd, ..movimiento() };
    assert_eq!(keys(movimientos::validate(&dto, &contexto_movimientos()).unwrap_err()), ["Validation.Movimiento.CotizacionRequired"]);
    let dto = MovimientoInput { moneda: Moneda::Usd, cotizacion_aplicada: Some(Money::from_raw(13_500_000)), ..movimiento() };
    assert!(movimientos::validate(&dto, &contexto_movimientos()).is_ok());
}

#[test]
fn en_pesos_una_cotizacion_no_tiene_sentido() {
    let dto = MovimientoInput { cotizacion_aplicada: Some(Money::from_raw(13_500_000)), ..movimiento() };
    assert_eq!(keys(movimientos::validate(&dto, &contexto_movimientos()).unwrap_err()), ["Validation.Movimiento.CotizacionNotApplicable"]);
}

#[test]
fn una_fecha_del_ano_uno_se_rechaza() {
    let dto = MovimientoInput { fecha: i64::MIN, ..movimiento() };
    assert_eq!(keys(movimientos::validate(&dto, &contexto_movimientos()).unwrap_err()), ["Validation.Common.FechaOutOfRange"]);
}

#[test]
fn el_limite_futuro_es_un_ano_por_defecto() {
    let dto = MovimientoInput { fecha: momento(2027, 8, 29), ..movimiento() };
    assert!(movimientos::validate(&dto, &contexto_movimientos()).is_ok());
    let dto = MovimientoInput { fecha: momento(2027, 8, 31), ..movimiento() };
    let e = movimientos::validate(&dto, &contexto_movimientos()).unwrap_err();
    assert_eq!(e.fields()[0].param("min").unwrap(), "2000-01-01");
    assert_eq!(e.fields()[0].param("max").unwrap(), "2027-08-29");
    assert_eq!(keys(e), ["Validation.Common.FechaOutOfRange"]);
}

#[test]
fn un_adelanto_sin_empleado_no_se_puede_liquidar() {
    let dto = MovimientoInput { tipo_movimiento_id: TIPO_ADELANTO, ..movimiento() };
    assert_eq!(keys(movimientos::validate(&dto, &contexto_movimientos()).unwrap_err()), ["Validation.Movimiento.EmpleadoRequeridoAdelanto"]);
    let dto = MovimientoInput { tipo_movimiento_id: TIPO_ADELANTO, empleado_id: Some(3), ..movimiento() };
    assert!(movimientos::validate(&dto, &contexto_movimientos()).is_ok());
}

#[test]
fn una_fecha_minima_ilegible_cae_en_el_dos_mil() {
    let c = ContextoFecha::from_config("no es una fecha", 10, dia(2026, 8, 29));
    assert_eq!(c.minima, dia(2000, 1, 1));
    assert_eq!(c.max_dias_futuro, 10);
}

fn proyecto() -> ProyectoInput {
    ProyectoInput { numero: 1892, nombre: "Tecnocasa Mercedes".to_owned(), direccion: None, localidad: None, cliente_id: 1 }
}

#[test]
fn un_proyecto_minimo_es_valido() {
    assert!(proyectos::validate(&proyecto()).is_ok());
}

#[test]
fn el_numero_tiene_que_ser_positivo() {
    for numero in [0, -1] {
        let dto = ProyectoInput { numero, ..proyecto() };
        assert_eq!(keys(proyectos::validate(&dto).unwrap_err()), ["Validation.Proyecto.NumeroRequired"]);
    }
}

#[test]
fn el_cliente_es_obligatorio() {
    let dto = ProyectoInput { cliente_id: 0, ..proyecto() };
    assert_eq!(keys(proyectos::validate(&dto).unwrap_err()), ["Validation.Proyecto.ClienteRequired"]);
}

#[test]
fn el_nombre_en_el_limite_pasa() {
    let dto = ProyectoInput { nombre: "x".repeat(NOMBRE_LARGO), ..proyecto() };
    assert!(proyectos::validate(&dto).is_ok());
    let dto = ProyectoInput { nombre: "x".repeat(NOMBRE_LARGO + 1), ..proyecto() };
    assert_eq!(keys(proyectos::validate(&dto).unwrap_err()), ["Validation.Proyecto.NombreMaxLength"]);
}

fn trabajo() -> TrabajoInput {
    TrabajoInput {
        obra_id: 1,
        descripcion: "Tendido de cañerías".to_owned(),
        fecha_inicio: dia(2026, 3, 1),
        fecha_fin: None,
        presupuesto: Money::from_units(100_000).unwrap(),
    }
}

#[test]
fn un_trabajo_minimo_es_valido() {
    assert!(trabajos::validate(&trabajo()).is_ok());
}

#[test]
fn la_fecha_de_fin_no_puede_preceder_a_la_de_inicio() {
    let dto = TrabajoInput { fecha_fin: Some(dia(2026, 3, 1) - 1), ..trabajo() };
    assert_eq!(keys(trabajos::validate(&dto).unwrap_err()), ["Validation.Trabajo.FechaFinInvalid"]);
}

#[test]
fn empezar_y_terminar_el_mismo_dia_es_valido() {
    let dto = TrabajoInput { fecha_fin: Some(dia(2026, 3, 1)), ..trabajo() };
    assert!(trabajos::validate(&dto).is_ok());
}

#[test]
fn el_presupuesto_no_puede_ser_negativo() {
    let dto = TrabajoInput { presupuesto: Money::from_units(-1).unwrap(), ..trabajo() };
    assert_eq!(keys(trabajos::validate(&dto).unwrap_err()), ["Validation.Trabajo.PresupuestoNegative"]);
}

#[test]
fn un_presupuesto_en_cero_es_valido() {
    let dto = TrabajoInput { presupuesto: Money::zero(), ..trabajo() };
    assert!(trabajos::validate(&dto).is_ok());
}

#[test]
fn la_obra_es_obligatoria() {
    let dto = TrabajoInput { obra_id: 0, ..trabajo() };
    assert_eq!(keys(trabajos::validate(&dto).unwrap_err()), ["Validation.Trabajo.ObraRequired"]);
}

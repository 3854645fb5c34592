//! Invoices and their payments: the total an invoice is stored with, its default due date, and
//! the rules that refuse a payment, a state change or a deletion.

use vstd::prelude::*;
use crate::dinero::{cabe_i64, resta_chk, suma_chk, suma_chk_seq, DomainError, Money};
use crate::error::{conflicto_con, dependencia_con, es_conflicto, es_dependencia, AppError};
use crate::texto::{decimal, texto_escalado, texto_u64};

verus! {

/// The life of an invoice.
#[derive(Debug, Clone, Copy, PartialEq, Eq, Structural)]
pub enum EstadoFactura {
    Borrador,
    Emitida,
    Vencida,
    Pagada,
    Anulada,
}

/// What the invoice form sends.
#[derive(Debug)]
pub struct FacturaInput {
    pub numero: String,
    pub fecha: i32,
    pub fecha_vencimiento: Option<i32>,
    pub cliente_id: u128,
    pub subtotal: Money,
    pub iva: Money,
    pub total: Money,
    pub observaciones: Option<String>,
}

/// The total is never taken from the form: it is the subtotal plus the tax, and the form's figure
/// stays only when that sum does not fit, so validation can refuse it.
pub fn con_total_recalculado(input: FacturaInput) -> (r: FacturaInput)
    ensures
        match suma_chk(input.subtotal@, input.iva@) {
            Some(t) => r == FacturaInput { total: Money { raw: t as i64 }, ..input },
            None => r == input,
        },
{
    let mut input = input;
    match input.subtotal.checked_add(input.iva) {
        Ok(total) => {
            input.total = total;
        },
        Err(_) => {},
    }
    input
}

/// A payment of an invoice as the balance check reads it.
#[derive(Debug, Clone, Copy, PartialEq, Eq, Structural)]
pub struct PagoRegistrado {
    pub id: u128,
    pub monto: Money,
    pub borrado: bool,
}

/// Whether a payment counts against the balance: not deleted, and not the one being edited.
pub open spec fn cuenta(p: PagoRegistrado, excluir: Option<u128>) -> bool {
    !p.borrado && excluir != Some(p.id)
}

/// The amounts of the payments that count, in order.
pub open spec fn montos_que_cuentan(ps: Seq<PagoRegistrado>, excluir: Option<u128>) -> Seq<int>
    decreases ps.len(),
{
    if ps.len() == 0 {
        seq![]
    } else if cuenta(ps.last(), excluir) {
        montos_que_cuentan(ps.drop_last(), excluir).push(ps.last().monto@)
    } else {
        montos_que_cuentan(ps.drop_last(), excluir)
    }
}

/// The number of payments not deleted.
pub open spec fn pagos_vivos(ps: Seq<PagoRegistrado>) -> nat
    decreases ps.len(),
{
    if ps.len() == 0 {
        0
    } else {
        pagos_vivos(ps.drop_last()) + if ps.last().borrado { 0nat } else { 1nat }
    }
}

/// The balance a new payment is held against: the total minus what the other payments took;
/// nothing when a sum overflows.
pub open spec fn saldo_disponible(ps: Seq<PagoRegistrado>, total: int, excluir: Option<u128>) -> Option<int> {
    match suma_chk_seq(montos_que_cuentan(ps, excluir)) {
        None => None,
        Some(ya) => resta_chk(total, ya),
    }
}

/// The refusal of a payment larger than the balance plus the tolerance.
pub open spec fn excede_saldo(e: AppError, saldo: int) -> bool {
    es_conflicto(e, "PAGO_EXCEDE_SALDO"@, "Validation.PagoFactura.ExcedeSaldo"@, seq![("saldo"@, texto_escalado(saldo))])
}

/// The refusal of a state that takes no payments.
pub open spec fn no_admite_pagos(e: AppError, estado: Seq<char>) -> bool {
    es_conflicto(e, "FACTURA_NO_ADMITE_PAGOS"@, "State.Factura.NoAdmitePagos"@, seq![("estado"@, estado)])
}

/// The settings the invoice rules read.
pub struct FacturasService {
    pub dias_vencimiento_default: u32,
    pub tolerancia_sobrepago: Money,
}

impl FacturasService {
    pub fn new(dias_vencimiento_default: u32, tolerancia_sobrepago: Money) -> (s: FacturasService)
        ensures
            s.dias_vencimiento_default == dias_vencimiento_default,
            s.tolerancia_sobrepago == tolerancia_sobrepago,
    {
        FacturasService { dias_vencimiento_default, tolerancia_sobrepago }
    }

    /// The payment term, in days, of an invoice created without a due date.
    pub fn dias_vencimiento(&self) -> (d: u32)
        ensures
            d == self.dias_vencimiento_default,
    {
        self.dias_vencimiento_default
    }

    /// The due date a new invoice is stored with: the one given, or the date plus the default
    /// term.
    pub fn vencimiento_inicial(&self, fecha: i32, fecha_vencimiento: Option<i32>) -> (r: i32)
        requires
            fecha_vencimiento is None ==> fecha + self.dias_vencimiento_default <= i32::MAX,
        ensures
            r == match fecha_vencimiento {
                Some(v) => v as int,
                None => fecha + self.dias_vencimiento_default,
            },
    {
        match fecha_vencimiento {
            Some(v) => v,
            None => (fecha as i64 + self.dias_vencimiento_default as i64) as i32,
        }
    }

    /// A payment may not take the invoice past its total by more than the configured tolerance.
    /// The other live payments count, the one being edited does not.
    pub fn ensure_no_excede_saldo(&self, pagos: &Vec<PagoRegistrado>, total: Money, monto: Money, excluir: Option<u128>) -> (r: Result<(), AppError>)
        ensures
            match saldo_disponible(pagos@, total@, excluir) {
                None => r matches Err(e) && e == AppError::Domain(DomainError::MoneyOverflow),
                Some(saldo) => match suma_chk(saldo, self.tolerancia_sobrepago@) {
                    None => r matches Err(e) && e == AppError::Domain(DomainError::MoneyOverflow),
                    Some(limite) => if monto@ > limite {
                        r matches Err(e) && excede_saldo(e, saldo)
                    } else {
                        r is Ok
                    },
                },
            },
    {
        let mut ya: i64 = 0;
        let mut i: usize = 0;
        let ghost mut montos: Seq<int> = seq![];
        let mut fallo = false;
        assert(pagos@.take(0) =~= Seq::<PagoRegistrado>::empty());
        while i < pagos.len()
            invariant
                i <= pagos@.len(),
                montos == montos_que_cuentan(pagos@.take(i as int), excluir),
                !fallo ==> suma_chk_seq(montos) == Some(ya as int),
                fallo ==> suma_chk_seq(montos) is None,
            decreases pagos@.len() - i,
        {
            let p = pagos[i];
            assert(pagos@.take(i + 1).drop_last() =~= pagos@.take(i as int));
            assert(pagos@.take(i + 1).last() == p);
            if !p.borrado && excluir != Some(p.id) {
                assert(montos.push(p.monto@).drop_last() =~= montos);
                if !fallo {
                    match ya.checked_add(p.monto.raw) {
                        Some(x) => {
                            ya = x;
                        },
                        None => {
                            fallo = true;
                        },
                    }
                }
                proof {
                    montos = montos.push(p.monto@);
                }
            }
            i = i + 1;
        }
        assert(pagos@.take(pagos@.len() as int) =~= pagos@);
        if fallo {
            return Err(AppError::Domain(DomainError::MoneyOverflow));
        }
        let saldo = match total.checked_sub(Money { raw: ya }) {
            Ok(s) => s,
            Err(e) => return Err(AppError::Domain(e)),
        };
        let limite = match saldo.checked_add(self.tolerancia_sobrepago) {
            Ok(l) => l,
            Err(e) => return Err(AppError::Domain(e)),
        };
        if monto.raw > limite.raw {
            return Err(
                conflicto_con(
                    "PAGO_EXCEDE_SALDO",
                    "Validation.PagoFactura.ExcedeSaldo",
                    "saldo",
                    saldo.to_decimal_string(),
                ),
            );
        }
        Ok(())
    }
}

/// A payment is only taken while the invoice's state admits one; whether it does, and the key of
/// the state, are the state machine's.
pub fn verificar_admite_pagos(admite: bool, estado: &str) -> (r: Result<(), AppError>)
    ensures
        admite ==> r is Ok,
        !admite ==> (r matches Err(e) && no_admite_pagos(e, estado@)),
{
    if admite {
        Ok(())
    } else {
        Err(conflicto_con("FACTURA_NO_ADMITE_PAGOS", "State.Factura.NoAdmitePagos", "estado", crate::texto::copia(estado)))
    }
}

/// The number of live payments.
pub fn contar_pagos_vivos(pagos: &Vec<PagoRegistrado>) -> (n: u64)
    ensures
        n == pagos_vivos(pagos@),
{
    let mut n: u64 = 0;
    let mut i: usize = 0;
    assert(pagos@.take(0) =~= Seq::<PagoRegistrado>::empty());
    while i < pagos.len()
        invariant
            i <= pagos@.len(),
            n == pagos_vivos(pagos@.take(i as int)),
            n <= i,
        decreases pagos@.len() - i,
    {
        assert(pagos@.take(i + 1).drop_last() =~= pagos@.take(i as int));
        if !pagos[i].borrado {
            n = n + 1;
        }
        i = i + 1;
    }
    assert(pagos@.take(pagos@.len() as int) =~= pagos@);
    n
}

/// The checks before a state change: an invoice with live payments can be neither annulled nor
/// taken back to draft, and only an invoice with a positive total can be issued.
pub fn verificar_transicion(pagos: &Vec<PagoRegistrado>, destino: EstadoFactura, total: Money) -> (r: Result<(), AppError>)
    ensures
        pagos_vivos(pagos@) > 0 && (destino == EstadoFactura::Anulada || destino == EstadoFactura::Borrador)
            ==> (r matches Err(e) && es_conflicto(
            e,
            "FACTURA_CON_PAGOS"@,
            "State.Factura.TienePagos"@,
            seq![("count"@, decimal(pagos_vivos(pagos@)))],
        )),
        !(pagos_vivos(pagos@) > 0 && (destino == EstadoFactura::Anulada || destino == EstadoFactura::Borrador))
            && destino == EstadoFactura::Emitida && total@ <= 0 ==> (r matches Err(e) && es_conflicto(
            e,
            "FACTURA_TOTAL_NO_POSITIVO"@,
            "State.Factura.RequiereTotalPositivo"@,
            seq![],
        )),
        !(pagos_vivos(pagos@) > 0 && (destino == EstadoFactura::Anulada || destino == EstadoFactura::Borrador))
            && !(destino == EstadoFactura::Emitida && total@ <= 0) ==> r is Ok,
{
    let n = contar_pagos_vivos(pagos);
    if n > 0 && (destino == EstadoFactura::Anulada || destino == EstadoFactura::Borrador) {
        return Err(conflicto_con("FACTURA_CON_PAGOS", "State.Factura.TienePagos", "count", texto_u64(n)));
    }
    if destino == EstadoFactura::Emitida && !total.is_positive() {
        let e = AppError::conflict("FACTURA_TOTAL_NO_POSITIVO", "State.Factura.RequiereTotalPositivo");
        assert(match e {
            AppError::Conflict { params, .. } => crate::error::params_v(params@) =~= seq![],
            _ => true,
        });
        return Err(e);
    }
    Ok(())
}

/// An invoice with live payments or with movements linked to it cannot be deleted; payments are
/// reported first.
pub fn verificar_borrado(pagos: &Vec<PagoRegistrado>, movimientos: u64) -> (r: Result<(), AppError>)
    ensures
        pagos_vivos(pagos@) > 0 ==> (r matches Err(e) && es_dependencia(
            e,
            "FACTURA_CON_PAGOS"@,
            "Conflict.Factura.ConPagos"@,
            seq![("count"@, decimal(pagos_vivos(pagos@)))],
        )),
        pagos_vivos(pagos@) == 0 && movimientos > 0 ==> (r matches Err(e) && es_dependencia(
            e,
            "FACTURA_CON_MOVIMIENTOS"@,
            "Conflict.Factura.ConMovimientos"@,
            seq![("count"@, decimal(movimientos as nat))],
        )),
        pagos_vivos(pagos@) == 0 && movimientos == 0 ==> r is Ok,
{
    let n = contar_pagos_vivos(pagos);
    if n > 0 {
        return Err(dependencia_con("FACTURA_CON_PAGOS", "Conflict.Factura.ConPagos", "count", texto_u64(n)));
    }
    if movimientos > 0 {
        return Err(
            dependencia_con("FACTURA_CON_MOVIMIENTOS", "Conflict.Factura.ConMovimientos", "count", texto_u64(movimientos)),
        );
    }
    Ok(())
}

} // verus!

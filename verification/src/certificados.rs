//! Certificates of progress: which lines of a work order a certificate advances, the ceiling of
//! one hundred percent against the certified history, and the amounts of the certificate.

use vstd::prelude::*;
use crate::dinero::{
    cabe_i64, mul_chk, pct_chk, resta_chk, suma_chk, suma_chk_seq, valores, Decimal4,
    DomainError, Money,
};
use crate::error::{campos_de, error_campo, es_conflicto, params_v, AppError, FieldError, FieldErrorV};
use crate::texto::{copia, decimal, texto_escalado};
use crate::validacion::{campo_indexado, nombre_indexado, resultado_de};
use crate::validacion::certificados::{errores_certificado, validate};
use crate::validacion::movimientos::{contexto_valido, ContextoFecha};

verus! {

/// A line of a work order.
#[derive(Debug)]
pub struct OrdenTrabajoItem {
    pub id: u128,
    pub descripcion: String,
    pub unidad: String,
    pub cantidad: Decimal4,
    pub precio_unitario: Money,
    pub porcentaje_anterior: Decimal4,
    pub porcentaje_actual: Decimal4,
    pub ejecutado: bool,
    pub orden: i32,
}

/// A work order with its lines.
#[derive(Debug)]
pub struct OrdenTrabajo {
    pub id: u128,
    pub titulo: String,
    pub ajuste_uocra_porcentaje: Decimal4,
    pub otros_descuentos: Money,
    pub items: Vec<OrdenTrabajoItem>,
}

/// One line of the issuing form.
#[derive(Debug, Clone, Copy)]
pub struct CertificadoInputItem {
    pub orden_trabajo_item_id: u128,
    pub porcentaje_actual: Decimal4,
}

/// The issuing form.
#[derive(Debug)]
pub struct CertificadoInput {
    pub orden_trabajo_id: u128,
    pub fecha: i32,
    pub observaciones: Option<String>,
    pub items: Vec<CertificadoInputItem>,
}

/// A line the certificate advances: where it is in the order, its position on the sheet, and
/// the percentage asked for.
#[derive(Debug, Clone, Copy, PartialEq, Eq, Structural)]
pub struct Avance {
    pub indice: usize,
    pub item_id: u128,
    pub orden: i32,
    pub porcentaje: Decimal4,
}

/// The amount a line is worth: quantity times unit price.
pub open spec fn base_de(item: OrdenTrabajoItem) -> Option<int> {
    mul_chk(item.precio_unitario@, item.cantidad@)
}

impl OrdenTrabajoItem {
    pub fn base(&self) -> (r: Result<Money, DomainError>)
        ensures
            match base_de(*self) {
                Some(b) => r == Ok::<Money, DomainError>(Money { raw: b as i64 }),
                None => r == Err::<Money, DomainError>(DomainError::MoneyOverflow),
            },
    {
        self.precio_unitario.checked_mul(self.cantidad)
    }
}

/// The first line of the order with this id.
pub open spec fn buscar_item(items: Seq<OrdenTrabajoItem>, id: u128) -> Option<int>
    decreases items.len(),
{
    if items.len() == 0 {
        None
    } else {
        match buscar_item(items.drop_last(), id) {
            Some(k) => Some(k),
            None => if items.last().id == id {
                Some(items.len() - 1)
            } else {
                None
            },
        }
    }
}

/// The first line of the form that names no line of the order.
pub open spec fn primer_ajeno(pedidos: Seq<CertificadoInputItem>, items: Seq<OrdenTrabajoItem>) -> Option<int>
    decreases pedidos.len(),
{
    if pedidos.len() == 0 {
        None
    } else {
        match primer_ajeno(pedidos.drop_last(), items) {
            Some(k) => Some(k),
            None => if buscar_item(items, pedidos.last().orden_trabajo_item_id) is None {
                Some(pedidos.len() - 1)
            } else {
                None
            },
        }
    }
}

/// The lines asked for with a positive percentage, in the order of the form.
pub open spec fn avances_en_orden_de_pedido(pedidos: Seq<CertificadoInputItem>, items: Seq<OrdenTrabajoItem>) -> Seq<Avance>
    decreases pedidos.len(),
{
    if pedidos.len() == 0 {
        seq![]
    } else {
        let resto = avances_en_orden_de_pedido(pedidos.drop_last(), items);
        let p = pedidos.last();
        match buscar_item(items, p.orden_trabajo_item_id) {
            Some(k) => if p.porcentaje_actual@ > 0 {
                resto.push(
                    Avance {
                        indice: k as usize,
                        item_id: p.orden_trabajo_item_id,
                        orden: items[k].orden,
                        porcentaje: p.porcentaje_actual,
                    },
                )
            } else {
                resto
            },
            None => resto,
        }
    }
}

/// `x` inserted after every element whose position on the sheet is not greater.
pub open spec fn insertar(s: Seq<Avance>, x: Avance) -> Seq<Avance>
    decreases s.len(),
{
    if s.len() == 0 {
        seq![x]
    } else if s.last().orden <= x.orden {
        s.push(x)
    } else {
        insertar(s.drop_last(), x).push(s.last())
    }
}

/// The stable sort by position on the sheet.
pub open spec fn ordenar(s: Seq<Avance>) -> Seq<Avance>
    decreases s.len(),
{
    if s.len() == 0 {
        seq![]
    } else {
        insertar(ordenar(s.drop_last()), s.last())
    }
}

/// Sorted by position on the sheet.
pub open spec fn ordenado(s: Seq<Avance>) -> bool {
    forall|i: int, j: int| 0 <= i < j < s.len() ==> s[i].orden <= s[j].orden
}

proof fn lema_insertar(s: Seq<Avance>, x: Avance, j: int)
    requires
        0 <= j <= s.len(),
        forall|k: int| j <= k < s.len() ==> s[k].orden > x.orden,
        j == 0 || s[j - 1].orden <= x.orden,
    ensures
        insertar(s, x) == s.insert(j, x),
    decreases s.len() - j,
{
    if s.len() == 0 {
        assert(s.insert(j, x) =~= seq![x]);
    } else if j == s.len() {
        assert(s.insert(j, x) =~= s.push(x));
    } else {
        lema_insertar(s.drop_last(), x, j);
        assert(s.insert(j, x) =~= s.drop_last().insert(j, x).push(s.last()));
    }
}

/// Where `insertar` puts `x`: after the last element whose position is not greater.
proof fn punto_insercion(s: Seq<Avance>, x: Avance) -> (j: int)
    ensures
        0 <= j <= s.len(),
        forall|k: int| j <= k < s.len() ==> s[k].orden > x.orden,
        j == 0 || s[j - 1].orden <= x.orden,
        insertar(s, x) == s.insert(j, x),
    decreases s.len(),
{
    if s.len() == 0 {
        lema_insertar(s, x, 0);
        0
    } else if s.last().orden <= x.orden {
        lema_insertar(s, x, s.len() as int);
        s.len() as int
    } else {
        let j = punto_insercion(s.drop_last(), x);
        assert forall|k: int| j <= k < s.len() implies s[k].orden > x.orden by {
            if k < s.len() - 1 {
                assert(s[k] == s.drop_last()[k]);
            }
        }
        if j > 0 {
            assert(s[j - 1] == s.drop_last()[j - 1]);
        }
        lema_insertar(s, x, j);
        j
    }
}

proof fn lema_insertar_ordenado(s: Seq<Avance>, x: Avance)
    requires
        ordenado(s),
    ensures
        ordenado(insertar(s, x)),
        insertar(s, x).len() == s.len() + 1,
{
    let j = punto_insercion(s, x);
    let t = s.insert(j, x);
    assert forall|a: int, b: int| 0 <= a < b < t.len() implies t[a].orden <= t[b].orden by {
        if a < j && b < j {
        } else if a < j && b == j {
            assert(s[a].orden <= s[j - 1].orden);
        } else if a < j {
            assert(t[b] == s[b - 1]);
        } else if a == j {
            assert(t[b] == s[b - 1]);
        } else {
            assert(t[a] == s[a - 1] && t[b] == s[b - 1]);
        }
    }
}

proof fn lema_ordenar_ordenado(s: Seq<Avance>)
    ensures
        ordenado(ordenar(s)),
        ordenar(s).len() == s.len(),
    decreases s.len(),
{
    if s.len() > 0 {
        lema_ordenar_ordenado(s.drop_last());
        lema_insertar_ordenado(ordenar(s.drop_last()), s.last());
    }
}

/// Inserts keeping the sheet order, after the lines with the same position.
fn insertar_avance(v: &mut Vec<Avance>, x: Avance)
    ensures
        final(v)@ == insertar(old(v)@, x),
{
    let mut j: usize = v.len();
    while j > 0 && v[j - 1].orden > x.orden
        invariant
            j <= v@.len(),
            v@ == old(v)@,
            forall|k: int| j <= k < v@.len() ==> v@[k].orden > x.orden,
        decreases j,
    {
        j = j - 1;
    }
    proof {
        lema_insertar(v@, x, j as int);
    }
    v.insert(j, x);
}

/// The index of the first line of the order with this id.
pub fn buscar(items: &Vec<OrdenTrabajoItem>, id: u128) -> (r: Option<usize>)
    ensures
        match buscar_item(items@, id) {
            Some(k) => r == Some(k as usize),
            None => r is None,
        },
{
    let mut i: usize = 0;
    while i < items.len()
        invariant
            i <= items@.len(),
            buscar_item(items@.take(i as int), id) is None,
        decreases items@.len() - i,
    {
        assert(items@.take(i + 1).drop_last() =~= items@.take(i as int));
        if items[i].id == id {
            proof {
                lema_buscar_prefijo(items@, id, i + 1, i as int);
            }
            return Some(i);
        }
        i = i + 1;
    }
    assert(items@.take(items@.len() as int) =~= items@);
    None
}

proof fn lema_buscar_prefijo(items: Seq<OrdenTrabajoItem>, id: u128, k: int, r: int)
    requires
        0 < k <= items.len(),
        buscar_item(items.take(k), id) == Some(r),
    ensures
        buscar_item(items, id) == Some(r),
    decreases items.len() - k,
{
    if k < items.len() {
        assert(items.take(k + 1).drop_last() =~= items.take(k));
        assert(buscar_item(items.take(k + 1), id) == Some(r));
        lema_buscar_prefijo(items, id, k + 1, r);
    } else {
        assert(items.take(k) =~= items);
    }
}

proof fn lema_buscar_en_rango(items: Seq<OrdenTrabajoItem>, id: u128)
    ensures
        buscar_item(items, id) matches Some(k) ==> 0 <= k < items.len() && items[k].id == id,
    decreases items.len(),
{
    if items.len() > 0 {
        lema_buscar_en_rango(items.drop_last(), id);
    }
}

proof fn lema_ajeno_prefijo(pedidos: Seq<CertificadoInputItem>, items: Seq<OrdenTrabajoItem>, k: int, r: int)
    requires
        0 < k <= pedidos.len(),
        primer_ajeno(pedidos.take(k), items) == Some(r),
    ensures
        primer_ajeno(pedidos, items) == Some(r),
    decreases pedidos.len() - k,
{
    if k < pedidos.len() {
        assert(pedidos.take(k + 1).drop_last() =~= pedidos.take(k));
        assert(primer_ajeno(pedidos.take(k + 1), items) == Some(r));
        lema_ajeno_prefijo(pedidos, items, k + 1, r);
    } else {
        assert(pedidos.take(k) =~= pedidos);
    }
}

/// Every advance points at a line of the order and carries its position.
pub open spec fn avances_validos(avs: Seq<Avance>, items: Seq<OrdenTrabajoItem>) -> bool {
    forall|i: int|
        0 <= i < avs.len() ==> (#[trigger] avs[i]).indice < items.len() && items[avs[i].indice as int].id
            == avs[i].item_id && items[avs[i].indice as int].orden == avs[i].orden
}

proof fn lema_avances_validos(pedidos: Seq<CertificadoInputItem>, items: Seq<OrdenTrabajoItem>)
    requires
        items.len() <= usize::MAX,
    ensures
        avances_validos(avances_en_orden_de_pedido(pedidos, items), items),
    decreases pedidos.len(),
{
    if pedidos.len() > 0 {
        lema_avances_validos(pedidos.drop_last(), items);
        lema_buscar_en_rango(items, pedidos.last().orden_trabajo_item_id);
        let resto = avances_en_orden_de_pedido(pedidos.drop_last(), items);
        let t = avances_en_orden_de_pedido(pedidos, items);
        assert forall|i: int| 0 <= i < t.len() implies (#[trigger] t[i]).indice < items.len()
            && items[t[i].indice as int].id == t[i].item_id && items[t[i].indice as int].orden
            == t[i].orden by {
            if i < resto.len() {
                assert(t[i] == resto[i]);
            }
        }
    }
}

proof fn lema_ordenar_validos(s: Seq<Avance>, items: Seq<OrdenTrabajoItem>)
    requires
        avances_validos(s, items),
    ensures
        avances_validos(ordenar(s), items),
    decreases s.len(),
{
    if s.len() > 0 {
        lema_ordenar_validos(s.drop_last(), items);
        let o = ordenar(s.drop_last());
        let x = s.last();
        let j = punto_insercion(o, x);
        let t = o.insert(j, x);
        assert forall|i: int| 0 <= i < t.len() implies (#[trigger] t[i]).indice < items.len()
            && items[t[i].indice as int].id == t[i].item_id && items[t[i].indice as int].orden
            == t[i].orden by {
            if i < j {
                assert(t[i] == o[i]);
            } else if i > j {
                assert(t[i] == o[i - 1]);
            } else {
                assert(t[i] == s[s.len() - 1]);
            }
        }
    }
}

/// Every advance certifies something: its percentage is positive.
pub open spec fn todos_positivos(s: Seq<Avance>) -> bool {
    forall|i: int| 0 <= i < s.len() ==> (#[trigger] s[i]).porcentaje@ > 0
}

proof fn lema_pedidos_positivos(pedidos: Seq<CertificadoInputItem>, items: Seq<OrdenTrabajoItem>)
    ensures
        todos_positivos(avances_en_orden_de_pedido(pedidos, items)),
    decreases pedidos.len(),
{
    if pedidos.len() > 0 {
        lema_pedidos_positivos(pedidos.drop_last(), items);
        let resto = avances_en_orden_de_pedido(pedidos.drop_last(), items);
        let t = avances_en_orden_de_pedido(pedidos, items);
        assert forall|i: int| 0 <= i < t.len() implies (#[trigger] t[i]).porcentaje@ > 0 by {
            if i < resto.len() {
                assert(t[i] == resto[i]);
            }
        }
    }
}

proof fn lema_ordenar_positivos(s: Seq<Avance>)
    requires
        todos_positivos(s),
    ensures
        todos_positivos(ordenar(s)),
    decreases s.len(),
{
    if s.len() > 0 {
        assert(todos_positivos(s.drop_last())) by {
            assert forall|i: int| 0 <= i < s.drop_last().len() implies (#[trigger] s.drop_last()[i]).porcentaje@ > 0 by {
                assert(s.drop_last()[i] == s[i]);
            }
        }
        lema_ordenar_positivos(s.drop_last());
        let o = ordenar(s.drop_last());
        let x = s.last();
        let j = punto_insercion(o, x);
        let t = o.insert(j, x);
        assert forall|i: int| 0 <= i < t.len() implies (#[trigger] t[i]).porcentaje@ > 0 by {
            if i < j {
                assert(t[i] == o[i]);
            } else if i > j {
                assert(t[i] == o[i - 1]);
            } else {
                assert(t[i] == s[s.len() - 1]);
            }
        }
    }
}

/// The lines of the order that this certificate advances, with the percentage asked for, in the
/// sheet's own order. A line of the form that names no line of the order is a stale form; lines
/// at zero are dropped, they certify nothing.
pub fn avances_pedidos(input: &CertificadoInput, orden: &OrdenTrabajo) -> (r: Result<Vec<Avance>, AppError>)
    ensures
        match primer_ajeno(input.items@, orden.items@) {
            Some(i) => r matches Err(e) && e is Validation && campos_de(e) == seq![
                error_campo(
                    campo_indexado("items"@, i as nat, "ordenTrabajoItemId"@),
                    "Validation.Common.EntityNotFound"@,
                ),
            ],
            None => r matches Ok(v) && v@ == ordenar(avances_en_orden_de_pedido(input.items@, orden.items@)),
        },
        r matches Ok(v) ==> ordenado(v@) && avances_validos(v@, orden.items@) && todos_positivos(v@),
{
    let mut pedidos: Vec<Avance> = Vec::new();
    let mut i: usize = 0;
    while i < input.items.len()
        invariant
            i <= input.items@.len(),
            primer_ajeno(input.items@.take(i as int), orden.items@) is None,
            pedidos@ == ordenar(avances_en_orden_de_pedido(input.items@.take(i as int), orden.items@)),
        decreases input.items@.len() - i,
    {
        let p = input.items[i];
        let _n = orden.items.len();
        assert(input.items@.take(i + 1).drop_last() =~= input.items@.take(i as int));
        assert(input.items@.take(i + 1).last() == p);
        let ghost previo = avances_en_orden_de_pedido(input.items@.take(i as int), orden.items@);
        match buscar(&orden.items, p.orden_trabajo_item_id) {
            None => {
                proof {
                    lema_ajeno_prefijo(input.items@, orden.items@, i + 1, i as int);
                }
                let mut v: Vec<FieldError> = Vec::new();
                v.push(
                    FieldError::new(
                        nombre_indexado("items", i, "ordenTrabajoItemId").as_str(),
                        "Validation.Common.EntityNotFound",
                    ),
                );
                let e = AppError::Validation(v);
                assert(campos_de(e) =~= seq![
                    error_campo(
                        campo_indexado("items"@, i as nat, "ordenTrabajoItemId"@),
                        "Validation.Common.EntityNotFound"@,
                    ),
                ]);
                return Err(e);
            },
            Some(k) => {
                proof {
                    lema_buscar_en_rango(orden.items@, p.orden_trabajo_item_id);
                }
                if p.porcentaje_actual.is_positive() {
                    let a = Avance {
                        indice: k,
                        item_id: p.orden_trabajo_item_id,
                        orden: orden.items[k].orden,
                        porcentaje: p.porcentaje_actual,
                    };
                    insertar_avance(&mut pedidos, a);
                    assert(avances_en_orden_de_pedido(input.items@.take(i + 1), orden.items@) == previo.push(a));
                    assert(previo.push(a).drop_last() =~= previo);
                } else {
                    assert(avances_en_orden_de_pedido(input.items@.take(i + 1), orden.items@) == previo);
                }
            },
        }
        i = i + 1;
    }
    assert(input.items@.take(input.items@.len() as int) =~= input.items@);
    let _n = orden.items.len();
    proof {
        lema_ordenar_ordenado(avances_en_orden_de_pedido(input.items@, orden.items@));
        lema_avances_validos(input.items@, orden.items@);
        lema_ordenar_validos(avances_en_orden_de_pedido(input.items@, orden.items@), orden.items@);
        lema_pedidos_positivos(input.items@, orden.items@);
        lema_ordenar_positivos(avances_en_orden_de_pedido(input.items@, orden.items@));
    }
    Ok(pedidos)
}

/// The percentage already certified for a line: the last entry for it, zero without history.
pub open spec fn acumulado_de(acumulados: Seq<(u128, Decimal4)>, id: u128) -> int
    decreases acumulados.len(),
{
    if acumulados.len() == 0 {
        0
    } else if acumulados.last().0 == id {
        acumulados.last().1@
    } else {
        acumulado_de(acumulados.drop_last(), id)
    }
}

/// The certified history of a line.
pub fn acumulado(acumulados: &Vec<(u128, Decimal4)>, id: u128) -> (d: Decimal4)
    ensures
        d@ == acumulado_de(acumulados@, id),
{
    let mut j: usize = acumulados.len();
    assert(acumulados@.take(j as int) =~= acumulados@);
    while j > 0
        invariant
            j <= acumulados@.len(),
            acumulado_de(acumulados@, id) == acumulado_de(acumulados@.take(j as int), id),
        decreases j,
    {
        assert(acumulados@.take(j as int).drop_last() =~= acumulados@.take(j - 1));
        if acumulados[j - 1].0 == id {
            return acumulados[j - 1].1;
        }
        j = j - 1;
    }
    Decimal4::zero()
}

/// The error of one advance that would take its line past one hundred percent.
pub open spec fn error_acumulado(i: int, descripcion: Seq<char>, anterior: int) -> FieldErrorV {
    FieldErrorV {
        campo: campo_indexado("items"@, i as nat, "porcentajeActual"@),
        clave: "Validation.Certificado.AcumuladoExcedido"@,
        params: seq![("item"@, descripcion), ("acumulado"@, texto_escalado(anterior))],
    }
}

/// The errors of the advances in `avs`, numbered from `desde`.
pub open spec fn errores_acumulado(
    avs: Seq<Avance>,
    items: Seq<OrdenTrabajoItem>,
    acumulados: Seq<(u128, Decimal4)>,
) -> Seq<FieldErrorV>
    decreases avs.len(),
{
    if avs.len() == 0 {
        seq![]
    } else {
        let a = avs.last();
        let anterior = acumulado_de(acumulados, a.item_id);
        let resto = errores_acumulado(avs.drop_last(), items, acumulados);
        if anterior + a.porcentaje@ > 1_000_000 {
            resto.push(error_acumulado(avs.len() - 1, items[a.indice as int].descripcion@, anterior))
        } else {
            resto
        }
    }
}

/// No advance takes its line past one hundred percent with its history.
pub open spec fn dentro_del_tope(avs: Seq<Avance>, acumulados: Seq<(u128, Decimal4)>) -> bool {
    forall|i: int| 0 <= i < avs.len() ==> acumulado_de(acumulados, (#[trigger] avs[i]).item_id) + avs[i].porcentaje@ <= 1_000_000
}

proof fn lema_sin_errores_acumulado(avs: Seq<Avance>, items: Seq<OrdenTrabajoItem>, acumulados: Seq<(u128, Decimal4)>)
    ensures
        errores_acumulado(avs, items, acumulados).len() == 0 <==> dentro_del_tope(avs, acumulados),
    decreases avs.len(),
{
    if avs.len() > 0 {
        let p = avs.drop_last();
        lema_sin_errores_acumulado(p, items, acumulados);
        if dentro_del_tope(avs, acumulados) {
            assert forall|i: int| 0 <= i < p.len() implies acumulado_de(acumulados, (#[trigger] p[i]).item_id) + p[i].porcentaje@ <= 1_000_000 by {
                assert(p[i] == avs[i]);
            }
            assert(avs[avs.len() - 1] == avs.last());
        }
        if errores_acumulado(avs, items, acumulados).len() == 0 {
            assert forall|i: int| 0 <= i < avs.len() implies acumulado_de(acumulados, (#[trigger] avs[i]).item_id) + avs[i].porcentaje@ <= 1_000_000 by {
                if i < avs.len() - 1 {
                    assert(p[i] == avs[i]);
                }
            }
        }
    }
}

/// The accumulated ceiling: no line may go past one hundred percent counting what it already has;
/// closing exactly at one hundred is allowed. Every offending line is reported.
pub fn verificar_acumulados(avances: &Vec<Avance>, orden: &OrdenTrabajo, acumulados: &Vec<(u128, Decimal4)>) -> (r: Result<(), AppError>)
    requires
        avances_validos(avances@, orden.items@),
    ensures
        r is Ok <==> errores_acumulado(avances@, orden.items@, acumulados@).len() == 0,
        r is Ok <==> dentro_del_tope(avances@, acumulados@),
        r matches Err(e) ==> e is Validation && campos_de(e) == errores_acumulado(avances@, orden.items@, acumulados@),
{
    let mut errores: Vec<FieldError> = Vec::new();
    let mut i: usize = 0;
    assert(avances@.take(0) =~= Seq::<Avance>::empty());
    while i < avances.len()
        invariant
            i <= avances@.len(),
            avances_validos(avances@, orden.items@),
            errores@.map_values(|f: FieldError| f@) == errores_acumulado(avances@.take(i as int), orden.items@, acumulados@),
        decreases avances@.len() - i,
    {
        let a = avances[i];
        assert(avances@.take(i + 1).drop_last() =~= avances@.take(i as int));
        assert(avances@.take(i + 1).last() == a);
        let anterior = acumulado(acumulados, a.item_id);
        let ghost antes = errores@;
        if anterior.raw as i128 + a.porcentaje.raw as i128 > 1_000_000 {
            let e = FieldError::new(
                nombre_indexado("items", i, "porcentajeActual").as_str(),
                "Validation.Certificado.AcumuladoExcedido",
            ).with_param("item", copia(orden.items[a.indice].descripcion.as_str())).with_param(
                "acumulado",
                anterior.to_decimal_string(),
            );
            errores.push(e);
            assert(e@.params =~= seq![("item"@, orden.items@[a.indice as int].descripcion@), ("acumulado"@, texto_escalado(anterior@))]);
            assert(e@ == error_acumulado(i as int, orden.items@[a.indice as int].descripcion@, anterior@));
            assert(errores@.map_values(|f: FieldError| f@) =~= antes.map_values(|f: FieldError| f@).push(e@));
        }
        i = i + 1;
    }
    assert(avances@.take(avances@.len() as int) =~= avances@);
    proof {
        lema_sin_errores_acumulado(avances@, orden.items@, acumulados@);
    }
    if errores.len() == 0 {
        Ok(())
    } else {
        Err(AppError::Validation(errores))
    }
}

/// A frozen line of an issued certificate.
#[derive(Debug, Clone, Copy, PartialEq, Eq, Structural)]
pub struct LineaCertificado {
    pub orden_trabajo_item_id: u128,
    pub cantidad: Decimal4,
    pub precio_unitario: Money,
    pub porcentaje_anterior: Decimal4,
    pub porcentaje_actual: Decimal4,
    pub subtotal_actual: Money,
    pub subtotal_acumulado: Money,
}

/// The line of an advance: its history, the new accumulated percentage, and both subtotals
/// applied to the line's base.
pub open spec fn linea_de(a: Avance, item: OrdenTrabajoItem, anterior: int) -> Option<LineaCertificado> {
    match suma_chk(anterior, a.porcentaje@) {
        None => None,
        Some(acumulado) => match base_de(item) {
            None => None,
            Some(base) => match pct_chk(base, a.porcentaje@) {
                None => None,
                Some(actual) => match pct_chk(base, acumulado) {
                    None => None,
                    Some(acum) => Some(
                        LineaCertificado {
                            orden_trabajo_item_id: item.id,
                            cantidad: item.cantidad,
                            precio_unitario: item.precio_unitario,
                            porcentaje_anterior: Decimal4 { raw: anterior as i64 },
                            porcentaje_actual: a.porcentaje,
                            subtotal_actual: Money { raw: actual as i64 },
                            subtotal_acumulado: Money { raw: acum as i64 },
                        },
                    ),
                },
            },
        },
    }
}

/// The lines of the advances, in order.
pub open spec fn lineas_de(
    avs: Seq<Avance>,
    items: Seq<OrdenTrabajoItem>,
    acumulados: Seq<(u128, Decimal4)>,
) -> Option<Seq<LineaCertificado>>
    decreases avs.len(),
{
    if avs.len() == 0 {
        Some(seq![])
    } else {
        match lineas_de(avs.drop_last(), items, acumulados) {
            None => None,
            Some(ls) => match linea_de(
                avs.last(),
                items[avs.last().indice as int],
                acumulado_de(acumulados, avs.last().item_id),
            ) {
                None => None,
                Some(l) => Some(ls.push(l)),
            },
        }
    }
}

/// The bases of every line of the order, in order.
pub open spec fn bases_de(items: Seq<OrdenTrabajoItem>) -> Option<Seq<int>>
    decreases items.len(),
{
    if items.len() == 0 {
        Some(seq![])
    } else {
        match bases_de(items.drop_last()) {
            None => None,
            Some(bs) => match base_de(items.last()) {
                None => None,
                Some(b) => Some(bs.push(b)),
            },
        }
    }
}

/// The subtotals of a list of lines.
pub open spec fn subtotales(ls: Seq<LineaCertificado>) -> Seq<int> {
    ls.map_values(|l: LineaCertificado| l.subtotal_actual@)
}

/// The share of the order that a certificate covers, as a percentage: zero when it cannot be
/// computed.
pub open spec fn proporcion(total_certificado: int, total_orden: int) -> int {
    let q = if total_orden > 0 {
        crate::dinero::cociente_escalado(total_certificado, total_orden)
    } else {
        0
    };
    if total_orden != 0 && cabe_i64(q) && cabe_i64(q * 100) {
        q * 100
    } else {
        0
    }
}

/// The amounts of a certificate.
pub struct Importes {
    pub total_certificado: int,
    pub ajuste_uocra: int,
    pub otros_descuentos: int,
    pub total_neto: int,
}

/// The certificate's amounts. The order's other discounts are spread in proportion to what the
/// certificate covers of the order, never beyond what earlier certificates left, and never beyond
/// the certificate's own total plus the adjustment.
pub open spec fn importes_de(orden: OrdenTrabajo, lineas: Seq<LineaCertificado>, ya_descontado: int) -> Option<Importes> {
    match suma_chk_seq(subtotales(lineas)) {
        None => None,
        Some(total) => match pct_chk(total, orden.ajuste_uocra_porcentaje@) {
            None => None,
            Some(ajuste) => {
                let disponible = match resta_chk(orden.otros_descuentos@, ya_descontado) {
                    Some(d) => d,
                    None => 0,
                };
                match bases_de(orden.items@) {
                    None => None,
                    Some(bases) => match suma_chk_seq(bases) {
                        None => None,
                        Some(total_orden) => {
                            let a_aplicar = if total_orden > 0 && orden.otros_descuentos@ > 0 {
                                match pct_chk(orden.otros_descuentos@, proporcion(total, total_orden)) {
                                    None => None,
                                    Some(prop) => Some(if prop <= disponible { prop } else { disponible }),
                                }
                            } else {
                                Some(disponible)
                            };
                            match a_aplicar {
                                None => None,
                                Some(desc) => match suma_chk(total, ajuste) {
                                    None => None,
                                    Some(previo) => {
                                        let otros = if desc <= previo { desc } else { previo };
                                        match resta_chk(previo, otros) {
                                            None => None,
                                            Some(neto) => Some(
                                                Importes {
                                                    total_certificado: total,
                                                    ajuste_uocra: ajuste,
                                                    otros_descuentos: otros,
                                                    total_neto: neto,
                                                },
                                            ),
                                        }
                                    },
                                },
                            }
                        },
                    },
                }
            },
        },
    }
}

/// The other discounts a certificate applies are the least of: the order's other discounts in
/// the share of the order the certificate covers (when the order and its discounts are positive),
/// what earlier certificates left of them, and the certificate's own total plus adjustment.
pub open spec fn descuento_proporcional(orden: OrdenTrabajo, ya_descontado: int, total: int, ajuste: int, otros: int) -> bool {
    let disponible = match resta_chk(orden.otros_descuentos@, ya_descontado) {
        Some(d) => d,
        None => 0,
    };
    &&& otros <= disponible
    &&& otros <= total + ajuste
    &&& (otros == disponible || otros == total + ajuste || (total_orden_de(orden) > 0 && orden.otros_descuentos@ > 0
        && pct_chk(orden.otros_descuentos@, proporcion(total, total_orden_de(orden))) == Some(otros)))
    &&& (total_orden_de(orden) > 0 && orden.otros_descuentos@ > 0) ==> (pct_chk(orden.otros_descuentos@, proporcion(total, total_orden_de(orden))) matches Some(p) && otros <= p)
}

/// The worth of the whole order: the sum of its lines' bases, zero when it cannot be computed.
pub open spec fn total_orden_de(orden: OrdenTrabajo) -> int {
    match bases_de(orden.items@) {
        Some(bs) => match suma_chk_seq(bs) {
            Some(t) => t,
            None => 0,
        },
        None => 0,
    }
}

/// A certificate takes of the order's other discounts no more than its proportional share of the
/// order and no more than earlier certificates left; it takes the least of those two and its own
/// total plus adjustment.
pub proof fn los_otros_descuentos_son_la_parte_proporcional(orden: OrdenTrabajo, lineas: Seq<LineaCertificado>, ya_descontado: int)
    ensures
        importes_de(orden, lineas, ya_descontado) matches Some(imp) ==> descuento_proporcional(
            orden,
            ya_descontado,
            imp.total_certificado,
            imp.ajuste_uocra,
            imp.otros_descuentos,
        ),
{
}

/// The computed certificate.
#[derive(Debug)]
pub struct CalculoCertificado {
    pub lineas: Vec<LineaCertificado>,
    pub total_certificado: Money,
    pub ajuste_uocra: Money,
    pub otros_descuentos: Money,
    pub total_neto: Money,
}

fn a_app(e: DomainError) -> (r: AppError)
    ensures
        r == AppError::Domain(e),
{
    AppError::Domain(e)
}

/// The bases of every line of the order.
fn bases(items: &Vec<OrdenTrabajoItem>) -> (r: Result<Vec<Money>, AppError>)
    ensures
        match bases_de(items@) {
            Some(bs) => r matches Ok(v) && valores(v@) == bs,
            None => r matches Err(e) && e == AppError::Domain(DomainError::MoneyOverflow),
        },
{
    let mut v: Vec<Money> = Vec::new();
    let mut i: usize = 0;
    assert(items@.take(0) =~= Seq::<OrdenTrabajoItem>::empty());
    assert(valores(v@) =~= Seq::<int>::empty());
    while i < items.len()
        invariant
            i <= items@.len(),
            bases_de(items@.take(i as int)) == Some(valores(v@)),
        decreases items@.len() - i,
    {
        assert(items@.take(i + 1).drop_last() =~= items@.take(i as int));
        assert(items@.take(i + 1).last() == items@[i as int]);
        match items[i].base() {
            Ok(b) => {
                let ghost antes = v@;
                v.push(b);
                assert(valores(v@) =~= valores(antes).push(b@));
            },
            Err(e) => {
                proof {
                    lema_bases_prefijo(items@, i + 1);
                }
                return Err(a_app(e));
            },
        }
        i = i + 1;
    }
    assert(items@.take(items@.len() as int) =~= items@);
    Ok(v)
}

proof fn lema_bases_prefijo(items: Seq<OrdenTrabajoItem>, k: int)
    requires
        0 <= k <= items.len(),
        bases_de(items.take(k)) is None,
    ensures
        bases_de(items) is None,
    decreases items.len() - k,
{
    if k < items.len() {
        assert(items.take(k + 1).drop_last() =~= items.take(k));
        lema_bases_prefijo(items, k + 1);
    } else {
        assert(items.take(k) =~= items);
    }
}

proof fn lema_lineas_prefijo(avs: Seq<Avance>, items: Seq<OrdenTrabajoItem>, acumulados: Seq<(u128, Decimal4)>, k: int)
    requires
        0 <= k <= avs.len(),
        lineas_de(avs.take(k), items, acumulados) is None,
    ensures
        lineas_de(avs, items, acumulados) is None,
    decreases avs.len() - k,
{
    if k < avs.len() {
        assert(avs.take(k + 1).drop_last() =~= avs.take(k));
        lema_lineas_prefijo(avs, items, acumulados, k + 1);
    } else {
        assert(avs.take(k) =~= avs);
    }
}

fn linea(a: Avance, item: &OrdenTrabajoItem, anterior: Decimal4) -> (r: Result<LineaCertificado, AppError>)
    ensures
        match linea_de(a, *item, anterior@) {
            Some(l) => r == Ok::<LineaCertificado, AppError>(l),
            None => r matches Err(e) && e == AppError::Domain(DomainError::MoneyOverflow),
        },
{
    let acumulado = match anterior.checked_add(a.porcentaje) {
        Ok(x) => x,
        Err(e) => return Err(a_app(e)),
    };
    let base = match item.base() {
        Ok(b) => b,
        Err(e) => return Err(a_app(e)),
    };
    let actual = match base.percent(a.porcentaje) {
        Ok(x) => x,
        Err(e) => return Err(a_app(e)),
    };
    let acum = match base.percent(acumulado) {
        Ok(x) => x,
        Err(e) => return Err(a_app(e)),
    };
    Ok(
        LineaCertificado {
            orden_trabajo_item_id: item.id,
            cantidad: item.cantidad,
            precio_unitario: item.precio_unitario,
            porcentaje_anterior: anterior,
            porcentaje_actual: a.porcentaje,
            subtotal_actual: actual,
            subtotal_acumulado: acum,
        },
    )
}

/// The lines and amounts of the certificate that `avances` would issue on `orden`, given the
/// certified history in `acumulados` and the other discounts `ya_descontado` by earlier
/// certificates. An arithmetic overflow is a domain error.
pub fn calcular_certificado(
    orden: &OrdenTrabajo,
    avances: &Vec<Avance>,
    acumulados: &Vec<(u128, Decimal4)>,
    ya_descontado: Money,
) -> (r: Result<CalculoCertificado, AppError>)
    requires
        avances_validos(avances@, orden.items@),
    ensures
        match lineas_de(avances@, orden.items@, acumulados@) {
            None => r matches Err(e) && e == AppError::Domain(DomainError::MoneyOverflow),
            Some(ls) => match importes_de(*orden, ls, ya_descontado@) {
                None => r matches Err(e) && e == AppError::Domain(DomainError::MoneyOverflow),
                Some(imp) => r matches Ok(c) && c.lineas@ == ls && c.total_certificado@
                    == imp.total_certificado && c.ajuste_uocra@ == imp.ajuste_uocra
                    && c.otros_descuentos@ == imp.otros_descuentos && c.total_neto@
                    == imp.total_neto,
            },
        },
        r matches Ok(c) ==> descuento_proporcional(*orden, ya_descontado@, c.total_certificado@, c.ajuste_uocra@, c.otros_descuentos@),
{
    proof {
        match lineas_de(avances@, orden.items@, acumulados@) {
            Some(ls) => los_otros_descuentos_son_la_parte_proporcional(*orden, ls, ya_descontado@),
            None => {},
        }
    }
    let mut lineas: Vec<LineaCertificado> = Vec::new();
    let mut i: usize = 0;
    assert(avances@.take(0) =~= Seq::<Avance>::empty());
    while i < avances.len()
        invariant
            i <= avances@.len(),
            avances_validos(avances@, orden.items@),
            lineas_de(avances@.take(i as int), orden.items@, acumulados@) == Some(lineas@),
        decreases avances@.len() - i,
    {
        let a = avances[i];
        assert(avances@.take(i + 1).drop_last() =~= avances@.take(i as int));
        assert(avances@.take(i + 1).last() == a);
        let anterior = acumulado(acumulados, a.item_id);
        match linea(a, &orden.items[a.indice], anterior) {
            Ok(l) => {
                lineas.push(l);
            },
            Err(e) => {
                proof {
                    lema_lineas_prefijo(avances@, orden.items@, acumulados@, i + 1);
                }
                return Err(e);
            },
        }
        i = i + 1;
    }
    assert(avances@.take(avances@.len() as int) =~= avances@);
    let mut subs: Vec<Money> = Vec::new();
    let mut j: usize = 0;
    while j < lineas.len()
        invariant
            j <= lineas@.len(),
            subs@.len() == j,
            valores(subs@) =~= subtotales(lineas@).take(j as int),
        decreases lineas@.len() - j,
    {
        let ghost antes = subs@;
        subs.push(lineas[j].subtotal_actual);
        assert(valores(subs@) =~= valores(antes).push(lineas@[j as int].subtotal_actual@));
        j = j + 1;
    }
    assert(subtotales(lineas@).take(lineas@.len() as int) =~= subtotales(lineas@));
    let total_certificado = match Money::try_sum(&subs) {
        Ok(t) => t,
        Err(e) => return Err(a_app(e)),
    };
    let ajuste_uocra = match total_certificado.percent(orden.ajuste_uocra_porcentaje) {
        Ok(x) => x,
        Err(e) => return Err(a_app(e)),
    };
    let disponible = match orden.otros_descuentos.checked_sub(ya_descontado) {
        Ok(d) => d,
        Err(_) => Money::zero(),
    };
    let bs = bases(&orden.items)?;
    let total_orden = match Money::try_sum(&bs) {
        Ok(t) => t,
        Err(e) => return Err(a_app(e)),
    };
    let a_aplicar = if total_orden.raw > 0 && orden.otros_descuentos.raw > 0 {
        let pct = match Decimal4::from_raw(total_certificado.raw).checked_div(Decimal4::from_raw(total_orden.raw)) {
            Ok(q) => match q.checked_mul(Decimal4::hundred()) {
                Ok(p) => p,
                Err(_) => Decimal4::zero(),
            },
            Err(_) => Decimal4::zero(),
        };
        proof {
            let q = crate::dinero::cociente_escalado(total_certificado@, total_orden@);
            assert(crate::dinero::producto_escalado(q, 1_000_000) == q * 100) by (nonlinear_arith)
                requires
                    crate::dinero::producto_escalado(q, 1_000_000) == crate::dinero::div_redondeo(q * 1_000_000, 10_000),
            {
                assert((q * 1_000_000) % 10_000 == 0);
                assert((-(q * 1_000_000)) % 10_000 == 0);
            }
            assert(pct@ == proporcion(total_certificado@, total_orden@));
        }
        let prop = match orden.otros_descuentos.percent(pct) {
            Ok(x) => x,
            Err(e) => return Err(a_app(e)),
        };
        prop.min(disponible)
    } else {
        disponible
    };
    let neto_previo = match total_certificado.checked_add(ajuste_uocra) {
        Ok(x) => x,
        Err(e) => return Err(a_app(e)),
    };
    let otros_descuentos = a_aplicar.min(neto_previo);
    let total_neto = match neto_previo.checked_sub(otros_descuentos) {
        Ok(x) => x,
        Err(e) => return Err(a_app(e)),
    };
    Ok(
        CalculoCertificado {
            lineas,
            total_certificado,
            ajuste_uocra,
            otros_descuentos,
            total_neto,
        },
    )
}

/// What a certificate leaves on a line of the order.
#[derive(Debug, Clone, Copy, PartialEq, Eq, Structural)]
pub struct ActualizacionAvance {
    pub item_id: u128,
    pub porcentaje_anterior: Decimal4,
    pub porcentaje_actual: Decimal4,
    pub ejecutado: bool,
}

/// After issuing: the certified percentage joins the history, nothing is pending, and a line at
/// one hundred percent or more is executed.
pub open spec fn tras_emitir(l: LineaCertificado) -> Option<ActualizacionAvance> {
    match suma_chk(l.porcentaje_anterior@, l.porcentaje_actual@) {
        None => None,
        Some(x) => Some(
            ActualizacionAvance {
                item_id: l.orden_trabajo_item_id,
                porcentaje_anterior: Decimal4 { raw: x as i64 },
                porcentaje_actual: Decimal4 { raw: 0 },
                ejecutado: x >= 1_000_000,
            },
        ),
    }
}

pub open spec fn plan_emision_v(ls: Seq<LineaCertificado>) -> Option<Seq<ActualizacionAvance>>
    decreases ls.len(),
{
    if ls.len() == 0 {
        Some(seq![])
    } else {
        match plan_emision_v(ls.drop_last()) {
            None => None,
            Some(p) => match tras_emitir(ls.last()) {
                None => None,
                Some(u) => Some(p.push(u)),
            },
        }
    }
}

proof fn lema_emision_prefijo(ls: Seq<LineaCertificado>, k: int)
    requires
        0 <= k <= ls.len(),
        plan_emision_v(ls.take(k)) is None,
    ensures
        plan_emision_v(ls) is None,
    decreases ls.len() - k,
{
    if k < ls.len() {
        assert(ls.take(k + 1).drop_last() =~= ls.take(k));
        lema_emision_prefijo(ls, k + 1);
    } else {
        assert(ls.take(k) =~= ls);
    }
}

/// The updates of the order's lines once a certificate with these lines is issued.
pub fn plan_emision(lineas: &Vec<LineaCertificado>) -> (r: Result<Vec<ActualizacionAvance>, AppError>)
    ensures
        match plan_emision_v(lineas@) {
            Some(p) => r matches Ok(v) && v@ == p,
            None => r matches Err(e) && e == AppError::Domain(DomainError::MoneyOverflow),
        },
{
    let mut v: Vec<ActualizacionAvance> = Vec::new();
    let mut i: usize = 0;
    assert(lineas@.take(0) =~= Seq::<LineaCertificado>::empty());
    while i < lineas.len()
        invariant
            i <= lineas@.len(),
            plan_emision_v(lineas@.take(i as int)) == Some(v@),
        decreases lineas@.len() - i,
    {
        let l = lineas[i];
        assert(lineas@.take(i + 1).drop_last() =~= lineas@.take(i as int));
        assert(lineas@.take(i + 1).last() == l);
        match l.porcentaje_anterior.checked_add(l.porcentaje_actual) {
            Ok(x) => {
                v.push(
                    ActualizacionAvance {
                        item_id: l.orden_trabajo_item_id,
                        porcentaje_anterior: x,
                        porcentaje_actual: Decimal4::zero(),
                        ejecutado: x.raw >= 1_000_000,
                    },
                );
            },
            Err(e) => {
                proof {
                    lema_emision_prefijo(lineas@, i + 1);
                }
                return Err(a_app(e));
            },
        }
        i = i + 1;
    }
    assert(lineas@.take(lineas@.len() as int) =~= lineas@);
    Ok(v)
}

/// A line of an issued certificate, as stored.
#[derive(Debug, Clone, Copy, PartialEq, Eq, Structural)]
pub struct LineaEmitida {
    pub orden_trabajo_item_id: u128,
    pub porcentaje_actual: Decimal4,
}

/// Annulling gives the line back the percentage the certificate took: it leaves the history and
/// becomes pending again; a line no longer in the order is skipped.
pub open spec fn tras_anular(l: LineaEmitida, items: Seq<OrdenTrabajoItem>) -> Option<Option<ActualizacionAvance>> {
    match buscar_item(items, l.orden_trabajo_item_id) {
        None => Some(None),
        Some(k) => match resta_chk(items[k].porcentaje_anterior@, l.porcentaje_actual@) {
            None => None,
            Some(x) => Some(
                Some(
                    ActualizacionAvance {
                        item_id: items[k].id,
                        porcentaje_anterior: Decimal4 { raw: x as i64 },
                        porcentaje_actual: l.porcentaje_actual,
                        ejecutado: x >= 1_000_000,
                    },
                ),
            ),
        },
    }
}

pub open spec fn plan_anulacion_v(ls: Seq<LineaEmitida>, items: Seq<OrdenTrabajoItem>) -> Option<Seq<ActualizacionAvance>>
    decreases ls.len(),
{
    if ls.len() == 0 {
        Some(seq![])
    } else {
        match plan_anulacion_v(ls.drop_last(), items) {
            None => None,
            Some(p) => match tras_anular(ls.last(), items) {
                None => None,
                Some(None) => Some(p),
                Some(Some(u)) => Some(p.push(u)),
            },
        }
    }
}

proof fn lema_anulacion_prefijo(ls: Seq<LineaEmitida>, items: Seq<OrdenTrabajoItem>, k: int)
    requires
        0 <= k <= ls.len(),
        plan_anulacion_v(ls.take(k), items) is None,
    ensures
        plan_anulacion_v(ls, items) is None,
    decreases ls.len() - k,
{
    if k < ls.len() {
        assert(ls.take(k + 1).drop_last() =~= ls.take(k));
        lema_anulacion_prefijo(ls, items, k + 1);
    } else {
        assert(ls.take(k) =~= ls);
    }
}

/// The refusal to annul a certificate that is not the last one of its order.
pub open spec fn no_es_ultimo(e: AppError, ultimo: i32) -> bool {
    e matches AppError::Conflict { code, message_key, params } && code@ == "CERTIFICADO_NO_ULTIMO"@
        && message_key@ == "Validation.Certificado.NoEsUltimo"@ && crate::error::params_v(params@)
        == seq![("ultimo"@, crate::texto::decimal_con_signo(ultimo as int))]
}

/// Only the last certificate of an order can be annulled; then every line gets back what it
/// consumed.
pub fn plan_anulacion(numero: i32, ultimo: i32, lineas: &Vec<LineaEmitida>, items: &Vec<OrdenTrabajoItem>) -> (r: Result<Vec<ActualizacionAvance>, AppError>)
    ensures
        numero != ultimo ==> (r matches Err(e) && no_es_ultimo(e, ultimo)),
        numero == ultimo ==> match plan_anulacion_v(lineas@, items@) {
            Some(p) => r matches Ok(v) && v@ == p,
            None => r matches Err(e) && e == AppError::Domain(DomainError::MoneyOverflow),
        },
{
    if numero != ultimo {
        let mut params: Vec<(String, String)> = Vec::new();
        params.push((copia("ultimo"), crate::texto::texto_i64(ultimo as i64)));
        let e = AppError::Conflict {
            code: copia("CERTIFICADO_NO_ULTIMO"),
            message_key: copia("Validation.Certificado.NoEsUltimo"),
            params,
        };
        assert(crate::error::params_v(params@) =~= seq![("ultimo"@, crate::texto::decimal_con_signo(ultimo as int))]);
        return Err(e);
    }
    let mut v: Vec<ActualizacionAvance> = Vec::new();
    let mut i: usize = 0;
    assert(lineas@.take(0) =~= Seq::<LineaEmitida>::empty());
    while i < lineas.len()
        invariant
            i <= lineas@.len(),
            numero == ultimo,
            plan_anulacion_v(lineas@.take(i as int), items@) == Some(v@),
        decreases lineas@.len() - i,
    {
        let l = lineas[i];
        assert(lineas@.take(i + 1).drop_last() =~= lineas@.take(i as int));
        assert(lineas@.take(i + 1).last() == l);
        match buscar(items, l.orden_trabajo_item_id) {
            None => {},
            Some(k) => {
                proof {
                    lema_buscar_en_rango(items@, l.orden_trabajo_item_id);
                }
                let ghost j = buscar_item(items@, l.orden_trabajo_item_id)->0;
                assert(0 <= j < items.len());
                assert(j == k as int);
                match items[k].porcentaje_anterior.checked_sub(l.porcentaje_actual) {
                    Ok(x) => {
                        v.push(
                            ActualizacionAvance {
                                item_id: items[k].id,
                                porcentaje_anterior: x,
                                porcentaje_actual: l.porcentaje_actual,
                                ejecutado: x.raw >= 1_000_000,
                            },
                        );
                    },
                    Err(e) => {
                        proof {
                            lema_anulacion_prefijo(lineas@, items@, i + 1);
                        }
                        return Err(a_app(e));
                    },
                }
            },
        }
        i = i + 1;
    }
    assert(lineas@.take(lineas@.len() as int) =~= lineas@);
    Ok(v)
}

/// A line of the issuing form, prefilled with what it has certified and what is left.
#[derive(Debug)]
pub struct BorradorItem {
    pub orden_trabajo_item_id: u128,
    pub descripcion: String,
    pub unidad: String,
    pub cantidad: Decimal4,
    pub precio_unitario: Money,
    pub porcentaje_acumulado_anterior: Decimal4,
    pub porcentaje_disponible: Decimal4,
    pub porcentaje_actual: Decimal4,
    pub base: Money,
    pub subtotal_acumulado_anterior: Money,
}

/// The prefilled line of an order's line.
pub open spec fn borrador_ok(b: BorradorItem, item: OrdenTrabajoItem, acumulados: Seq<(u128, Decimal4)>) -> bool {
    let anterior = acumulado_de(acumulados, item.id);
    &&& b.orden_trabajo_item_id == item.id
    &&& b.descripcion@ == item.descripcion@
    &&& b.unidad@ == item.unidad@
    &&& b.cantidad == item.cantidad
    &&& b.precio_unitario == item.precio_unitario
    &&& b.porcentaje_acumulado_anterior@ == anterior
    &&& b.porcentaje_disponible@ == 1_000_000 - anterior
    &&& b.porcentaje_actual == item.porcentaje_actual
    &&& base_de(item) == Some(b.base@)
    &&& pct_chk(b.base@, anterior) == Some(b.subtotal_acumulado_anterior@)
}

/// Whether every line can be prefilled without overflow.
pub open spec fn borrador_posible(items: Seq<OrdenTrabajoItem>, acumulados: Seq<(u128, Decimal4)>) -> bool {
    forall|i: int|
        0 <= i < items.len() ==> {
            let anterior = acumulado_de(acumulados, #[trigger] items[i].id);
            &&& cabe_i64(1_000_000 - anterior)
            &&& base_de(items[i]) matches Some(b) && pct_chk(b, anterior) is Some
        }
}

/// The prefilled lines of the issuing form, one per line of the order, in order.
pub fn borrador_items(items: &Vec<OrdenTrabajoItem>, acumulados: &Vec<(u128, Decimal4)>) -> (r: Result<Vec<BorradorItem>, AppError>)
    ensures
        r is Ok <==> borrador_posible(items@, acumulados@),
        r matches Ok(v) ==> v@.len() == items@.len() && forall|i: int|
            0 <= i < items@.len() ==> borrador_ok(#[trigger] v@[i], items@[i], acumulados@),
        r matches Err(e) ==> e == AppError::Domain(DomainError::MoneyOverflow),
{
    let mut v: Vec<BorradorItem> = Vec::new();
    let mut i: usize = 0;
    while i < items.len()
        invariant
            i <= items@.len(),
            v@.len() == i,
            forall|k: int| 0 <= k < i ==> borrador_ok(#[trigger] v@[k], items@[k], acumulados@),
            forall|k: int|
                0 <= k < i ==> {
                    let anterior = acumulado_de(acumulados@, #[trigger] items@[k].id);
                    &&& cabe_i64(1_000_000 - anterior)
                    &&& base_de(items@[k]) matches Some(b) && pct_chk(b, anterior) is Some
                },
        decreases items@.len() - i,
    {
        let item = &items[i];
        let anterior = acumulado(acumulados, item.id);
        let disponible = match Decimal4::hundred().checked_sub(anterior) {
            Ok(d) => d,
            Err(e) => return Err(a_app(e)),
        };
        let base = match item.base() {
            Ok(b) => b,
            Err(e) => return Err(a_app(e)),
        };
        let sub = match base.percent(anterior) {
            Ok(x) => x,
            Err(e) => return Err(a_app(e)),
        };
        v.push(
            BorradorItem {
                orden_trabajo_item_id: item.id,
                descripcion: copia(item.descripcion.as_str()),
                unidad: copia(item.unidad.as_str()),
                cantidad: item.cantidad,
                precio_unitario: item.precio_unitario,
                porcentaje_acumulado_anterior: anterior,
                porcentaje_disponible: disponible,
                porcentaje_actual: item.porcentaje_actual,
                base,
                subtotal_acumulado_anterior: sub,
            },
        );
        i = i + 1;
    }
    Ok(v)
}

/// An issued certificate: its number, its lines and amounts, and what it leaves on the order.
#[derive(Debug)]
pub struct Emision {
    pub numero: i32,
    pub calculo: CalculoCertificado,
    pub actualizaciones: Vec<ActualizacionAvance>,
}

/// The error a validation with these field errors gives.
pub open spec fn es_validacion(e: AppError, errores: Seq<FieldErrorV>) -> bool {
    e is Validation && campos_de(e) == errores
}

/// Issuing a certificate, step by step: the form is checked, every line must name a line of the
/// order, something must advance, no line may pass one hundred percent with its history, the
/// number is one past the last ever issued, and the lines, amounts and updates follow.
pub open spec fn emision_ok(
    r: Result<Emision, AppError>,
    input: CertificadoInput,
    fechas: ContextoFecha,
    orden: OrdenTrabajo,
    acumulados: Seq<(u128, Decimal4)>,
    ultimo: i32,
    descontados: Seq<Money>,
) -> bool {
    let avs = ordenar(avances_en_orden_de_pedido(input.items@, orden.items@));
    if errores_certificado(input, fechas).len() > 0 {
        r matches Err(e) && es_validacion(e, errores_certificado(input, fechas))
    } else if primer_ajeno(input.items@, orden.items@) is Some {
        r matches Err(e) && es_validacion(e, seq![
            error_campo(campo_indexado("items"@, primer_ajeno(input.items@, orden.items@)->0 as nat, "ordenTrabajoItemId"@), "Validation.Common.EntityNotFound"@),
        ])
    } else if avs.len() == 0 {
        r matches Err(e) && es_conflicto(e, "CERTIFICADO_VACIO"@, "Validation.Certificado.SinAvance"@, seq![])
    } else if errores_acumulado(avs, orden.items@, acumulados).len() > 0 {
        r matches Err(e) && es_validacion(e, errores_acumulado(avs, orden.items@, acumulados))
    } else {
        match (lineas_de(avs, orden.items@, acumulados), suma_chk_seq(valores(descontados))) {
            (None, _) => r matches Err(e) && e == AppError::Domain(DomainError::MoneyOverflow),
            (_, None) => r matches Err(e) && e == AppError::Domain(DomainError::MoneyOverflow),
            (Some(ls), Some(ya_descontado)) => match importes_de(orden, ls, ya_descontado) {
                None => r matches Err(e) && e == AppError::Domain(DomainError::MoneyOverflow),
                Some(imp) => match plan_emision_v(ls) {
                    None => r matches Err(e) && e == AppError::Domain(DomainError::MoneyOverflow),
                    Some(p) => r matches Ok(em) && em.numero == ultimo + 1 && em.calculo.lineas@ == ls
                        && em.calculo.total_certificado@ == imp.total_certificado
                        && em.calculo.ajuste_uocra@ == imp.ajuste_uocra
                        && em.calculo.otros_descuentos@ == imp.otros_descuentos
                        && em.calculo.total_neto@ == imp.total_neto && em.actualizaciones@ == p,
                },
            },
        }
    }
}

/// Annulling a certificate gives every line back exactly what issuing it took: the history it
/// had before, and the percentage as pending again.
pub proof fn anular_deshace_emitir(l: LineaCertificado, items: Seq<OrdenTrabajoItem>, k: int)
    requires
        buscar_item(items, l.orden_trabajo_item_id) == Some(k),
        tras_emitir(l) matches Some(u) && items[k].porcentaje_anterior == u.porcentaje_anterior,
    ensures
        tras_anular(LineaEmitida { orden_trabajo_item_id: l.orden_trabajo_item_id, porcentaje_actual: l.porcentaje_actual }, items)
            == Some(
            Some(
                ActualizacionAvance {
                    item_id: l.orden_trabajo_item_id,
                    porcentaje_anterior: l.porcentaje_anterior,
                    porcentaje_actual: l.porcentaje_actual,
                    ejecutado: l.porcentaje_anterior@ >= 1_000_000,
                },
            ),
        ),
{
    lema_buscar_en_rango(items, l.orden_trabajo_item_id);
}

/// The lines of an issued certificate, as stored.
pub open spec fn emitidas(ls: Seq<LineaCertificado>) -> Seq<LineaEmitida> {
    ls.map_values(|l: LineaCertificado| LineaEmitida { orden_trabajo_item_id: l.orden_trabajo_item_id, porcentaje_actual: l.porcentaje_actual })
}

/// What annulling gives a line back: the history it had before the certificate, and the
/// certificate's percentage as pending again.
pub open spec fn devuelta(l: LineaCertificado) -> ActualizacionAvance {
    ActualizacionAvance {
        item_id: l.orden_trabajo_item_id,
        porcentaje_anterior: l.porcentaje_anterior,
        porcentaje_actual: l.porcentaje_actual,
        ejecutado: l.porcentaje_anterior@ >= 1_000_000,
    }
}

proof fn lema_plan_emision(ls: Seq<LineaCertificado>)
    requires
        plan_emision_v(ls) is Some,
    ensures
        plan_emision_v(ls)->0.len() == ls.len(),
        forall|i: int| 0 <= i < ls.len() ==> tras_emitir(#[trigger] ls[i]) == Some(plan_emision_v(ls)->0[i]),
    decreases ls.len(),
{
    if ls.len() > 0 {
        lema_plan_emision(ls.drop_last());
        assert forall|i: int| 0 <= i < ls.len() implies tras_emitir(#[trigger] ls[i]) == Some(plan_emision_v(ls)->0[i]) by {
            if i < ls.len() - 1 {
                assert(ls[i] == ls.drop_last()[i]);
            }
        }
    }
}

/// Annulling the last certificate undoes its issue: when every line of the order still holds
/// what the issue left on it, the annulment gives each line of the certificate back its previous
/// history and its percentage as pending, in the certificate's order.
pub proof fn anular_deshace_la_emision(ls: Seq<LineaCertificado>, items: Seq<OrdenTrabajoItem>)
    requires
        plan_emision_v(ls) is Some,
        forall|i: int| 0 <= i < ls.len() ==> (buscar_item(items, (#[trigger] ls[i]).orden_trabajo_item_id) matches Some(k)
            && items[k].porcentaje_anterior == plan_emision_v(ls)->0[i].porcentaje_anterior),
    ensures
        plan_anulacion_v(emitidas(ls), items) == Some(ls.map_values(|l: LineaCertificado| devuelta(l))),
    decreases ls.len(),
{
    lema_plan_emision(ls);
    if ls.len() == 0 {
        assert(emitidas(ls) =~= Seq::<LineaEmitida>::empty());
        assert(ls.map_values(|l: LineaCertificado| devuelta(l)) =~= Seq::<ActualizacionAvance>::empty());
    } else {
        let p = ls.drop_last();
        lema_plan_emision(p);
        assert forall|i: int| 0 <= i < p.len() implies (buscar_item(items, (#[trigger] p[i]).orden_trabajo_item_id) matches Some(k)
            && items[k].porcentaje_anterior == plan_emision_v(p)->0[i].porcentaje_anterior) by {
            assert(p[i] == ls[i]);
            assert(tras_emitir(ls[i]) == Some(plan_emision_v(ls)->0[i]));
            assert(tras_emitir(p[i]) == Some(plan_emision_v(p)->0[i]));
        }
        anular_deshace_la_emision(p, items);
        let l = ls.last();
        let n = ls.len() - 1;
        assert(ls[n] == l);
        let k = buscar_item(items, l.orden_trabajo_item_id)->0;
        anular_deshace_emitir(l, items, k);
        assert(emitidas(ls).drop_last() =~= emitidas(p));
        assert(emitidas(ls).last() == LineaEmitida { orden_trabajo_item_id: l.orden_trabajo_item_id, porcentaje_actual: l.porcentaje_actual });
        assert(ls.map_values(|x: LineaCertificado| devuelta(x)) =~= p.map_values(|x: LineaCertificado| devuelta(x)).push(devuelta(l)));
    }
}

/// The net of a certificate is its total plus the adjustment minus the other discounts, and those
/// discounts never take it below zero.
pub proof fn el_neto_del_certificado(orden: OrdenTrabajo, lineas: Seq<LineaCertificado>, ya_descontado: int)
    ensures
        importes_de(orden, lineas, ya_descontado) matches Some(imp) ==> imp.total_neto == imp.total_certificado
            + imp.ajuste_uocra - imp.otros_descuentos && imp.otros_descuentos <= imp.total_certificado + imp.ajuste_uocra,
{
}

/// The certificates' service: it holds nothing the rules read.
pub struct CertificadosService {}

impl CertificadosService {
    pub fn new() -> (s: CertificadosService) {
        CertificadosService {  }
    }

    /// A certificate that advances nothing is not issued.
    pub fn verificar_no_vacio(&self, avances: &Vec<Avance>) -> (r: Result<(), AppError>)
        ensures
            avances@.len() > 0 ==> r is Ok,
            avances@.len() == 0 ==> (r matches Err(e) && es_conflicto(e, "CERTIFICADO_VACIO"@, "Validation.Certificado.SinAvance"@, seq![])),
    {
        if avances.len() > 0 {
            Ok(())
        } else {
            let e = AppError::conflict("CERTIFICADO_VACIO", "Validation.Certificado.SinAvance");
            assert(match e {
                AppError::Conflict { params, .. } => params_v(params@) =~= seq![],
                _ => true,
            });
            Err(e)
        }
    }

    /// The number of the next certificate: one past the last ever issued, never the count, so an
    /// annulled certificate keeps its number spent.
    pub fn siguiente_numero(&self, ultimo: i32) -> (n: i32)
        requires
            ultimo < i32::MAX,
        ensures
            n == ultimo + 1,
    {
        ultimo + 1
    }

    /// Issues a certificate on `orden`, whose last certificate is number `ultimo`, given the
    /// certified history of its lines and the other discounts each earlier certificate applied,
    /// which are summed.
    pub fn emitir(
        &self,
        input: &CertificadoInput,
        fechas: &ContextoFecha,
        orden: &OrdenTrabajo,
        acumulados: &Vec<(u128, Decimal4)>,
        ultimo: i32,
        descontados: &Vec<Money>,
    ) -> (r: Result<Emision, AppError>)
        requires
            contexto_valido(*fechas),
            ultimo < i32::MAX,
        ensures
            emision_ok(r, *input, *fechas, *orden, acumulados@, ultimo, descontados@),
    {
        match validate(input, fechas) {
            Ok(()) => {},
            Err(e) => return Err(e),
        }
        let avances = match avances_pedidos(input, orden) {
            Ok(v) => v,
            Err(e) => return Err(e),
        };
        match self.verificar_no_vacio(&avances) {
            Ok(()) => {},
            Err(e) => return Err(e),
        }
        match verificar_acumulados(&avances, orden, acumulados) {
            Ok(()) => {},
            Err(e) => return Err(e),
        }
        let numero = self.siguiente_numero(ultimo);
        let ya_descontado = match Money::try_sum(descontados) {
            Ok(t) => t,
            Err(e) => return Err(a_app(e)),
        };
        let calculo = match calcular_certificado(orden, &avances, acumulados, ya_descontado) {
            Ok(c) => c,
            Err(e) => return Err(e),
        };
        let actualizaciones = match plan_emision(&calculo.lineas) {
            Ok(v) => v,
            Err(e) => return Err(e),
        };
        Ok(Emision { numero, calculo, actualizaciones })
    }

    /// Annuls certificate `numero` of an order whose last is `ultimo`: only the last can go, and
    /// then each of its lines gives back what it took.
    pub fn anular(&self, numero: i32, ultimo: i32, lineas: &Vec<LineaEmitida>, items: &Vec<OrdenTrabajoItem>) -> (r: Result<Vec<ActualizacionAvance>, AppError>)
        ensures
            numero != ultimo ==> (r matches Err(e) && no_es_ultimo(e, ultimo)),
            numero == ultimo ==> match plan_anulacion_v(lineas@, items@) {
                Some(p) => r matches Ok(v) && v@ == p,
                None => r matches Err(e) && e == AppError::Domain(DomainError::MoneyOverflow),
            },
    {
        plan_anulacion(numero, ultimo, lineas, items)
    }
}

} // verus!

//! Receivables: a customer's statement and the ageing of what is owed. Both read the same pending
//! invoices, so the debt a customer shows on one screen is the debt they show on the other.

use vstd::prelude::*;
use vstd::string::*;
use crate::dinero::{cabe_i64, resta_chk, suma_chk, DomainError, Money};
use crate::error::AppError;
use crate::facturas::EstadoFactura;
use crate::texto::{copia, lex_asimetrico, lex_menor, lex_negativamente_transitivo, menor_lex};

verus! {

/// Debt split by age. The four buckets always add up to the total.
#[derive(Debug, Clone, Copy, PartialEq, Eq, Structural)]
pub struct BucketsDeuda {
    pub total: Money,
    pub b0a30: Money,
    pub b31a60: Money,
    pub b61a90: Money,
    pub mas90: Money,
}

/// No debt at all.
pub open spec fn buckets_vacios() -> BucketsDeuda {
    BucketsDeuda {
        total: Money { raw: 0 },
        b0a30: Money { raw: 0 },
        b31a60: Money { raw: 0 },
        b61a90: Money { raw: 0 },
        mas90: Money { raw: 0 },
    }
}

impl Default for BucketsDeuda {
    fn default() -> (r: BucketsDeuda)
        ensures
            r == buckets_vacios(),
    {
        BucketsDeuda {
            total: Money { raw: 0 },
            b0a30: Money { raw: 0 },
            b31a60: Money { raw: 0 },
            b61a90: Money { raw: 0 },
            mas90: Money { raw: 0 },
        }
    }
}

/// The bucket a debt this many days old falls in: up to the first bound inclusive, then up to the
/// second, then up to the third, then beyond. Bounds that are not exactly three put everything in
/// the last bucket, so a broken setting never loses money.
pub open spec fn tramo(dias: int, limites: Seq<u32>) -> int {
    if limites.len() != 3 {
        3
    } else if dias <= limites[0] {
        0
    } else if dias <= limites[1] {
        1
    } else if dias <= limites[2] {
        2
    } else {
        3
    }
}

/// The amount in a bucket.
pub open spec fn en_tramo(b: BucketsDeuda, t: int) -> int {
    if t == 0 {
        b.b0a30@
    } else if t == 1 {
        b.b31a60@
    } else if t == 2 {
        b.b61a90@
    } else {
        b.mas90@
    }
}

/// The buckets with one of them replaced.
pub open spec fn con_tramo(b: BucketsDeuda, t: int, m: Money) -> BucketsDeuda {
    if t == 0 {
        BucketsDeuda { b0a30: m, ..b }
    } else if t == 1 {
        BucketsDeuda { b31a60: m, ..b }
    } else if t == 2 {
        BucketsDeuda { b61a90: m, ..b }
    } else {
        BucketsDeuda { mas90: m, ..b }
    }
}

/// A debt of `saldo`, `dias` old, added to the buckets; nothing when a sum overflows.
pub open spec fn sumar(b: BucketsDeuda, dias: int, saldo: int, limites: Seq<u32>) -> Option<BucketsDeuda> {
    let t = tramo(dias, limites);
    match (suma_chk(b.total@, saldo), suma_chk(en_tramo(b, t), saldo)) {
        (Some(total), Some(m)) => Some(con_tramo(BucketsDeuda { total: Money { raw: total as i64 }, ..b }, t, Money { raw: m as i64 })),
        _ => None,
    }
}

/// The four buckets add up to the total.
pub open spec fn cuadra(b: BucketsDeuda) -> bool {
    b.b0a30@ + b.b31a60@ + b.b61a90@ + b.mas90@ == b.total@
}

impl BucketsDeuda {
    /// Adds a debt to its bucket and to the total; on overflow nothing changes.
    pub fn add(&mut self, dias: i64, saldo: Money, limites: &[u32]) -> (r: Result<(), DomainError>)
        ensures
            match sumar(*old(self), dias as int, saldo@, limites@) {
                Some(b) => r is Ok && *final(self) == b,
                None => r == Err::<(), DomainError>(DomainError::MoneyOverflow) && *final(self) == *old(self),
            },
    {
        let t: u8 = if limites.len() != 3 {
            3
        } else if dias <= limites[0] as i64 {
            0
        } else if dias <= limites[1] as i64 {
            1
        } else if dias <= limites[2] as i64 {
            2
        } else {
            3
        };
        assert(t as int == tramo(dias as int, limites@));
        let actual = if t == 0 {
            self.b0a30
        } else if t == 1 {
            self.b31a60
        } else if t == 2 {
            self.b61a90
        } else {
            self.mas90
        };
        let total = match self.total.checked_add(saldo) {
            Ok(x) => x,
            Err(e) => return Err(e),
        };
        let nuevo = match actual.checked_add(saldo) {
            Ok(x) => x,
            Err(e) => return Err(e),
        };
        self.total = total;
        if t == 0 {
            self.b0a30 = nuevo;
        } else if t == 1 {
            self.b31a60 = nuevo;
        } else if t == 2 {
            self.b61a90 = nuevo;
        } else {
            self.mas90 = nuevo;
        }
        Ok(())
    }
}

/// Empty buckets add up.
pub proof fn los_buckets_vacios_cuadran()
    ensures
        cuadra(buckets_vacios()),
{
}

/// Adding a debt keeps the four buckets adding up to the total, whatever the bounds.
pub proof fn los_buckets_suman_el_total(b: BucketsDeuda, dias: int, saldo: int, limites: Seq<u32>)
    requires
        cuadra(b),
    ensures
        sumar(b, dias, saldo, limites) matches Some(b2) ==> cuadra(b2),
{
}

/// An invoice with something still owed, as the statement and the ageing read it.
#[derive(Debug)]
pub struct FacturaPendiente {
    pub id: u128,
    pub cliente_id: u128,
    pub cliente_nombre: String,
    pub numero: String,
    pub fecha: i32,
    pub fecha_vencimiento: Option<i32>,
    pub estado: EstadoFactura,
    pub total: Money,
    pub pagado: Money,
}

/// What is still owed: the total minus what was paid, never below zero, so an overpayment does
/// not become a negative debt; nothing when the difference overflows.
pub open spec fn saldo_de(total: int, pagado: int) -> Option<int> {
    match resta_chk(total, pagado) {
        Some(x) => Some(if x < 0 { 0 } else { x }),
        None => None,
    }
}

/// The date debt is aged from: the due date when there is one, else the invoice date plus the
/// default term.
pub open spec fn base_de(f: FacturaPendiente, dias_default: int) -> int {
    match f.fecha_vencimiento {
        Some(v) => v as int,
        None => f.fecha + dias_default,
    }
}

/// Days in arrears: none once settled, none before the base date.
pub open spec fn mora(f: FacturaPendiente, saldo: int, hoy: int, dias_default: int) -> int {
    if saldo <= 0 {
        0
    } else if hoy - base_de(f, dias_default) < 0 {
        0
    } else {
        hoy - base_de(f, dias_default)
    }
}

impl FacturaPendiente {
    pub fn saldo(&self) -> (r: Result<Money, DomainError>)
        ensures
            match saldo_de(self.total@, self.pagado@) {
                Some(s) => r == Ok::<Money, DomainError>(Money { raw: s as i64 }),
                None => r == Err::<Money, DomainError>(DomainError::MoneyOverflow),
            },
    {
        match self.total.checked_sub(self.pagado) {
            Ok(s) => if s.raw < 0 {
                Ok(Money { raw: 0 })
            } else {
                Ok(s)
            },
            Err(e) => Err(e),
        }
    }

    pub fn fecha_base(&self, dias_default: u32) -> (r: i64)
        ensures
            r == base_de(*self, dias_default as int),
    {
        match self.fecha_vencimiento {
            Some(v) => v as i64,
            None => self.fecha as i64 + dias_default as i64,
        }
    }
}

/// Days in arrears. Zero once the invoice is settled: a paid row is never late, however long it
/// took.
pub fn dias_mora(factura: &FacturaPendiente, saldo: Money, hoy: i32, dias_default: u32) -> (r: i64)
    ensures
        r == mora(*factura, saldo@, hoy as int, dias_default as int),
{
    if !saldo.is_positive() {
        return 0;
    }
    let d = hoy as i64 - factura.fecha_base(dias_default);
    if d < 0 {
        0
    } else {
        d
    }
}

/// A line of the statement.
#[derive(Debug)]
pub struct CuentaCorrienteFactura {
    pub id: u128,
    pub numero: String,
    pub fecha: i32,
    pub fecha_vencimiento: Option<i32>,
    pub estado: EstadoFactura,
    pub total: Money,
    pub pagado: Money,
    pub saldo: Money,
    pub dias_mora: i64,
}

/// What a statement line says.
pub struct FilaV {
    pub id: u128,
    pub numero: Seq<char>,
    pub fecha: i32,
    pub fecha_vencimiento: Option<i32>,
    pub estado: EstadoFactura,
    pub total: Money,
    pub pagado: Money,
    pub saldo: Money,
    pub dias_mora: i64,
}

impl View for CuentaCorrienteFactura {
    type V = FilaV;

    open spec fn view(&self) -> FilaV {
        FilaV {
            id: self.id,
            numero: self.numero@,
            fecha: self.fecha,
            fecha_vencimiento: self.fecha_vencimiento,
            estado: self.estado,
            total: self.total,
            pagado: self.pagado,
            saldo: self.saldo,
            dias_mora: self.dias_mora,
        }
    }
}

/// The statement line of an invoice with balance `saldo`.
pub open spec fn fila_de(f: FacturaPendiente, saldo: int, hoy: int, dias_default: int) -> FilaV {
    FilaV {
        id: f.id,
        numero: f.numero@,
        fecha: f.fecha,
        fecha_vencimiento: f.fecha_vencimiento,
        estado: f.estado,
        total: f.total,
        pagado: f.pagado,
        saldo: Money { raw: saldo as i64 },
        dias_mora: mora(f, saldo, hoy, dias_default) as i64,
    }
}

/// The lines of a statement, in the order of the invoices, with its three totals.
pub struct EstadoCuenta {
    pub filas: Seq<FilaV>,
    pub facturado: int,
    pub pagado: int,
    pub saldo: int,
}

/// The statement built from the invoices in order: a settled invoice is history and only shows
/// when it was asked for; nothing when a balance or a total overflows.
pub open spec fn estado_cuenta(fs: Seq<FacturaPendiente>, incluir_pagadas: bool, hoy: int, dias_default: int) -> Option<EstadoCuenta>
    decreases fs.len(),
{
    if fs.len() == 0 {
        Some(EstadoCuenta { filas: seq![], facturado: 0, pagado: 0, saldo: 0 })
    } else {
        match estado_cuenta(fs.drop_last(), incluir_pagadas, hoy, dias_default) {
            None => None,
            Some(e) => {
                let f = fs.last();
                match saldo_de(f.total@, f.pagado@) {
                    None => None,
                    Some(s) => if s == 0 && !incluir_pagadas {
                        Some(e)
                    } else {
                        match (suma_chk(e.facturado, f.total@), suma_chk(e.pagado, f.pagado@), suma_chk(e.saldo, s)) {
                            (Some(a), Some(b), Some(c)) => Some(
                                EstadoCuenta {
                                    filas: e.filas.push(fila_de(f, s, hoy, dias_default)),
                                    facturado: a,
                                    pagado: b,
                                    saldo: c,
                                },
                            ),
                            _ => None,
                        }
                    },
                }
            },
        }
    }
}

/// Newer first: a later date, and on the same date the larger number.
pub open spec fn precede(a: FilaV, b: FilaV) -> bool {
    a.fecha > b.fecha || (a.fecha == b.fecha && lex_menor(b.numero, a.numero))
}

/// `x` placed after every line it does not precede.
pub open spec fn insertar_fila(s: Seq<FilaV>, x: FilaV) -> Seq<FilaV>
    decreases s.len(),
{
    if s.len() == 0 {
        seq![x]
    } else if !precede(x, s.last()) {
        s.push(x)
    } else {
        insertar_fila(s.drop_last(), x).push(s.last())
    }
}

/// The stable sort of the statement, newest first.
pub open spec fn ordenar_filas(s: Seq<FilaV>) -> Seq<FilaV>
    decreases s.len(),
{
    if s.len() == 0 {
        seq![]
    } else {
        insertar_fila(ordenar_filas(s.drop_last()), s.last())
    }
}

proof fn lema_insertar_fila(s: Seq<FilaV>, x: FilaV, j: int)
    requires
        0 <= j <= s.len(),
        forall|k: int| j <= k < s.len() ==> precede(x, #[trigger] s[k]),
        j == 0 || !precede(x, s[j - 1]),
    ensures
        insertar_fila(s, x) == s.insert(j, x),
    decreases s.len() - j,
{
    if s.len() == 0 {
        assert(s.insert(j, x) =~= seq![x]);
    } else if j == s.len() {
        assert(s.insert(j, x) =~= s.push(x));
    } else {
        assert(precede(x, s[s.len() - 1]));
        lema_insertar_fila(s.drop_last(), x, j);
        assert(s.insert(j, x) =~= s.drop_last().insert(j, x).push(s.last()));
    }
}

/// The view of each line.
pub open spec fn filas_v(v: Seq<CuentaCorrienteFactura>) -> Seq<FilaV> {
    v.map_values(|f: CuentaCorrienteFactura| f@)
}

/// Whether `a` goes before `b` in the statement.
fn precede_exec(a: &CuentaCorrienteFactura, b: &CuentaCorrienteFactura) -> (r: bool)
    ensures
        r == precede(a@, b@),
{
    a.fecha > b.fecha || (a.fecha == b.fecha && menor_lex(b.numero.as_str(), a.numero.as_str()))
}

/// Inserts a line keeping the statement sorted, after the lines it does not precede.
fn insertar_en_cuenta(v: &mut Vec<CuentaCorrienteFactura>, x: CuentaCorrienteFactura)
    ensures
        filas_v(final(v)@) == insertar_fila(filas_v(old(v)@), x@),
{
    let mut j: usize = v.len();
    while j > 0 && precede_exec(&x, &v[j - 1])
        invariant
            j <= v@.len(),
            v@ == old(v)@,
            forall|k: int| j <= k < v@.len() ==> precede(x@, #[trigger] filas_v(v@)[k]),
        decreases j,
    {
        j = j - 1;
    }
    proof {
        lema_insertar_fila(filas_v(v@), x@, j as int);
    }
    let ghost antes = v@;
    v.insert(j, x);
    assert(filas_v(v@) =~= filas_v(antes).insert(j as int, x@));
}

/// A customer's statement.
#[derive(Debug)]
pub struct CuentaCorriente {
    pub cliente_id: u128,
    pub cliente_nombre: String,
    pub total_facturado: Money,
    pub total_pagado: Money,
    pub saldo: Money,
    pub facturas: Vec<CuentaCorrienteFactura>,
}

/// A customer's row of the ageing.
#[derive(Debug)]
pub struct AntiguedadDeudaCliente {
    pub cliente_id: u128,
    pub cliente_nombre: String,
    pub total: Money,
    pub bucket0a30: Money,
    pub bucket31a60: Money,
    pub bucket61a90: Money,
    pub bucket_mas90: Money,
}

/// What a customer's group of the ageing says.
pub struct GrupoV {
    pub id: u128,
    pub nombre: Seq<char>,
    pub buckets: BucketsDeuda,
}

impl View for AntiguedadDeudaCliente {
    type V = GrupoV;

    open spec fn view(&self) -> GrupoV {
        GrupoV {
            id: self.cliente_id,
            nombre: self.cliente_nombre@,
            buckets: BucketsDeuda {
                total: self.total,
                b0a30: self.bucket0a30,
                b31a60: self.bucket31a60,
                b61a90: self.bucket61a90,
                mas90: self.bucket_mas90,
            },
        }
    }
}

/// The ageing of the receivables.
#[derive(Debug)]
pub struct AntiguedadDeuda {
    pub fecha_corte: i32,
    pub total: Money,
    pub bucket0a30: Money,
    pub bucket31a60: Money,
    pub bucket61a90: Money,
    pub bucket_mas90: Money,
    pub limites: Vec<u32>,
    pub detalle: Vec<AntiguedadDeudaCliente>,
}

/// The first position whose customer is not below `id`.
pub open spec fn posicion_grupo(gs: Seq<GrupoV>, id: u128) -> nat
    decreases gs.len(),
{
    if gs.len() == 0 {
        0
    } else if gs[0].id >= id {
        0
    } else {
        1 + posicion_grupo(gs.drop_first(), id)
    }
}

/// A debt added to its customer's group, creating the group in id order the first time.
pub open spec fn acumular_grupo(gs: Seq<GrupoV>, id: u128, nombre: Seq<char>, dias: int, saldo: int, limites: Seq<u32>) -> Option<Seq<GrupoV>> {
    let k = posicion_grupo(gs, id) as int;
    if k < gs.len() && gs[k].id == id {
        match sumar(gs[k].buckets, dias, saldo, limites) {
            Some(b) => Some(gs.update(k, GrupoV { buckets: b, ..gs[k] })),
            None => None,
        }
    } else {
        match sumar(buckets_vacios(), dias, saldo, limites) {
            Some(b) => Some(gs.insert(k, GrupoV { id, nombre, buckets: b })),
            None => None,
        }
    }
}

/// The days a debt has aged at the cut date, never negative.
pub open spec fn edad(f: FacturaPendiente, corte: int, dias_default: int) -> int {
    if corte - base_de(f, dias_default) < 0 {
        0
    } else {
        corte - base_de(f, dias_default)
    }
}

/// One invoice aged into the global buckets and its customer's group; only positive balances age;
/// nothing on overflow.
pub open spec fn paso_antiguedad(g: BucketsDeuda, gs: Seq<GrupoV>, f: FacturaPendiente, corte: int, dias_default: int, limites: Seq<u32>) -> Option<(BucketsDeuda, Seq<GrupoV>)> {
    match saldo_de(f.total@, f.pagado@) {
        None => None,
        Some(s) => if s <= 0 {
            Some((g, gs))
        } else {
            let dias = edad(f, corte, dias_default);
            match sumar(g, dias, s, limites) {
                None => None,
                Some(g2) => match acumular_grupo(gs, f.cliente_id, f.cliente_nombre@, dias, s, limites) {
                    None => None,
                    Some(gs2) => Some((g2, gs2)),
                },
            }
        },
    }
}

/// The global buckets and the customers' groups, sorted by customer id, after the invoices in
/// order; nothing on overflow.
pub open spec fn antiguedad(fs: Seq<FacturaPendiente>, corte: int, dias_default: int, limites: Seq<u32>) -> Option<(BucketsDeuda, Seq<GrupoV>)>
    decreases fs.len(),
{
    if fs.len() == 0 {
        Some((buckets_vacios(), seq![]))
    } else {
        match antiguedad(fs.drop_last(), corte, dias_default, limites) {
            None => None,
            Some((g, gs)) => paso_antiguedad(g, gs, fs.last(), corte, dias_default, limites),
        }
    }
}

/// `x` placed after every group whose total is not smaller.
pub open spec fn insertar_grupo(s: Seq<GrupoV>, x: GrupoV) -> Seq<GrupoV>
    decreases s.len(),
{
    if s.len() == 0 {
        seq![x]
    } else if s.last().buckets.total@ >= x.buckets.total@ {
        s.push(x)
    } else {
        insertar_grupo(s.drop_last(), x).push(s.last())
    }
}

/// The stable sort of the groups, largest debt first.
pub open spec fn ordenar_grupos(s: Seq<GrupoV>) -> Seq<GrupoV>
    decreases s.len(),
{
    if s.len() == 0 {
        seq![]
    } else {
        insertar_grupo(ordenar_grupos(s.drop_last()), s.last())
    }
}

proof fn lema_insertar_grupo(s: Seq<GrupoV>, x: GrupoV, j: int)
    requires
        0 <= j <= s.len(),
        forall|k: int| j <= k < s.len() ==> (#[trigger] s[k]).buckets.total@ < x.buckets.total@,
        j == 0 || s[j - 1].buckets.total@ >= x.buckets.total@,
    ensures
        insertar_grupo(s, x) == s.insert(j, x),
    decreases s.len() - j,
{
    if s.len() == 0 {
        assert(s.insert(j, x) =~= seq![x]);
    } else if j == s.len() {
        assert(s.insert(j, x) =~= s.push(x));
    } else {
        assert(s[s.len() - 1].buckets.total@ < x.buckets.total@);
        lema_insertar_grupo(s.drop_last(), x, j);
        assert(s.insert(j, x) =~= s.drop_last().insert(j, x).push(s.last()));
    }
}

/// The view of each customer's row.
pub open spec fn grupos_v(v: Seq<AntiguedadDeudaCliente>) -> Seq<GrupoV> {
    v.map_values(|c: AntiguedadDeudaCliente| c@)
}

/// The row of a group.
fn fila_grupo(id: u128, nombre: &str, b: BucketsDeuda) -> (r: AntiguedadDeudaCliente)
    ensures
        r@ == (GrupoV { id, nombre: nombre@, buckets: b }),
{
    AntiguedadDeudaCliente {
        cliente_id: id,
        cliente_nombre: copia(nombre),
        total: b.total,
        bucket0a30: b.b0a30,
        bucket31a60: b.b31a60,
        bucket61a90: b.b61a90,
        bucket_mas90: b.mas90,
    }
}

/// Inserts a row keeping the ageing sorted by debt, after the rows with as much or more.
fn insertar_en_detalle(v: &mut Vec<AntiguedadDeudaCliente>, x: AntiguedadDeudaCliente)
    ensures
        grupos_v(final(v)@) == insertar_grupo(grupos_v(old(v)@), x@),
{
    let mut j: usize = v.len();
    while j > 0 && v[j - 1].total.raw < x.total.raw
        invariant
            j <= v@.len(),
            v@ == old(v)@,
            forall|k: int| j <= k < v@.len() ==> (#[trigger] grupos_v(v@)[k]).buckets.total@ < x@.buckets.total@,
        decreases j,
    {
        j = j - 1;
    }
    proof {
        lema_insertar_grupo(grupos_v(v@), x@, j as int);
    }
    let ghost antes = v@;
    v.insert(j, x);
    assert(grupos_v(v@) =~= grupos_v(antes).insert(j as int, x@));
}

/// The groups, taken in customer order, sorted by debt, largest first.
fn ordenar_detalle(gs: &Vec<AntiguedadDeudaCliente>) -> (r: Vec<AntiguedadDeudaCliente>)
    ensures
        grupos_v(r@) == ordenar_grupos(grupos_v(gs@)),
{
    let mut r: Vec<AntiguedadDeudaCliente> = Vec::new();
    let mut i: usize = 0;
    assert(grupos_v(gs@).take(0) =~= Seq::<GrupoV>::empty());
    assert(grupos_v(r@) =~= Seq::<GrupoV>::empty());
    while i < gs.len()
        invariant
            i <= gs@.len(),
            grupos_v(r@) == ordenar_grupos(grupos_v(gs@).take(i as int)),
        decreases gs@.len() - i,
    {
        let g = &gs[i];
        let x = fila_grupo(
            g.cliente_id,
            g.cliente_nombre.as_str(),
            BucketsDeuda {
                total: g.total,
                b0a30: g.bucket0a30,
                b31a60: g.bucket31a60,
                b61a90: g.bucket61a90,
                mas90: g.bucket_mas90,
            },
        );
        assert(grupos_v(gs@).take(i + 1).drop_last() =~= grupos_v(gs@).take(i as int));
        assert(grupos_v(gs@).take(i + 1).last() == x@);
        insertar_en_detalle(&mut r, x);
        i = i + 1;
    }
    assert(grupos_v(gs@).take(gs@.len() as int) =~= grupos_v(gs@));
    r
}

/// The first position whose customer is not below `id`.
fn posicion(gs: &Vec<AntiguedadDeudaCliente>, id: u128) -> (k: usize)
    ensures
        k == posicion_grupo(grupos_v(gs@), id),
        k <= gs@.len(),
{
    let mut k: usize = 0;
    assert(grupos_v(gs@).skip(0) =~= grupos_v(gs@));
    while k < gs.len() && gs[k].cliente_id < id
        invariant
            k <= gs@.len(),
            posicion_grupo(grupos_v(gs@), id) == k + posicion_grupo(grupos_v(gs@).skip(k as int), id),
        decreases gs@.len() - k,
    {
        assert(grupos_v(gs@).skip(k as int).drop_first() =~= grupos_v(gs@).skip(k + 1));
        k = k + 1;
    }
    assert(grupos_v(gs@).skip(k as int).len() == 0 || grupos_v(gs@).skip(k as int)[0].id >= id);
    k
}

/// Adds a debt to its customer's group, creating the group the first time; on overflow the
/// groups are left as they were.
fn acumular(gs: &mut Vec<AntiguedadDeudaCliente>, id: u128, nombre: &str, dias: i64, saldo: Money, limites: &[u32]) -> (r: Result<(), DomainError>)
    ensures
        match acumular_grupo(grupos_v(old(gs)@), id, nombre@, dias as int, saldo@, limites@) {
            Some(n) => r is Ok && grupos_v(final(gs)@) == n,
            None => r == Err::<(), DomainError>(DomainError::MoneyOverflow),
        },
{
    let k = posicion(gs, id);
    let ghost antes = grupos_v(gs@);
    if k < gs.len() && gs[k].cliente_id == id {
        let mut b = BucketsDeuda {
            total: gs[k].total,
            b0a30: gs[k].bucket0a30,
            b31a60: gs[k].bucket31a60,
            b61a90: gs[k].bucket61a90,
            mas90: gs[k].bucket_mas90,
        };
        assert(b == antes[k as int].buckets);
        match b.add(dias, saldo, limites) {
            Ok(()) => {},
            Err(e) => return Err(e),
        }
        let x = fila_grupo(id, gs[k].cliente_nombre.as_str(), b);
        gs.set(k, x);
        assert(grupos_v(gs@) =~= antes.update(k as int, GrupoV { buckets: b, ..antes[k as int] }));
        Ok(())
    } else {
        let mut b = BucketsDeuda::default();
        match b.add(dias, saldo, limites) {
            Ok(()) => {},
            Err(e) => return Err(e),
        }
        let x = fila_grupo(id, nombre, b);
        gs.insert(k, x);
        assert(grupos_v(gs@) =~= antes.insert(k as int, GrupoV { id, nombre: nombre@, buckets: b }));
        Ok(())
    }
}

/// Ages one invoice into the global buckets and its customer's group.
fn envejecer(global: &mut BucketsDeuda, grupos: &mut Vec<AntiguedadDeudaCliente>, f: &FacturaPendiente, corte: i32, dd: u32, limites: &[u32]) -> (r: Result<(), DomainError>)
    ensures
        match paso_antiguedad(*old(global), grupos_v(old(grupos)@), *f, corte as int, dd as int, limites@) {
            Some((g, gs)) => r is Ok && *final(global) == g && grupos_v(final(grupos)@) == gs,
            None => r == Err::<(), DomainError>(DomainError::MoneyOverflow),
        },
{
    let s = match f.saldo() {
        Ok(s) => s,
        Err(e) => return Err(e),
    };
    if s.is_positive() {
        let d = corte as i64 - f.fecha_base(dd);
        let dias = if d < 0 {
            0
        } else {
            d
        };
        assert(dias == edad(*f, corte as int, dd as int));
        match global.add(dias, s, limites) {
            Ok(()) => {},
            Err(e) => return Err(e),
        }
        match acumular(grupos, f.cliente_id, f.cliente_nombre.as_str(), dias, s, limites) {
            Ok(()) => {},
            Err(e) => return Err(e),
        }
    }
    Ok(())
}

/// The settings the receivables read.
pub struct ComercialService {
    pub dias_vencimiento_default: u32,
    pub buckets_antiguedad: Vec<u32>,
}

impl ComercialService {
    pub fn new(dias_vencimiento_default: u32, buckets_antiguedad: Vec<u32>) -> (s: ComercialService)
        ensures
            s.dias_vencimiento_default == dias_vencimiento_default,
            s.buckets_antiguedad@ == buckets_antiguedad@,
    {
        ComercialService { dias_vencimiento_default, buckets_antiguedad }
    }

    /// A customer's statement: the invoices with a balance (and the settled ones when asked for),
    /// newest first, with the totals of what is listed. An unknown customer gets an empty name.
    pub fn cuenta_corriente(&self, cliente_id: u128, cliente_nombre: Option<String>, facturas: &Vec<FacturaPendiente>, incluir_pagadas: bool, hoy: i32) -> (r: Result<CuentaCorriente, AppError>)
        ensures
            match estado_cuenta(facturas@, incluir_pagadas, hoy as int, self.dias_vencimiento_default as int) {
                None => r matches Err(e) && e == AppError::Domain(DomainError::MoneyOverflow),
                Some(c) => r matches Ok(cc) && cc.cliente_id == cliente_id && cc.cliente_nombre@ == match cliente_nombre {
                    Some(n) => n@,
                    None => Seq::<char>::empty(),
                } && cc.total_facturado@ == c.facturado && cc.total_pagado@ == c.pagado && cc.saldo@ == c.saldo
                    && filas_v(cc.facturas@) == ordenar_filas(c.filas),
            },
            r matches Ok(cc) ==> cuenta_cuadra(cc, incluir_pagadas, hoy as int, self.dias_vencimiento_default as int),
    {
        let dd = self.dias_vencimiento_default;
        let mut filas: Vec<CuentaCorrienteFactura> = Vec::new();
        let mut facturado = Money { raw: 0 };
        let mut pagado = Money { raw: 0 };
        let mut saldo_total = Money { raw: 0 };
        let ghost mut en_orden: Seq<FilaV> = seq![];
        let mut i: usize = 0;
        assert(facturas@.take(0) =~= Seq::<FacturaPendiente>::empty());
        assert(filas_v(filas@) =~= Seq::<FilaV>::empty());
        while i < facturas.len()
            invariant
                i <= facturas@.len(),
                dd == self.dias_vencimiento_default,
                estado_cuenta(facturas@.take(i as int), incluir_pagadas, hoy as int, dd as int) == Some(
                    EstadoCuenta { filas: en_orden, facturado: facturado@, pagado: pagado@, saldo: saldo_total@ },
                ),
                filas_v(filas@) == ordenar_filas(en_orden),
            decreases facturas@.len() - i,
        {
            let f = &facturas[i];
            assert(facturas@.take(i + 1).drop_last() =~= facturas@.take(i as int));
            assert(facturas@.take(i + 1).last() == *f);
            let s = match f.saldo() {
                Ok(s) => s,
                Err(e) => {
                    proof {
                        lema_cuenta_prefijo(facturas@, incluir_pagadas, hoy as int, dd as int, i + 1);
                    }
                    return Err(AppError::Domain(e));
                },
            };
            if !(s.is_zero() && !incluir_pagadas) {
                let a = facturado.checked_add(f.total);
                let b = pagado.checked_add(f.pagado);
                let c = saldo_total.checked_add(s);
                match (a, b, c) {
                    (Ok(a), Ok(b), Ok(c)) => {
                        facturado = a;
                        pagado = b;
                        saldo_total = c;
                    },
                    _ => {
                        proof {
                            lema_cuenta_prefijo(facturas@, incluir_pagadas, hoy as int, dd as int, i + 1);
                        }
                        return Err(AppError::Domain(DomainError::MoneyOverflow));
                    },
                }
                let fila = CuentaCorrienteFactura {
                    id: f.id,
                    numero: copia(f.numero.as_str()),
                    fecha: f.fecha,
                    fecha_vencimiento: f.fecha_vencimiento,
                    estado: f.estado,
                    total: f.total,
                    pagado: f.pagado,
                    saldo: s,
                    dias_mora: dias_mora(f, s, hoy, dd),
                };
                assert(fila@ == fila_de(*f, s@, hoy as int, dd as int));
                insertar_en_cuenta(&mut filas, fila);
                proof {
                    assert(en_orden.push(fila@).drop_last() =~= en_orden);
                    en_orden = en_orden.push(fila@);
                }
            }
            i = i + 1;
        }
        assert(facturas@.take(facturas@.len() as int) =~= facturas@);
        let nombre = match cliente_nombre {
            Some(n) => n,
            None => String::new(),
        };
        let cc = CuentaCorriente {
            cliente_id,
            cliente_nombre: nombre,
            total_facturado: facturado,
            total_pagado: pagado,
            saldo: saldo_total,
            facturas: filas,
        };
        proof {
            lema_cuenta_cuadra(facturas@, incluir_pagadas, hoy as int, dd as int, cc);
        }
        Ok(cc)
    }

    /// The ageing of the receivables at the cut date (today when none is given): every positive
    /// balance in its bucket, globally and per customer, customers with the largest debt first.
    pub fn antiguedad_deuda(&self, facturas: &Vec<FacturaPendiente>, fecha_corte: Option<i32>, hoy: i32) -> (r: Result<AntiguedadDeuda, AppError>)
        ensures
            ({
                let corte: int = match fecha_corte {
                    Some(c) => c as int,
                    None => hoy as int,
                };
                match antiguedad(facturas@, corte, self.dias_vencimiento_default as int, self.buckets_antiguedad@) {
                    None => r matches Err(e) && e == AppError::Domain(DomainError::MoneyOverflow),
                    Some((g, gs)) => r matches Ok(a) && a.fecha_corte == corte && a.total == g.total
                        && a.bucket0a30 == g.b0a30 && a.bucket31a60 == g.b31a60 && a.bucket61a90 == g.b61a90
                        && a.bucket_mas90 == g.mas90 && a.limites@ == self.buckets_antiguedad@
                        && grupos_v(a.detalle@) == ordenar_grupos(gs),
                }
            }),
            r matches Ok(a) ==> antiguedad_cuadra(a, facturas@),
            r matches Ok(a) ==> tramos_exactos(
                facturas@,
                a.fecha_corte as int,
                self.dias_vencimiento_default as int,
                self.buckets_antiguedad@,
                (BucketsDeuda { total: a.total, b0a30: a.bucket0a30, b31a60: a.bucket31a60, b61a90: a.bucket61a90, mas90: a.bucket_mas90 }),
                grupos_v(a.detalle@),
            ),
    {
        let corte = match fecha_corte {
            Some(c) => c,
            None => hoy,
        };
        let dd = self.dias_vencimiento_default;
        let limites = self.buckets_antiguedad.as_slice();
        let mut global = BucketsDeuda::default();
        let mut grupos: Vec<AntiguedadDeudaCliente> = Vec::new();
        let mut i: usize = 0;
        assert(facturas@.take(0) =~= Seq::<FacturaPendiente>::empty());
        assert(grupos_v(grupos@) =~= Seq::<GrupoV>::empty());
        while i < facturas.len()
            invariant
                i <= facturas@.len(),
                dd == self.dias_vencimiento_default,
                limites@ == self.buckets_antiguedad@,
                corte == match fecha_corte {
                    Some(c) => c,
                    None => hoy,
                },
                antiguedad(facturas@.take(i as int), corte as int, dd as int, limites@) == Some((global, grupos_v(grupos@))),
            decreases facturas@.len() - i,
        {
            let f = &facturas[i];
            assert(facturas@.take(i + 1).drop_last() =~= facturas@.take(i as int));
            assert(facturas@.take(i + 1).last() == *f);
            match envejecer(&mut global, &mut grupos, f, corte, dd, limites) {
                Ok(()) => {},
                Err(e) => {
                    proof {
                        lema_antiguedad_prefijo(facturas@, corte as int, dd as int, limites@, i + 1);
                    }
                    return Err(AppError::Domain(e));
                },
            }
            i = i + 1;
        }
        assert(facturas@.take(facturas@.len() as int) =~= facturas@);
        let detalle = ordenar_detalle(&grupos);
        let mut copia_limites: Vec<u32> = Vec::new();
        let mut k: usize = 0;
        while k < self.buckets_antiguedad.len()
            invariant
                k <= self.buckets_antiguedad@.len(),
                copia_limites@ == self.buckets_antiguedad@.take(k as int),
            decreases self.buckets_antiguedad@.len() - k,
        {
            copia_limites.push(self.buckets_antiguedad[k]);
            assert(self.buckets_antiguedad@.take(k + 1) =~= self.buckets_antiguedad@.take(k as int).push(self.buckets_antiguedad@[k as int]));
            k = k + 1;
        }
        assert(self.buckets_antiguedad@.take(self.buckets_antiguedad@.len() as int) =~= self.buckets_antiguedad@);
        let a = AntiguedadDeuda {
            fecha_corte: corte,
            total: global.total,
            bucket0a30: global.b0a30,
            bucket31a60: global.b31a60,
            bucket61a90: global.b61a90,
            bucket_mas90: global.mas90,
            limites: copia_limites,
            detalle,
        };
        proof {
            la_antiguedad_cuadra_por_cliente(facturas@, corte as int, dd as int, limites@);
            cada_cliente_envejece_como_el_total(facturas@, corte as int, dd as int, limites@);
            assert(antiguedad(facturas@, corte as int, dd as int, limites@) == Some((global, grupos_v(grupos@))));
            assert(grupos_v(a.detalle@) == ordenar_grupos(grupos_v(grupos@)));
        }
        Ok(a)
    }
}

proof fn lema_cuenta_prefijo(fs: Seq<FacturaPendiente>, incluir: bool, hoy: int, dd: int, k: int)
    requires
        0 <= k <= fs.len(),
        estado_cuenta(fs.take(k), incluir, hoy, dd) is None,
    ensures
        estado_cuenta(fs, incluir, hoy, dd) is None,
    decreases fs.len() - k,
{
    if k < fs.len() {
        assert(fs.take(k + 1).drop_last() =~= fs.take(k));
        lema_cuenta_prefijo(fs, incluir, hoy, dd, k + 1);
    } else {
        assert(fs.take(k) =~= fs);
    }
}

proof fn lema_antiguedad_prefijo(fs: Seq<FacturaPendiente>, corte: int, dd: int, limites: Seq<u32>, k: int)
    requires
        0 <= k <= fs.len(),
        antiguedad(fs.take(k), corte, dd, limites) is None,
    ensures
        antiguedad(fs, corte, dd, limites) is None,
    decreases fs.len() - k,
{
    if k < fs.len() {
        assert(fs.take(k + 1).drop_last() =~= fs.take(k));
        lema_antiguedad_prefijo(fs, corte, dd, limites, k + 1);
    } else {
        assert(fs.take(k) =~= fs);
    }
}

/// An overpayment never shows as a negative balance.
pub proof fn el_saldo_nunca_es_negativo(total: int, pagado: int)
    ensures
        saldo_de(total, pagado) matches Some(s) ==> s >= 0,
{
}

/// Sorted by debt, largest first.
pub open spec fn por_deuda(s: Seq<GrupoV>) -> bool {
    forall|i: int, j: int| 0 <= i < j < s.len() ==> s[i].buckets.total@ >= s[j].buckets.total@
}

/// Where `insertar_grupo` puts `x`: after the last group with as much debt or more.
proof fn punto_grupo(s: Seq<GrupoV>, x: GrupoV) -> (j: int)
    ensures
        0 <= j <= s.len(),
        forall|k: int| j <= k < s.len() ==> (#[trigger] s[k]).buckets.total@ < x.buckets.total@,
        j == 0 || s[j - 1].buckets.total@ >= x.buckets.total@,
        insertar_grupo(s, x) == s.insert(j, x),
    decreases s.len(),
{
    if s.len() == 0 {
        lema_insertar_grupo(s, x, 0);
        0
    } else if s.last().buckets.total@ >= x.buckets.total@ {
        lema_insertar_grupo(s, x, s.len() as int);
        s.len() as int
    } else {
        let j = punto_grupo(s.drop_last(), x);
        assert forall|k: int| j <= k < s.len() implies (#[trigger] s[k]).buckets.total@ < x.buckets.total@ by {
            if k < s.len() - 1 {
                assert(s[k] == s.drop_last()[k]);
            }
        }
        if j > 0 {
            assert(s[j - 1] == s.drop_last()[j - 1]);
        }
        lema_insertar_grupo(s, x, j);
        j
    }
}

proof fn lema_insertar_grupo_ordenado(s: Seq<GrupoV>, x: GrupoV)
    requires
        por_deuda(s),
    ensures
        por_deuda(insertar_grupo(s, x)),
        insertar_grupo(s, x).len() == s.len() + 1,
{
    let j = punto_grupo(s, x);
    let t = s.insert(j, x);
    assert forall|a: int, b: int| 0 <= a < b < t.len() implies t[a].buckets.total@ >= t[b].buckets.total@ by {
        if a < j && b < j {
        } else if a < j && b == j {
            assert(s[a].buckets.total@ >= s[j - 1].buckets.total@);
        } else if a < j {
            assert(t[b] == s[b - 1]);
        } else if a == j {
            assert(t[b] == s[b - 1]);
        } else {
            assert(t[a] == s[a - 1] && t[b] == s[b - 1]);
        }
    }
}

/// The customers of the ageing come largest debt first.
pub proof fn el_detalle_va_de_mayor_a_menor_deuda(s: Seq<GrupoV>)
    ensures
        por_deuda(ordenar_grupos(s)),
        ordenar_grupos(s).len() == s.len(),
    decreases s.len(),
{
    if s.len() > 0 {
        el_detalle_va_de_mayor_a_menor_deuda(s.drop_last());
        lema_insertar_grupo_ordenado(ordenar_grupos(s.drop_last()), s.last());
    }
}

/// For the invoices of one customer, the balance of the statement is the total of the ageing, and
/// the ageing has that customer's group alone, holding it all.
pub proof fn la_cuenta_y_la_antiguedad_coinciden(fs: Seq<FacturaPendiente>, cliente: u128, hoy: int, corte: int, dias_default: int, limites: Seq<u32>)
    requires
        forall|i: int| 0 <= i < fs.len() ==> (#[trigger] fs[i]).cliente_id == cliente,
    ensures
        estado_cuenta(fs, false, hoy, dias_default) matches Some(e) ==> (antiguedad(fs, corte, dias_default, limites) matches Some(
            (g, gs),
        ) ==> e.saldo == g.total@ && ((gs.len() == 0 && g.total@ == 0) || (gs.len() == 1 && gs[0].id == cliente
            && gs[0].buckets.total == g.total))),
    decreases fs.len(),
{
    if fs.len() > 0 {
        assert forall|i: int| 0 <= i < fs.drop_last().len() implies (#[trigger] fs.drop_last()[i]).cliente_id == cliente by {
            assert(fs.drop_last()[i] == fs[i]);
        }
        la_cuenta_y_la_antiguedad_coinciden(fs.drop_last(), cliente, hoy, corte, dias_default, limites);
        assert(fs.last().cliente_id == cliente);
    }
}

/// What an invoice adds to the debt: its balance when positive, else nothing.
pub open spec fn deuda_de(f: FacturaPendiente) -> int {
    match saldo_de(f.total@, f.pagado@) {
        Some(s) => if s > 0 {
            s
        } else {
            0
        },
        None => 0,
    }
}

/// The debt of the invoices: the sum of their positive balances.
pub open spec fn deuda(fs: Seq<FacturaPendiente>) -> int
    decreases fs.len(),
{
    if fs.len() == 0 {
        0
    } else {
        deuda(fs.drop_last()) + deuda_de(fs.last())
    }
}

/// The debt of one customer among the invoices.
pub open spec fn deuda_cliente(fs: Seq<FacturaPendiente>, id: u128) -> int
    decreases fs.len(),
{
    if fs.len() == 0 {
        0
    } else {
        deuda_cliente(fs.drop_last(), id) + if fs.last().cliente_id == id {
            deuda_de(fs.last())
        } else {
            0
        }
    }
}

/// The groups in strictly increasing customer order: one group per customer.
pub open spec fn ids_crecientes(gs: Seq<GrupoV>) -> bool {
    forall|i: int, j: int| 0 <= i < j < gs.len() ==> gs[i].id < gs[j].id
}

/// What the ageing keeps true after each invoice.
spec fn inv_antiguedad(fs: Seq<FacturaPendiente>, g: BucketsDeuda, gs: Seq<GrupoV>) -> bool {
    &&& cuadra(g)
    &&& g.total@ == deuda(fs)
    &&& ids_crecientes(gs)
    &&& forall|k: int| 0 <= k < gs.len() ==> cuadra((#[trigger] gs[k]).buckets) && gs[k].buckets.total@ == deuda_cliente(fs, gs[k].id)
    &&& forall|id: u128| deuda_cliente(fs, id) != 0 ==> exists|k: int| 0 <= k < gs.len() && (#[trigger] gs[k]).id == id
}

proof fn lema_posicion(gs: Seq<GrupoV>, id: u128)
    requires
        ids_crecientes(gs),
    ensures
        posicion_grupo(gs, id) <= gs.len(),
        forall|j: int| 0 <= j < posicion_grupo(gs, id) ==> (#[trigger] gs[j]).id < id,
        posicion_grupo(gs, id) < gs.len() ==> gs[posicion_grupo(gs, id) as int].id >= id,
    decreases gs.len(),
{
    if gs.len() > 0 && gs[0].id < id {
        let t = gs.drop_first();
        assert forall|i: int, j: int| 0 <= i < j < t.len() implies t[i].id < t[j].id by {
            assert(t[i] == gs[i + 1] && t[j] == gs[j + 1]);
        }
        lema_posicion(t, id);
        assert forall|j: int| 0 <= j < posicion_grupo(gs, id) implies (#[trigger] gs[j]).id < id by {
            if j > 0 {
                assert(gs[j] == t[j - 1]);
            }
        }
    }
}

proof fn lema_deuda_no_negativa(fs: Seq<FacturaPendiente>, id: u128)
    ensures
        deuda_cliente(fs, id) >= 0,
    decreases fs.len(),
{
    if fs.len() > 0 {
        lema_deuda_no_negativa(fs.drop_last(), id);
    }
}

proof fn lema_paso_antiguedad(fs: Seq<FacturaPendiente>, g: BucketsDeuda, gs: Seq<GrupoV>, f: FacturaPendiente, corte: int, dd: int, limites: Seq<u32>)
    requires
        inv_antiguedad(fs, g, gs),
    ensures
        paso_antiguedad(g, gs, f, corte, dd, limites) matches Some((g2, gs2)) ==> inv_antiguedad(fs.push(f), g2, gs2),
{
    let fs2 = fs.push(f);
    assert(fs2.drop_last() =~= fs);
    assert(fs2.last() == f);
    match paso_antiguedad(g, gs, f, corte, dd, limites) {
        None => {},
        Some((g2, gs2)) => {
            let s = deuda_de(f);
            assert forall|id: u128| #[trigger] deuda_cliente(fs2, id) == deuda_cliente(fs, id) + if f.cliente_id == id { s } else { 0 } by {}
            if s == 0 {
                assert(g2 == g && gs2 == gs);
                assert forall|id: u128| deuda_cliente(fs2, id) != 0 implies exists|k: int| 0 <= k < gs2.len() && (#[trigger] gs2[k]).id == id by {
                    assert(deuda_cliente(fs2, id) == deuda_cliente(fs, id));
                }
            } else {
                let dias = edad(f, corte, dd);
                let c = f.cliente_id;
                assert(sumar(g, dias, s, limites) == Some(g2));
                let k = posicion_grupo(gs, c) as int;
                lema_posicion(gs, c);
                if k < gs.len() && gs[k].id == c {
                    let b = sumar(gs[k].buckets, dias, s, limites)->0;
                    assert(gs2 == gs.update(k, GrupoV { buckets: b, ..gs[k] }));
                    assert forall|j: int| 0 <= j < gs2.len() implies cuadra((#[trigger] gs2[j]).buckets)
                        && gs2[j].buckets.total@ == deuda_cliente(fs2, gs2[j].id) by {
                        if j != k {
                            assert(gs[j].id != c);
                        }
                    }
                    assert forall|id: u128| deuda_cliente(fs2, id) != 0 implies exists|j: int| 0 <= j < gs2.len() && (#[trigger] gs2[j]).id == id by {
                        if id == c {
                            assert(gs2[k].id == id);
                        } else {
                            let j = choose|j: int| 0 <= j < gs.len() && (#[trigger] gs[j]).id == id;
                            assert(gs2[j].id == id);
                        }
                    }
                } else {
                    let b = sumar(buckets_vacios(), dias, s, limites)->0;
                    let nuevo = GrupoV { id: c, nombre: f.cliente_nombre@, buckets: b };
                    assert(gs2 == gs.insert(k, nuevo));
                    assert(deuda_cliente(fs, c) == 0) by {
                        lema_deuda_no_negativa(fs, c);
                        if deuda_cliente(fs, c) != 0 {
                            let j = choose|j: int| 0 <= j < gs.len() && (#[trigger] gs[j]).id == c;
                            if j < k {
                            } else if j == k {
                            } else {
                                assert(gs[k].id < gs[j].id);
                            }
                        }
                    }
                    assert forall|i: int, j: int| 0 <= i < j < gs2.len() implies gs2[i].id < gs2[j].id by {
                        if j < k {
                        } else if j == k {
                        } else if i < k {
                            assert(gs2[j] == gs[j - 1]);
                        } else if i == k {
                            assert(gs2[j] == gs[j - 1]);
                        } else {
                            assert(gs2[i] == gs[i - 1] && gs2[j] == gs[j - 1]);
                        }
                    }
                    assert forall|j: int| 0 <= j < gs2.len() implies cuadra((#[trigger] gs2[j]).buckets)
                        && gs2[j].buckets.total@ == deuda_cliente(fs2, gs2[j].id) by {
                        if j < k {
                            assert(gs[j].id != c);
                        } else if j > k {
                            assert(gs2[j] == gs[j - 1]);
                            assert(gs[j - 1].id != c);
                        }
                    }
                    assert forall|id: u128| deuda_cliente(fs2, id) != 0 implies exists|j: int| 0 <= j < gs2.len() && (#[trigger] gs2[j]).id == id by {
                        if id == c {
                            assert(gs2[k].id == id);
                        } else {
                            let j = choose|j: int| 0 <= j < gs.len() && (#[trigger] gs[j]).id == id;
                            if j < k {
                                assert(gs2[j].id == id);
                            } else {
                                assert(gs2[j + 1].id == id);
                            }
                        }
                    }
                }
            }
        },
    }
}

proof fn lema_antiguedad(fs: Seq<FacturaPendiente>, corte: int, dd: int, limites: Seq<u32>)
    ensures
        antiguedad(fs, corte, dd, limites) matches Some((g, gs)) ==> inv_antiguedad(fs, g, gs),
    decreases fs.len(),
{
    if fs.len() == 0 {
        assert forall|id: u128| deuda_cliente(fs, id) == 0 by {}
    } else {
        lema_antiguedad(fs.drop_last(), corte, dd, limites);
        match antiguedad(fs.drop_last(), corte, dd, limites) {
            None => {},
            Some((g, gs)) => {
                lema_paso_antiguedad(fs.drop_last(), g, gs, fs.last(), corte, dd, limites);
                assert(fs.drop_last().push(fs.last()) =~= fs);
            },
        }
    }
}

/// Whether the group is one of `s`.
pub open spec fn esta_en(s: Seq<GrupoV>, x: GrupoV) -> bool {
    exists|a: int| 0 <= a < s.len() && s[a] == x
}

/// Sorting the groups by debt keeps exactly the groups there were.
proof fn lema_ordenar_grupos(s: Seq<GrupoV>)
    ensures
        ordenar_grupos(s).len() == s.len(),
        forall|k: int| 0 <= k < s.len() ==> #[trigger] esta_en(s, ordenar_grupos(s)[k]),
        forall|a: int| 0 <= a < s.len() ==> #[trigger] esta_en(ordenar_grupos(s), s[a]),
    decreases s.len(),
{
    if s.len() > 0 {
        let p = s.drop_last();
        lema_ordenar_grupos(p);
        let t = ordenar_grupos(p);
        let y = s.last();
        let j = punto_grupo(t, y);
        let o = t.insert(j, y);
        assert(ordenar_grupos(s) == o);
        assert forall|k: int| 0 <= k < s.len() implies #[trigger] esta_en(s, o[k]) by {
            if k < j {
                assert(esta_en(p, t[k]));
                let b = choose|b: int| 0 <= b < p.len() && p[b] == t[k];
                assert(s[b] == o[k]);
            } else if k == j {
                assert(s[s.len() - 1] == o[k]);
            } else {
                assert(esta_en(p, t[k - 1]));
                let b = choose|b: int| 0 <= b < p.len() && p[b] == t[k - 1];
                assert(s[b] == o[k]);
            }
        }
        assert forall|a: int| 0 <= a < s.len() implies #[trigger] esta_en(o, s[a]) by {
            if a == s.len() - 1 {
                assert(o[j] == s[a]);
            } else {
                assert(p[a] == s[a]);
                assert(esta_en(t, p[a]));
                let k = choose|k: int| 0 <= k < t.len() && t[k] == p[a];
                if k < j {
                    assert(o[k] == s[a]);
                } else {
                    assert(o[k + 1] == s[a]);
                }
            }
        }
    }
}

/// No two groups of the same customer.
pub open spec fn ids_distintos(gs: Seq<GrupoV>) -> bool {
    forall|i: int, j: int| 0 <= i < j < gs.len() ==> gs[i].id != gs[j].id
}

proof fn lema_ordenar_ids_distintos(s: Seq<GrupoV>)
    requires
        ids_distintos(s),
    ensures
        ids_distintos(ordenar_grupos(s)),
    decreases s.len(),
{
    if s.len() > 0 {
        let p = s.drop_last();
        assert forall|i: int, j: int| 0 <= i < j < p.len() implies p[i].id != p[j].id by {
            assert(p[i] == s[i] && p[j] == s[j]);
        }
        lema_ordenar_ids_distintos(p);
        lema_ordenar_grupos(p);
        let t = ordenar_grupos(p);
        let x = s.last();
        let j = punto_grupo(t, x);
        assert forall|k: int| 0 <= k < t.len() implies (#[trigger] t[k]).id != x.id by {
            assert(esta_en(p, t[k]));
            let a = choose|a: int| 0 <= a < p.len() && p[a] == t[k];
            assert(p[a] == s[a]);
        }
        let u = t.insert(j, x);
        assert forall|a: int, b: int| 0 <= a < b < u.len() implies u[a].id != u[b].id by {
            if b < j {
            } else if b == j {
                assert(u[a] == t[a]);
            } else if a < j {
                assert(u[b] == t[b - 1]);
            } else if a == j {
                assert(u[b] == t[b - 1]);
            } else {
                assert(u[a] == t[a - 1] && u[b] == t[b - 1]);
            }
        }
    }
}

/// The customers' rows of an ageing of `fs`: each adds up to its total, which is that customer's
/// positive balances; no customer twice; every customer with debt present.
pub open spec fn grupos_cuadran(fs: Seq<FacturaPendiente>, d: Seq<GrupoV>) -> bool {
    &&& forall|k: int| 0 <= k < d.len() ==> cuadra((#[trigger] d[k]).buckets) && d[k].buckets.total@ == deuda_cliente(fs, d[k].id)
    &&& forall|i: int, j: int| 0 <= i < j < d.len() ==> d[i].id != d[j].id
    &&& forall|id: u128| deuda_cliente(fs, id) != 0 ==> exists|k: int| 0 <= k < d.len() && (#[trigger] d[k]).id == id
}

/// The ageing always adds up: the global buckets sum to the total, which is the sum of the
/// positive balances; the detail has one row per customer, each row's buckets sum to its total,
/// which is that customer's positive balances.
pub proof fn la_antiguedad_cuadra_por_cliente(fs: Seq<FacturaPendiente>, corte: int, dias_default: int, limites: Seq<u32>)
    ensures
        antiguedad(fs, corte, dias_default, limites) matches Some((g, gs)) ==> cuadra(g) && g.total@ == deuda(fs)
            && grupos_cuadran(fs, ordenar_grupos(gs)),
{
    lema_antiguedad(fs, corte, dias_default, limites);
    match antiguedad(fs, corte, dias_default, limites) {
        None => {},
        Some((g, gs)) => {
            let d = ordenar_grupos(gs);
            lema_ordenar_grupos(gs);
            assert forall|k: int| 0 <= k < d.len() implies cuadra((#[trigger] d[k]).buckets) && d[k].buckets.total@ == deuda_cliente(fs, d[k].id) by {
                assert(esta_en(gs, d[k]));
                let j = choose|j: int| 0 <= j < gs.len() && gs[j] == d[k];
                assert(gs[j] == d[k]);
            }
            lema_ordenar_ids_distintos(gs);
            assert forall|id: u128| deuda_cliente(fs, id) != 0 implies exists|k: int| 0 <= k < d.len() && (#[trigger] d[k]).id == id by {
                let j = choose|j: int| 0 <= j < gs.len() && (#[trigger] gs[j]).id == id;
                assert(esta_en(d, gs[j]));
                let k = choose|k: int| 0 <= k < d.len() && d[k] == gs[j];
                assert(d[k].id == id);
            }
        },
    }
}

/// The ageing a request gives, as the laws above describe it: its buckets add up to its total,
/// the sum of the positive balances; one row per customer with debt, each adding up to that
/// customer's positive balances.
pub open spec fn antiguedad_cuadra(a: AntiguedadDeuda, fs: Seq<FacturaPendiente>) -> bool {
    &&& a.bucket0a30@ + a.bucket31a60@ + a.bucket61a90@ + a.bucket_mas90@ == a.total@
    &&& a.total@ == deuda(fs)
    &&& grupos_cuadran(fs, grupos_v(a.detalle@))
}

/// Newest first: no line precedes one listed before it.
pub open spec fn mas_nuevas_primero(s: Seq<FilaV>) -> bool {
    forall|i: int, j: int| 0 <= i < j < s.len() ==> !precede(s[j], s[i])
}

proof fn lema_precede(x: FilaV, y: FilaV, z: FilaV)
    ensures
        precede(x, y) ==> !precede(y, x),
        precede(x, z) ==> precede(x, y) || precede(y, z),
{
    lex_asimetrico(y.numero, x.numero);
    lex_negativamente_transitivo(z.numero, y.numero, x.numero);
}

/// Where `insertar_fila` puts `x`: after the last line it does not precede.
proof fn punto_fila(s: Seq<FilaV>, x: FilaV) -> (j: int)
    ensures
        0 <= j <= s.len(),
        forall|k: int| j <= k < s.len() ==> precede(x, #[trigger] s[k]),
        j == 0 || !precede(x, s[j - 1]),
        insertar_fila(s, x) == s.insert(j, x),
    decreases s.len(),
{
    if s.len() == 0 {
        lema_insertar_fila(s, x, 0);
        0
    } else if !precede(x, s.last()) {
        lema_insertar_fila(s, x, s.len() as int);
        s.len() as int
    } else {
        let j = punto_fila(s.drop_last(), x);
        assert forall|k: int| j <= k < s.len() implies precede(x, #[trigger] s[k]) by {
            if k < s.len() - 1 {
                assert(s[k] == s.drop_last()[k]);
            }
        }
        if j > 0 {
            assert(s[j - 1] == s.drop_last()[j - 1]);
        }
        lema_insertar_fila(s, x, j);
        j
    }
}

proof fn lema_insertar_fila_ordenada(s: Seq<FilaV>, x: FilaV)
    requires
        mas_nuevas_primero(s),
    ensures
        mas_nuevas_primero(insertar_fila(s, x)),
{
    let j = punto_fila(s, x);
    let t = s.insert(j, x);
    assert forall|a: int, b: int| 0 <= a < b < t.len() implies !precede(t[b], t[a]) by {
        if a < j && b < j {
        } else if a < j && b == j {
            lema_precede(x, s[j - 1], s[a]);
            if a < j - 1 {
                assert(!precede(s[j - 1], s[a]));
            }
        } else if a < j {
            assert(t[b] == s[b - 1]);
        } else if a == j {
            assert(t[b] == s[b - 1]);
            lema_precede(x, s[b - 1], x);
        } else {
            assert(t[a] == s[a - 1] && t[b] == s[b - 1]);
        }
    }
}

/// The statement lists the newest invoices first.
pub proof fn la_cuenta_va_de_la_mas_nueva_a_la_mas_vieja(s: Seq<FilaV>)
    ensures
        mas_nuevas_primero(ordenar_filas(s)),
    decreases s.len(),
{
    if s.len() > 0 {
        la_cuenta_va_de_la_mas_nueva_a_la_mas_vieja(s.drop_last());
        lema_insertar_fila_ordenada(ordenar_filas(s.drop_last()), s.last());
    }
}

/// The days a statement line is late at `hoy`: counted from its due date, or from its date plus
/// the default term when it has none; none before that day, and none once nothing is owed.
pub open spec fn mora_de_fila(l: FilaV, hoy: int, dias_default: int) -> int {
    let vence: int = match l.fecha_vencimiento {
        Some(v) => v as int,
        None => l.fecha + dias_default,
    };
    if l.saldo@ > 0 && hoy > vence {
        hoy - vence
    } else {
        0
    }
}

/// The sum of a field over the lines of a statement.
pub open spec fn suma_filas(s: Seq<FilaV>, campo: spec_fn(FilaV) -> int) -> int
    decreases s.len(),
{
    if s.len() == 0 {
        0
    } else {
        suma_filas(s.drop_last(), campo) + campo(s.last())
    }
}

proof fn lema_suma_insert(s: Seq<FilaV>, j: int, x: FilaV, campo: spec_fn(FilaV) -> int)
    requires
        0 <= j <= s.len(),
    ensures
        suma_filas(s.insert(j, x), campo) == suma_filas(s, campo) + campo(x),
    decreases s.len(),
{
    if j == s.len() {
        assert(s.insert(j, x) =~= s.push(x));
        assert(s.push(x).drop_last() =~= s);
    } else {
        lema_suma_insert(s.drop_last(), j, x, campo);
        assert(s.insert(j, x).drop_last() =~= s.drop_last().insert(j, x));
        assert(s.insert(j, x).last() == s.last());
    }
}

/// Sorting the statement keeps its lines: the same sums, and every line it lists is one of them.
proof fn lema_ordenar_filas(s: Seq<FilaV>, campo: spec_fn(FilaV) -> int)
    ensures
        ordenar_filas(s).len() == s.len(),
        suma_filas(ordenar_filas(s), campo) == suma_filas(s, campo),
        forall|k: int| 0 <= k < s.len() ==> exists|a: int| 0 <= a < s.len() && #[trigger] ordenar_filas(s)[k] == s[a],
    decreases s.len(),
{
    if s.len() > 0 {
        let p = s.drop_last();
        lema_ordenar_filas(p, campo);
        let t = ordenar_filas(p);
        let x = s.last();
        let j = punto_fila(t, x);
        lema_suma_insert(t, j, x, campo);
        let o = t.insert(j, x);
        assert forall|k: int| 0 <= k < s.len() implies exists|a: int| 0 <= a < s.len() && #[trigger] o[k] == s[a] by {
            if k < j {
                let b = choose|b: int| 0 <= b < p.len() && t[k] == p[b];
                assert(o[k] == s[b]);
            } else if k == j {
                assert(o[k] == s[s.len() - 1]);
            } else {
                assert(o[k] == t[k - 1]);
                let b = choose|b: int| 0 <= b < p.len() && t[k - 1] == p[b];
                assert(o[k] == s[b]);
            }
        }
    }
}

/// What the statement's lines satisfy as it is built: its totals are the sums of the listed lines,
/// and a line with nothing owed is never late.
proof fn lema_estado_cuenta(fs: Seq<FacturaPendiente>, incluir: bool, hoy: int, dd: int)
    requires
        i32::MIN <= hoy <= i32::MAX,
        0 <= dd <= u32::MAX,
    ensures
        estado_cuenta(fs, incluir, hoy, dd) matches Some(e) ==> {
            &&& e.facturado == suma_filas(e.filas, |l: FilaV| l.total@)
            &&& e.pagado == suma_filas(e.filas, |l: FilaV| l.pagado@)
            &&& e.saldo == suma_filas(e.filas, |l: FilaV| l.saldo@)
            &&& forall|k: int| 0 <= k < e.filas.len() ==> (#[trigger] e.filas[k]).saldo@ <= 0 ==> e.filas[k].dias_mora == 0
            &&& forall|k: int| 0 <= k < e.filas.len() ==> incluir || (#[trigger] e.filas[k]).saldo@ != 0
            &&& forall|k: int| 0 <= k < e.filas.len() ==> (#[trigger] e.filas[k]).dias_mora == mora_de_fila(e.filas[k], hoy, dd)
        },
    decreases fs.len(),
{
    if fs.len() > 0 {
        lema_estado_cuenta(fs.drop_last(), incluir, hoy, dd);
        match estado_cuenta(fs.drop_last(), incluir, hoy, dd) {
            None => {},
            Some(e) => {
                let f = fs.last();
                match saldo_de(f.total@, f.pagado@) {
                    None => {},
                    Some(sa) => {
                        if !(sa == 0 && !incluir) {
                            let fila = fila_de(f, sa, hoy, dd);
                            let t = e.filas.push(fila);
                            assert(cabe_i64(sa));
                            assert(fila.saldo@ == sa);
                            assert(-0x1_0000_0000_0000 <= mora(f, sa, hoy, dd) <= 0x1_0000_0000_0000);
                            assert(fila.dias_mora == mora(f, sa, hoy, dd));
                            assert(fila.dias_mora == mora_de_fila(fila, hoy, dd));
                            assert(t.drop_last() =~= e.filas);
                            assert forall|k: int| 0 <= k < t.len() implies (#[trigger] t[k]).dias_mora == 0 || t[k].saldo@ > 0 by {
                                if k < e.filas.len() {
                                    assert(t[k] == e.filas[k]);
                                }
                            }
                            assert forall|k: int| 0 <= k < t.len() implies incluir || (#[trigger] t[k]).saldo@ != 0 by {
                                if k < e.filas.len() {
                                    assert(t[k] == e.filas[k]);
                                }
                            }
                            assert forall|k: int| 0 <= k < t.len() implies (#[trigger] t[k]).dias_mora == mora_de_fila(t[k], hoy, dd) by {
                                if k < e.filas.len() {
                                    assert(t[k] == e.filas[k]);
                                }
                            }
                        }
                    },
                }
            },
        }
    }
}

/// A customer's statement always adds up: its three totals are the sums of the lines it lists,
/// a settled line shows only when settled lines were asked for, and a line with nothing owed is
/// never late.
pub open spec fn cuenta_cuadra(cc: CuentaCorriente, incluir_pagadas: bool, hoy: int, dias_default: int) -> bool {
    let filas = filas_v(cc.facturas@);
    &&& forall|k: int| 0 <= k < filas.len() ==> (#[trigger] filas[k]).dias_mora == mora_de_fila(filas[k], hoy, dias_default)
    &&& cc.total_facturado@ == suma_filas(filas, |l: FilaV| l.total@)
    &&& cc.total_pagado@ == suma_filas(filas, |l: FilaV| l.pagado@)
    &&& cc.saldo@ == suma_filas(filas, |l: FilaV| l.saldo@)
    &&& forall|k: int| 0 <= k < filas.len() ==> (#[trigger] filas[k]).saldo@ <= 0 ==> filas[k].dias_mora == 0
    &&& forall|k: int| 0 <= k < filas.len() ==> incluir_pagadas || (#[trigger] filas[k]).saldo@ != 0
}

proof fn lema_cuenta_cuadra(fs: Seq<FacturaPendiente>, incluir: bool, hoy: int, dd: int, cc: CuentaCorriente)
    requires
        i32::MIN <= hoy <= i32::MAX,
        0 <= dd <= u32::MAX,
        estado_cuenta(fs, incluir, hoy, dd) matches Some(c) && cc.total_facturado@ == c.facturado && cc.total_pagado@
            == c.pagado && cc.saldo@ == c.saldo && filas_v(cc.facturas@) == ordenar_filas(c.filas),
    ensures
        cuenta_cuadra(cc, incluir, hoy, dd),
{
    lema_estado_cuenta(fs, incluir, hoy, dd);
    let c = estado_cuenta(fs, incluir, hoy, dd)->0;
    lema_ordenar_filas(c.filas, |l: FilaV| l.total@);
    lema_ordenar_filas(c.filas, |l: FilaV| l.pagado@);
    lema_ordenar_filas(c.filas, |l: FilaV| l.saldo@);
    let o = ordenar_filas(c.filas);
    assert forall|k: int| 0 <= k < o.len() implies (#[trigger] o[k]).dias_mora == 0 || o[k].saldo@ > 0 by {
        let a = choose|a: int| 0 <= a < c.filas.len() && o[k] == c.filas[a];
        assert(c.filas[a].saldo@ <= 0 ==> c.filas[a].dias_mora == 0);
    }
    assert forall|k: int| 0 <= k < o.len() implies incluir || (#[trigger] o[k]).saldo@ != 0 by {
        let a = choose|a: int| 0 <= a < c.filas.len() && o[k] == c.filas[a];
        assert(incluir || c.filas[a].saldo@ != 0);
    }
    assert forall|k: int| 0 <= k < o.len() implies (#[trigger] o[k]).dias_mora == mora_de_fila(o[k], hoy, dd) by {
        let a = choose|a: int| 0 <= a < c.filas.len() && o[k] == c.filas[a];
        assert(c.filas[a].dias_mora == mora_de_fila(c.filas[a], hoy, dd));
    }
}

/// Every line of a statement is late exactly the days its invoice is late at `hoy`: from its due
/// date, or from its date plus the default term, and not at all once nothing is owed.
pub proof fn cada_fila_tiene_su_mora(fs: Seq<FacturaPendiente>, incluir_pagadas: bool, hoy: i32, dias_default: u32)
    ensures
        estado_cuenta(fs, incluir_pagadas, hoy as int, dias_default as int) matches Some(c) ==> forall|k: int|
            0 <= k < ordenar_filas(c.filas).len() ==> (#[trigger] ordenar_filas(c.filas)[k]).dias_mora == mora_de_fila(
                ordenar_filas(c.filas)[k],
                hoy as int,
                dias_default as int,
            ),
{
    lema_estado_cuenta(fs, incluir_pagadas, hoy as int, dias_default as int);
    match estado_cuenta(fs, incluir_pagadas, hoy as int, dias_default as int) {
        None => {},
        Some(c) => {
            lema_ordenar_filas(c.filas, |l: FilaV| l.saldo@);
            let o = ordenar_filas(c.filas);
            assert forall|k: int| 0 <= k < o.len() implies (#[trigger] o[k]).dias_mora == mora_de_fila(o[k], hoy as int, dias_default as int) by {
                let a = choose|a: int| 0 <= a < c.filas.len() && o[k] == c.filas[a];
                assert(c.filas[a].dias_mora == mora_de_fila(c.filas[a], hoy as int, dias_default as int));
            }
        },
    }
}

/// The bucket an invoice ages into at the cut: by its age from its due date, or from its date
/// plus the default term.
pub open spec fn tramo_de(f: FacturaPendiente, corte: int, dias_default: int, limites: Seq<u32>) -> int {
    tramo(edad(f, corte, dias_default), limites)
}

/// The positive balances of the invoices that age into bucket `t`.
pub open spec fn deuda_en_tramo(fs: Seq<FacturaPendiente>, t: int, corte: int, dias_default: int, limites: Seq<u32>) -> int
    decreases fs.len(),
{
    if fs.len() == 0 {
        0
    } else {
        deuda_en_tramo(fs.drop_last(), t, corte, dias_default, limites) + if tramo_de(fs.last(), corte, dias_default, limites) == t {
            deuda_de(fs.last())
        } else {
            0
        }
    }
}

/// The positive balances of one customer's invoices that age into bucket `t`.
pub open spec fn deuda_cliente_en_tramo(fs: Seq<FacturaPendiente>, id: u128, t: int, corte: int, dias_default: int, limites: Seq<u32>) -> int
    decreases fs.len(),
{
    if fs.len() == 0 {
        0
    } else {
        deuda_cliente_en_tramo(fs.drop_last(), id, t, corte, dias_default, limites) + if fs.last().cliente_id == id
            && tramo_de(fs.last(), corte, dias_default, limites) == t {
            deuda_de(fs.last())
        } else {
            0
        }
    }
}

/// The buckets of the ageing and of each customer's row hold exactly the positive balances that
/// age into them.
pub open spec fn tramos_exactos(fs: Seq<FacturaPendiente>, corte: int, dd: int, limites: Seq<u32>, g: BucketsDeuda, gs: Seq<GrupoV>) -> bool {
    &&& forall|t: int| 0 <= t < 4 ==> #[trigger] en_tramo(g, t) == deuda_en_tramo(fs, t, corte, dd, limites)
    &&& forall|k: int, t: int| 0 <= k < gs.len() && 0 <= t < 4 ==> #[trigger] en_tramo(gs[k].buckets, t)
        == deuda_cliente_en_tramo(fs, gs[k].id, t, corte, dd, limites)
}

proof fn lema_tramo_acotado(fs: Seq<FacturaPendiente>, id: u128, t: int, corte: int, dd: int, limites: Seq<u32>)
    ensures
        0 <= deuda_cliente_en_tramo(fs, id, t, corte, dd, limites) <= deuda_cliente(fs, id),
    decreases fs.len(),
{
    if fs.len() > 0 {
        lema_tramo_acotado(fs.drop_last(), id, t, corte, dd, limites);
    }
}

proof fn lema_sumar_tramos(b: BucketsDeuda, dias: int, saldo: int, limites: Seq<u32>)
    ensures
        sumar(b, dias, saldo, limites) matches Some(b2) ==> forall|t: int| 0 <= t < 4 ==> #[trigger] en_tramo(b2, t) == en_tramo(b, t)
            + if t == tramo(dias, limites) { saldo } else { 0 },
{
}

proof fn lema_paso_tramos(fs: Seq<FacturaPendiente>, g: BucketsDeuda, gs: Seq<GrupoV>, f: FacturaPendiente, corte: int, dd: int, limites: Seq<u32>)
    requires
        inv_antiguedad(fs, g, gs),
        tramos_exactos(fs, corte, dd, limites, g, gs),
    ensures
        paso_antiguedad(g, gs, f, corte, dd, limites) matches Some((g2, gs2)) ==> tramos_exactos(fs.push(f), corte, dd, limites, g2, gs2),
{
    let fs2 = fs.push(f);
    assert(fs2.drop_last() =~= fs);
    assert(fs2.last() == f);
    match paso_antiguedad(g, gs, f, corte, dd, limites) {
        None => {},
        Some((g2, gs2)) => {
            let s = deuda_de(f);
            let tf = tramo_de(f, corte, dd, limites);
            assert forall|t: int| #[trigger] deuda_en_tramo(fs2, t, corte, dd, limites) == deuda_en_tramo(fs, t, corte, dd, limites)
                + if tf == t { s } else { 0 } by {}
            assert forall|id: u128, t: int| #[trigger] deuda_cliente_en_tramo(fs2, id, t, corte, dd, limites)
                == deuda_cliente_en_tramo(fs, id, t, corte, dd, limites) + if f.cliente_id == id && tf == t { s } else { 0 } by {}
            if s == 0 {
                assert(g2 == g && gs2 == gs);
            } else {
                let dias = edad(f, corte, dd);
                let c = f.cliente_id;
                lema_sumar_tramos(g, dias, s, limites);
                assert(sumar(g, dias, s, limites) == Some(g2));
                let k = posicion_grupo(gs, c) as int;
                lema_posicion(gs, c);
                if k < gs.len() && gs[k].id == c {
                    lema_sumar_tramos(gs[k].buckets, dias, s, limites);
                    let b = sumar(gs[k].buckets, dias, s, limites)->0;
                    assert(gs2 == gs.update(k, GrupoV { buckets: b, ..gs[k] }));
                    assert forall|j: int, t: int| 0 <= j < gs2.len() && 0 <= t < 4 implies #[trigger] en_tramo(gs2[j].buckets, t)
                        == deuda_cliente_en_tramo(fs2, gs2[j].id, t, corte, dd, limites) by {
                        if j != k {
                            assert(gs[j].id != c);
                            assert(gs2[j] == gs[j]);
                        }
                    }
                } else {
                    lema_sumar_tramos(buckets_vacios(), dias, s, limites);
                    let b = sumar(buckets_vacios(), dias, s, limites)->0;
                    let nuevo = GrupoV { id: c, nombre: f.cliente_nombre@, buckets: b };
                    assert(gs2 == gs.insert(k, nuevo));
                    assert(deuda_cliente(fs, c) == 0) by {
                        lema_deuda_no_negativa(fs, c);
                        if deuda_cliente(fs, c) != 0 {
                            let j = choose|j: int| 0 <= j < gs.len() && (#[trigger] gs[j]).id == c;
                            if j > k {
                                assert(gs[k].id < gs[j].id);
                            }
                        }
                    }
                    assert forall|j: int, t: int| 0 <= j < gs2.len() && 0 <= t < 4 implies #[trigger] en_tramo(gs2[j].buckets, t)
                        == deuda_cliente_en_tramo(fs2, gs2[j].id, t, corte, dd, limites) by {
                        if j < k {
                            assert(gs[j].id != c);
                            assert(gs2[j] == gs[j]);
                        } else if j > k {
                            assert(gs2[j] == gs[j - 1]);
                            assert(gs[j - 1].id != c);
                        } else {
                            lema_tramo_acotado(fs, c, t, corte, dd, limites);
                        }
                    }
                }
            }
        },
    }
}

proof fn lema_tramos(fs: Seq<FacturaPendiente>, corte: int, dd: int, limites: Seq<u32>)
    ensures
        antiguedad(fs, corte, dd, limites) matches Some((g, gs)) ==> tramos_exactos(fs, corte, dd, limites, g, gs),
    decreases fs.len(),
{
    if fs.len() > 0 {
        lema_tramos(fs.drop_last(), corte, dd, limites);
        lema_antiguedad(fs.drop_last(), corte, dd, limites);
        match antiguedad(fs.drop_last(), corte, dd, limites) {
            None => {},
            Some((g, gs)) => {
                lema_paso_tramos(fs.drop_last(), g, gs, fs.last(), corte, dd, limites);
                assert(fs.drop_last().push(fs.last()) =~= fs);
            },
        }
    }
}

/// Every customer's row ages each invoice into the same bucket as the global ageing: in each
/// bucket, a row holds exactly that customer's positive balances whose age at the cut (from the
/// due date, or from the date plus the default term) falls in it, and the global bucket holds all
/// of them.
pub proof fn cada_cliente_envejece_como_el_total(fs: Seq<FacturaPendiente>, corte: int, dias_default: int, limites: Seq<u32>)
    ensures
        antiguedad(fs, corte, dias_default, limites) matches Some((g, gs)) ==> tramos_exactos(
            fs,
            corte,
            dias_default,
            limites,
            g,
            ordenar_grupos(gs),
        ),
{
    lema_tramos(fs, corte, dias_default, limites);
    match antiguedad(fs, corte, dias_default, limites) {
        None => {},
        Some((g, gs)) => {
            let d = ordenar_grupos(gs);
            lema_ordenar_grupos(gs);
            assert forall|k: int, t: int| 0 <= k < d.len() && 0 <= t < 4 implies #[trigger] en_tramo(d[k].buckets, t)
                == deuda_cliente_en_tramo(fs, d[k].id, t, corte, dias_default, limites) by {
                assert(esta_en(gs, d[k]));
                let j = choose|j: int| 0 <= j < gs.len() && gs[j] == d[k];
                assert(en_tramo(gs[j].buckets, t) == deuda_cliente_en_tramo(fs, gs[j].id, t, corte, dias_default, limites));
            }
        },
    }
}

} // verus!

//! The boards: where a new column, card or checklist item goes, what a reordering changes, which
//! column a linked job lands in, and the version check of every edit.

use vstd::prelude::*;
use vstd::string::*;
use crate::error::{validation_err, AppError, campos_de, error_campo};
use crate::texto::copia;

verus! {

/// The position after the last one, or the first position when there is none.
pub open spec fn siguiente(ordenes: Seq<i32>) -> int
    decreases ordenes.len(),
{
    if ordenes.len() == 0 {
        0
    } else {
        let resto = siguiente(ordenes.drop_last());
        if ordenes.last() + 1 > resto {
            ordenes.last() + 1
        } else {
            resto
        }
    }
}

/// The position of a new column, card or checklist item: one past the largest there is.
pub fn siguiente_orden(ordenes: &Vec<i32>) -> (r: i32)
    requires
        forall|i: int| 0 <= i < ordenes@.len() ==> ordenes@[i] < i32::MAX,
    ensures
        r == siguiente(ordenes@),
        forall|i: int| 0 <= i < ordenes@.len() ==> ordenes@[i] < r,
        r >= 0,
{
    let mut r: i32 = 0;
    let mut i: usize = 0;
    assert(ordenes@.take(0) =~= Seq::<i32>::empty());
    while i < ordenes.len()
        invariant
            i <= ordenes@.len(),
            forall|k: int| 0 <= k < ordenes@.len() ==> ordenes@[k] < i32::MAX,
            r == siguiente(ordenes@.take(i as int)),
            forall|k: int| 0 <= k < i ==> ordenes@[k] < r,
            r >= 0,
        decreases ordenes@.len() - i,
    {
        assert(ordenes@.take(i + 1).drop_last() =~= ordenes@.take(i as int));
        assert(ordenes@.take(i + 1).last() == ordenes@[i as int]);
        let x = ordenes[i] + 1;
        if x > r {
            r = x;
        }
        i = i + 1;
    }
    assert(ordenes@.take(ordenes@.len() as int) =~= ordenes@);
    r
}

/// The value of a hexadecimal digit.
pub open spec fn digito_hex(c: char) -> Option<int> {
    if '0' <= c <= '9' {
        Some(c as int - '0' as int)
    } else if 'a' <= c <= 'f' {
        Some(c as int - 'a' as int + 10)
    } else if 'A' <= c <= 'F' {
        Some(c as int - 'A' as int + 10)
    } else {
        None
    }
}

/// The value of a text of hexadecimal digits.
pub open spec fn valor_hex(s: Seq<char>) -> Option<int>
    decreases s.len(),
{
    if s.len() == 0 {
        Some(0)
    } else {
        match (valor_hex(s.drop_last()), digito_hex(s.last())) {
            (Some(v), Some(d)) => Some(v * 16 + d),
            _ => None,
        }
    }
}

/// A row version as the interface sends it: sixteen hexadecimal digits.
pub open spec fn version_de(s: Seq<char>) -> Option<int> {
    if s.len() == 16 {
        valor_hex(s)
    } else {
        None
    }
}

/// Sixteen to the `n`.
pub open spec fn p16(n: nat) -> int
    decreases n,
{
    if n == 0 {
        1
    } else {
        16 * p16((n - 1) as nat)
    }
}

proof fn lema_p16_crece(a: nat, b: nat)
    requires
        a <= b,
    ensures
        1 <= p16(a) <= p16(b),
    decreases b,
{
    if a < b {
        lema_p16_crece(a, (b - 1) as nat);
    } else if a > 0 {
        lema_p16_crece((a - 1) as nat, (a - 1) as nat);
    }
}

proof fn lema_valor_hex_acotado(s: Seq<char>)
    ensures
        valor_hex(s) matches Some(v) ==> 0 <= v < p16(s.len()),
    decreases s.len(),
{
    if s.len() > 0 {
        lema_valor_hex_acotado(s.drop_last());
        if let (Some(v), Some(d)) = (valor_hex(s.drop_last()), digito_hex(s.last())) {
            let p = p16((s.len() - 1) as nat);
            assert(v * 16 + d < p * 16) by (nonlinear_arith)
                requires
                    0 <= v < p,
                    0 <= d < 16,
            ;
        }
    }
}

/// Reads a row version.
pub fn leer_version(s: &str) -> (r: Option<u64>)
    ensures
        match version_de(s@) {
            Some(v) => r == Some(v as u64) && 0 <= v <= u64::MAX,
            None => r is None,
        },
{
    let n = s.unicode_len();
    if n != 16 {
        return None;
    }
    let mut v: u64 = 0;
    let mut i: usize = 0;
    assert(s@.take(0) =~= Seq::<char>::empty());
    while i < 16
        invariant
            n == s@.len(),
            n == 16,
            i <= 16,
            valor_hex(s@.take(i as int)) == Some(v as int),
        decreases 16 - i,
    {
        let c = s.get_char(i);
        assert(s@.take(i + 1).drop_last() =~= s@.take(i as int));
        assert(s@.take(i + 1).last() == c);
        let d: u64 = if '0' <= c && c <= '9' {
            (c as u32 - '0' as u32) as u64
        } else if 'a' <= c && c <= 'f' {
            (c as u32 - 'a' as u32 + 10) as u64
        } else if 'A' <= c && c <= 'F' {
            (c as u32 - 'A' as u32 + 10) as u64
        } else {
            proof {
                lema_hex_prefijo(s@, i + 1);
            }
            return None;
        };
        proof {
            lema_valor_hex_acotado(s@.take(i + 1));
            lema_p16_crece((i + 1) as nat, 16);
            reveal_with_fuel(p16, 17);
            assert(p16(16) == 0x1_0000_0000_0000_0000);
        }
        v = v * 16 + d;
        i = i + 1;
    }
    assert(s@.take(16) =~= s@);
    Some(v)
}

proof fn lema_hex_prefijo(s: Seq<char>, k: int)
    requires
        0 <= k <= s.len(),
        valor_hex(s.take(k)) is None,
    ensures
        valor_hex(s) is None,
    decreases s.len() - k,
{
    if k < s.len() {
        assert(s.take(k + 1).drop_last() =~= s.take(k));
        lema_hex_prefijo(s, k + 1);
    } else {
        assert(s.take(k) =~= s);
    }
}

/// An edit is taken only against the version it was read at: a text that is not a version is a
/// validation error, another version means somebody else changed the row first.
pub open spec fn version_ok(r: Result<(), AppError>, actual: u64, texto: Seq<char>, entidad: Seq<char>) -> bool {
    match version_de(texto) {
        None => r matches Err(e) && e is Validation && campos_de(e) == seq![
            error_campo("rowVersion"@, "Validation.RowVersion.Invalid"@),
        ],
        Some(v) => if v == actual {
            r is Ok
        } else {
            r matches Err(e) && e matches AppError::Concurrency { entity } && entity@ == entidad
        },
    }
}

/// The settings the boards read: none.
pub struct KanbanService {}

impl KanbanService {
    pub fn new() -> (s: KanbanService) {
        KanbanService {  }
    }

    /// The version check of an edit of a row of `entidad`.
    pub fn verificar_version(&self, actual: u64, texto: &str, entidad: &str) -> (r: Result<(), AppError>)
        ensures
            version_ok(r, actual, texto@, entidad@),
    {
        match leer_version(texto) {
            None => Err(validation_err("rowVersion", "Validation.RowVersion.Invalid")),
            Some(v) => if v == actual {
                Ok(())
            } else {
                Err(AppError::Concurrency { entity: copia(entidad) })
            },
        }
    }

    /// A card after an edit, as `edicion_tarjeta_ok` says.
    pub fn editar_tarjeta(&self, actual: Tarjeta, edicion: EdicionTarjeta) -> (r: Result<Tarjeta, AppError>)
        ensures
            edicion_tarjeta_ok(r, actual, edicion),
    {
        match self.verificar_version(actual.row_version, edicion.row_version.as_str(), "kanban_tarjetas") {
            Ok(()) => {},
            Err(e) => return Err(e),
        }
        let etiquetas = match edicion.etiqueta_ids {
            Some(ids) => ids,
            None => actual.etiquetas,
        };
        Ok(
            Tarjeta {
                id: actual.id,
                columna_id: actual.columna_id,
                titulo: edicion.titulo,
                descripcion: edicion.descripcion,
                prioridad: edicion.prioridad,
                fecha_vencimiento: edicion.fecha_vencimiento,
                orden: actual.orden,
                trabajo_id: actual.trabajo_id,
                orden_trabajo_id: actual.orden_trabajo_id,
                archivada: actual.archivada,
                etiquetas,
                row_version: actual.row_version,
            },
        )
    }

    /// A preset board is never deleted.
    pub fn verificar_borrado_tablero(&self, es_preset: bool) -> (r: Result<(), AppError>)
        ensures
            !es_preset ==> r is Ok,
            es_preset ==> (r matches Err(e) && e is Validation && campos_de(e) == seq![
                error_campo("id"@, "Validation.Kanban.CannotDeletePreset"@),
            ]),
    {
        if es_preset {
            Err(validation_err("id", "Validation.Kanban.CannotDeletePreset"))
        } else {
            Ok(())
        }
    }
}

/// A card of a board.
#[derive(Debug)]
pub struct Tarjeta {
    pub id: u128,
    pub columna_id: u128,
    pub titulo: String,
    pub descripcion: Option<String>,
    /// The card's priority, by its code.
    pub prioridad: u8,
    pub fecha_vencimiento: Option<i32>,
    pub orden: i32,
    pub trabajo_id: Option<u128>,
    pub orden_trabajo_id: Option<u128>,
    pub archivada: bool,
    pub etiquetas: Vec<u128>,
    pub row_version: u64,
}

/// What the card form sends: the labels are left as they are when it sends none.
#[derive(Debug)]
pub struct EdicionTarjeta {
    pub titulo: String,
    pub descripcion: Option<String>,
    pub prioridad: u8,
    pub fecha_vencimiento: Option<i32>,
    pub row_version: String,
    pub etiqueta_ids: Option<Vec<u128>>,
}

/// An edit of a card: only against the version it was read at; it changes the title,
/// description, priority and due date, and the labels when the form sends them; the column,
/// position, links, archive flag and id stay, and so does the version it was read at.
pub open spec fn edicion_tarjeta_ok(r: Result<Tarjeta, AppError>, actual: Tarjeta, ed: EdicionTarjeta) -> bool {
    match version_de(ed.row_version@) {
        None => r matches Err(e) && e is Validation && campos_de(e) == seq![
            error_campo("rowVersion"@, "Validation.RowVersion.Invalid"@),
        ],
        Some(v) => if v != actual.row_version {
            r matches Err(e) && e matches AppError::Concurrency { entity } && entity@ == "kanban_tarjetas"@
        } else {
            r matches Ok(t) && t.id == actual.id && t.columna_id == actual.columna_id && t.titulo == ed.titulo
                && t.descripcion == ed.descripcion && t.prioridad == ed.prioridad && t.fecha_vencimiento
                == ed.fecha_vencimiento && t.orden == actual.orden && t.trabajo_id == actual.trabajo_id
                && t.orden_trabajo_id == actual.orden_trabajo_id && t.archivada == actual.archivada
                && t.row_version == actual.row_version && t.etiquetas@ == match ed.etiqueta_ids {
                Some(ids) => ids@,
                None => actual.etiquetas@,
            }
        },
    }
}

/// A column of a new board.
#[derive(Debug)]
pub struct ColumnaNueva {
    pub nombre: String,
    pub color: String,
    pub orden: i32,
}

/// A new board starts with three columns: to do, in progress and done.
pub fn columnas_por_defecto() -> (r: Vec<ColumnaNueva>)
    ensures
        r@.len() == 3,
        r@[0].nombre@ == "Por Hacer"@ && r@[0].color@ == "#64748b"@ && r@[0].orden == 0,
        r@[1].nombre@ == "En Progreso"@ && r@[1].color@ == "#3b82f6"@ && r@[1].orden == 1,
        r@[2].nombre@ == "Listo"@ && r@[2].color@ == "#10b981"@ && r@[2].orden == 2,
{
    let mut r: Vec<ColumnaNueva> = Vec::new();
    r.push(ColumnaNueva { nombre: copia("Por Hacer"), color: copia("#64748b"), orden: 0 });
    r.push(ColumnaNueva { nombre: copia("En Progreso"), color: copia("#3b82f6"), orden: 1 });
    r.push(ColumnaNueva { nombre: copia("Listo"), color: copia("#10b981"), orden: 2 });
    r
}

/// A row being reordered: its id and its stored position.
#[derive(Debug, Clone, Copy, PartialEq, Eq, Structural)]
pub struct Posicion {
    pub id: u128,
    pub orden: i32,
}

/// The stored position of a row, if it exists: the last one written by the plan so far, else the
/// first stored one.
pub open spec fn posicion_actual(plan: Seq<Posicion>, existentes: Seq<Posicion>, id: u128) -> Option<i32>
    decreases plan.len() + existentes.len(),
{
    if plan.len() > 0 {
        if plan.last().id == id {
            Some(plan.last().orden)
        } else {
            posicion_actual(plan.drop_last(), existentes, id)
        }
    } else if existentes.len() == 0 {
        None
    } else if existentes[0].id == id {
        Some(existentes[0].orden)
    } else {
        posicion_actual(plan, existentes.drop_first(), id)
    }
}

/// The writes of a reordering: each listed row that exists takes its index in the list as its
/// position, and is written only when that changes it.
pub open spec fn plan_reorden(ids: Seq<u128>, existentes: Seq<Posicion>) -> Seq<Posicion>
    decreases ids.len(),
{
    if ids.len() == 0 {
        seq![]
    } else {
        let plan = plan_reorden(ids.drop_last(), existentes);
        let idx = ids.len() - 1;
        match posicion_actual(plan, existentes, ids.last()) {
            Some(o) => if o != idx {
                plan.push(Posicion { id: ids.last(), orden: idx as i32 })
            } else {
                plan
            },
            None => plan,
        }
    }
}

fn buscar_posicion(plan: &Vec<Posicion>, existentes: &Vec<Posicion>, id: u128) -> (r: Option<i32>)
    ensures
        r == posicion_actual(plan@, existentes@, id),
{
    let mut j: usize = plan.len();
    assert(plan@.take(j as int) =~= plan@);
    while j > 0
        invariant
            j <= plan@.len(),
            posicion_actual(plan@, existentes@, id) == posicion_actual(plan@.take(j as int), existentes@, id),
        decreases j,
    {
        assert(plan@.take(j as int).drop_last() =~= plan@.take(j - 1));
        if plan[j - 1].id == id {
            return Some(plan[j - 1].orden);
        }
        j = j - 1;
    }
    let mut k: usize = 0;
    assert(plan@.take(0) =~= Seq::<Posicion>::empty());
    assert(existentes@.skip(0) =~= existentes@);
    while k < existentes.len()
        invariant
            k <= existentes@.len(),
            posicion_actual(plan@, existentes@, id) == posicion_actual(Seq::<Posicion>::empty(), existentes@.skip(k as int), id),
        decreases existentes@.len() - k,
    {
        assert(existentes@.skip(k as int).drop_first() =~= existentes@.skip(k + 1));
        if existentes[k].id == id {
            return Some(existentes[k].orden);
        }
        k = k + 1;
    }
    None
}

/// The writes a reordering makes, in list order.
pub fn reordenar(ids: &Vec<u128>, existentes: &Vec<Posicion>) -> (r: Vec<Posicion>)
    requires
        ids@.len() <= i32::MAX,
    ensures
        r@ == plan_reorden(ids@, existentes@),
{
    let mut plan: Vec<Posicion> = Vec::new();
    let mut i: usize = 0;
    assert(ids@.take(0) =~= Seq::<u128>::empty());
    while i < ids.len()
        invariant
            i <= ids@.len(),
            ids@.len() <= i32::MAX,
            plan@ == plan_reorden(ids@.take(i as int), existentes@),
        decreases ids@.len() - i,
    {
        assert(ids@.take(i + 1).drop_last() =~= ids@.take(i as int));
        assert(ids@.take(i + 1).last() == ids@[i as int]);
        let id = ids[i];
        match buscar_posicion(&plan, existentes, id) {
            Some(o) => {
                if o != i as i32 {
                    plan.push(Posicion { id, orden: i as i32 });
                }
            },
            None => {},
        }
        i = i + 1;
    }
    assert(ids@.take(ids@.len() as int) =~= ids@);
    plan
}

/// A column of a preset board, with the job state it stands for, if any.
#[derive(Debug, Clone, Copy, PartialEq, Eq, Structural)]
pub struct ColumnaPreset {
    pub id: u128,
    pub estado_mapeado: Option<i32>,
}

/// The first column standing for this state.
pub open spec fn primera_con_estado(cols: Seq<ColumnaPreset>, estado: i32) -> Option<u128>
    decreases cols.len(),
{
    if cols.len() == 0 {
        None
    } else if cols[0].estado_mapeado == Some(estado) {
        Some(cols[0].id)
    } else {
        primera_con_estado(cols.drop_first(), estado)
    }
}

/// The column a job in this state lands in: the first that stands for the state, else the first
/// column, else none.
pub open spec fn columna_de(cols: Seq<ColumnaPreset>, estado: i32) -> Option<u128> {
    match primera_con_estado(cols, estado) {
        Some(id) => Some(id),
        None => if cols.len() > 0 {
            Some(cols[0].id)
        } else {
            None
        },
    }
}

pub fn columna_para_estado(cols: &Vec<ColumnaPreset>, estado: i32) -> (r: Option<u128>)
    ensures
        r == columna_de(cols@, estado),
{
    let mut k: usize = 0;
    assert(cols@.skip(0) =~= cols@);
    while k < cols.len()
        invariant
            k <= cols@.len(),
            primera_con_estado(cols@, estado) == primera_con_estado(cols@.skip(k as int), estado),
        decreases cols@.len() - k,
    {
        assert(cols@.skip(k as int).drop_first() =~= cols@.skip(k + 1));
        if cols[k].estado_mapeado == Some(estado) {
            return Some(cols[k].id);
        }
        k = k + 1;
    }
    if cols.len() > 0 {
        Some(cols[0].id)
    } else {
        None
    }
}

/// What syncing a preset board does with the card of a linked job.
#[derive(Debug, Clone, Copy, PartialEq, Eq, Structural)]
pub enum AccionTarjeta {
    /// The card is where it belongs, with the job's title.
    Nada,
    /// The card moves to the column or takes the job's title.
    Actualizar,
    /// The job has no card yet.
    Crear,
}

/// A linked card is rewritten only when its column or its title differ from the job's.
pub fn accion_para_tarjeta(existente: Option<(u128, &str)>, columna: u128, titulo: &str) -> (r: AccionTarjeta)
    ensures
        r == match existente {
            None => AccionTarjeta::Crear,
            Some((c, t)) => if c != columna || t@ != titulo@ {
                AccionTarjeta::Actualizar
            } else {
                AccionTarjeta::Nada
            },
        },
{
    match existente {
        None => AccionTarjeta::Crear,
        Some((c, t)) => if c != columna || !crate::texto::iguales(t, titulo) {
            AccionTarjeta::Actualizar
        } else {
            AccionTarjeta::Nada
        },
    }
}

/// A linked card as the sync reads it: the job it belongs to, its column and its title.
pub open spec fn tarjetas_v(ts: Seq<(u128, u128, String)>) -> Seq<(u128, u128, Seq<char>)> {
    ts.map_values(|t: (u128, u128, String)| (t.0, t.1, t.2@))
}

/// The jobs as the sync reads them: id, state and description.
pub open spec fn trabajos_v(ts: Seq<(u128, i32, String)>) -> Seq<(u128, i32, Seq<char>)> {
    ts.map_values(|t: (u128, i32, String)| (t.0, t.1, t.2@))
}

/// The column and title of the first card of this job, if it has one.
pub open spec fn tarjeta_de(ts: Seq<(u128, u128, Seq<char>)>, trabajo: u128) -> Option<(u128, Seq<char>)>
    decreases ts.len(),
{
    if ts.len() == 0 {
        None
    } else if ts[0].0 == trabajo {
        Some((ts[0].1, ts[0].2))
    } else {
        tarjeta_de(ts.drop_first(), trabajo)
    }
}

/// What the sync does for a job: nothing when the board has no column; otherwise a card is
/// created, rewritten or left, as `accion_para_tarjeta` says.
pub open spec fn accion_v(existente: Option<(u128, Seq<char>)>, columna: Option<u128>, titulo: Seq<char>) -> AccionTarjeta {
    match columna {
        None => AccionTarjeta::Nada,
        Some(c) => match existente {
            None => AccionTarjeta::Crear,
            Some((cc, t)) => if cc != c || t != titulo {
                AccionTarjeta::Actualizar
            } else {
                AccionTarjeta::Nada
            },
        },
    }
}

/// The step of the sync for one job.
pub open spec fn paso_sincronizacion(cols: Seq<ColumnaPreset>, ts: Seq<(u128, u128, Seq<char>)>, t: (u128, i32, Seq<char>)) -> (u128, AccionTarjeta) {
    (t.0, accion_v(tarjeta_de(ts, t.0), columna_de(cols, t.1), t.2))
}

/// The first card of the job moved to `columna` with `titulo`.
pub open spec fn reescribir(ts: Seq<(u128, u128, Seq<char>)>, trabajo: u128, columna: u128, titulo: Seq<char>) -> Seq<(u128, u128, Seq<char>)>
    decreases ts.len(),
{
    if ts.len() == 0 {
        ts
    } else if ts[0].0 == trabajo {
        seq![(trabajo, columna, titulo)] + ts.drop_first()
    } else {
        seq![ts[0]] + reescribir(ts.drop_first(), trabajo, columna, titulo)
    }
}

/// The cards after the sync handles one job.
pub open spec fn aplicar_uno(cols: Seq<ColumnaPreset>, ts: Seq<(u128, u128, Seq<char>)>, t: (u128, i32, Seq<char>)) -> Seq<(u128, u128, Seq<char>)> {
    match columna_de(cols, t.1) {
        None => ts,
        Some(c) => match tarjeta_de(ts, t.0) {
            Some(_) => reescribir(ts, t.0, c, t.2),
            None => ts.push((t.0, c, t.2)),
        },
    }
}

/// The cards after the sync handles every job, in order.
pub open spec fn aplicar(cols: Seq<ColumnaPreset>, ts: Seq<(u128, u128, Seq<char>)>, trabajos: Seq<(u128, i32, Seq<char>)>) -> Seq<(u128, u128, Seq<char>)>
    decreases trabajos.len(),
{
    if trabajos.len() == 0 {
        ts
    } else {
        aplicar_uno(cols, aplicar(cols, ts, trabajos.drop_last()), trabajos.last())
    }
}

proof fn lema_reescribir(ts: Seq<(u128, u128, Seq<char>)>, x: u128, c: u128, t: Seq<char>, y: u128)
    ensures
        y != x ==> tarjeta_de(reescribir(ts, x, c, t), y) == tarjeta_de(ts, y),
        tarjeta_de(ts, x) is Some ==> tarjeta_de(reescribir(ts, x, c, t), x) == Some((c, t)),
    decreases ts.len(),
{
    if ts.len() > 0 {
        let r = reescribir(ts, x, c, t);
        if ts[0].0 == x {
            assert(r.drop_first() =~= ts.drop_first());
        } else {
            lema_reescribir(ts.drop_first(), x, c, t, y);
            assert(r.drop_first() =~= reescribir(ts.drop_first(), x, c, t));
        }
    }
}

proof fn lema_agregar(ts: Seq<(u128, u128, Seq<char>)>, x: u128, c: u128, t: Seq<char>, y: u128)
    ensures
        y != x ==> tarjeta_de(ts.push((x, c, t)), y) == tarjeta_de(ts, y),
        tarjeta_de(ts, x) is None ==> tarjeta_de(ts.push((x, c, t)), x) == Some((c, t)),
    decreases ts.len(),
{
    if ts.len() > 0 {
        assert(ts.push((x, c, t)).drop_first() =~= ts.drop_first().push((x, c, t)));
        assert(ts.push((x, c, t))[0] == ts[0]);
        lema_agregar(ts.drop_first(), x, c, t, y);
    } else {
        let e = ts.push((x, c, t));
        assert(e.drop_first() =~= Seq::<(u128, u128, Seq<char>)>::empty());
        assert(tarjeta_de(e.drop_first(), y) is None);
        assert(e[0] == (x, c, t));
    }
}

proof fn lema_aplicar_uno(cols: Seq<ColumnaPreset>, ts: Seq<(u128, u128, Seq<char>)>, t: (u128, i32, Seq<char>), y: u128)
    ensures
        y != t.0 ==> tarjeta_de(aplicar_uno(cols, ts, t), y) == tarjeta_de(ts, y),
        paso_sincronizacion(cols, aplicar_uno(cols, ts, t), t).1 == AccionTarjeta::Nada,
{
    match columna_de(cols, t.1) {
        None => {},
        Some(c) => {
            lema_reescribir(ts, t.0, c, t.2, y);
            lema_agregar(ts, t.0, c, t.2, y);
        },
    }
}

/// Syncing is idempotent: once the plan of a board is carried out, a second sync of the same jobs
/// finds nothing to do (each job being listed once).
pub proof fn sincronizar_dos_veces_no_cambia_nada(
    cols: Seq<ColumnaPreset>,
    ts: Seq<(u128, u128, Seq<char>)>,
    trabajos: Seq<(u128, i32, Seq<char>)>,
)
    requires
        forall|i: int, j: int| 0 <= i < j < trabajos.len() ==> trabajos[i].0 != trabajos[j].0,
    ensures
        forall|i: int| 0 <= i < trabajos.len() ==> (#[trigger] paso_sincronizacion(cols, aplicar(cols, ts, trabajos), trabajos[i])).1
            == AccionTarjeta::Nada,
    decreases trabajos.len(),
{
    if trabajos.len() > 0 {
        let n = trabajos.len() - 1;
        let previos = trabajos.drop_last();
        sincronizar_dos_veces_no_cambia_nada(cols, ts, previos);
        let p = aplicar(cols, ts, previos);
        assert forall|i: int| 0 <= i < trabajos.len() implies (#[trigger] paso_sincronizacion(cols, aplicar(cols, ts, trabajos), trabajos[i])).1
            == AccionTarjeta::Nada by {
            lema_aplicar_uno(cols, p, trabajos[n], trabajos[i].0);
            if i < n {
                assert(previos[i] == trabajos[i]);
                assert(paso_sincronizacion(cols, p, previos[i]).1 == AccionTarjeta::Nada);
            }
        }
    }
}

fn buscar_tarjeta(ts: &Vec<(u128, u128, String)>, trabajo: u128) -> (r: Option<usize>)
    ensures
        match tarjeta_de(tarjetas_v(ts@), trabajo) {
            None => r is None,
            Some(x) => r matches Some(k) && k < ts@.len() && x == (ts@[k as int].1, ts@[k as int].2@),
        },
{
    let mut k: usize = 0;
    assert(tarjetas_v(ts@).skip(0) =~= tarjetas_v(ts@));
    while k < ts.len()
        invariant
            k <= ts@.len(),
            tarjeta_de(tarjetas_v(ts@), trabajo) == tarjeta_de(tarjetas_v(ts@).skip(k as int), trabajo),
        decreases ts@.len() - k,
    {
        assert(tarjetas_v(ts@).skip(k as int).drop_first() =~= tarjetas_v(ts@).skip(k + 1));
        assert(tarjetas_v(ts@).skip(k as int)[0] == (ts@[k as int].0, ts@[k as int].1, ts@[k as int].2@));
        if ts[k].0 == trabajo {
            return Some(k);
        }
        k = k + 1;
    }
    None
}

/// The plan of syncing a board of jobs: for each job, in order, whether its card is created,
/// rewritten or left; the cards are `(job, column, title)` and the jobs `(id, state, description)`.
pub fn plan_sincronizacion(cols: &Vec<ColumnaPreset>, tarjetas: &Vec<(u128, u128, String)>, trabajos: &Vec<(u128, i32, String)>) -> (r: Vec<(u128, AccionTarjeta)>)
    ensures
        r@.len() == trabajos@.len(),
        forall|i: int| 0 <= i < trabajos@.len() ==> r@[i] == paso_sincronizacion(cols@, tarjetas_v(tarjetas@), #[trigger] trabajos_v(trabajos@)[i]),
{
    let mut r: Vec<(u128, AccionTarjeta)> = Vec::new();
    let mut i: usize = 0;
    while i < trabajos.len()
        invariant
            i <= trabajos@.len(),
            r@.len() == i,
            forall|k: int| 0 <= k < i ==> r@[k] == paso_sincronizacion(cols@, tarjetas_v(tarjetas@), #[trigger] trabajos_v(trabajos@)[k]),
        decreases trabajos@.len() - i,
    {
        let t = &trabajos[i];
        assert(trabajos_v(trabajos@)[i as int] == (t.0, t.1, t.2@));
        let accion = match columna_para_estado(cols, t.1) {
            None => AccionTarjeta::Nada,
            Some(c) => match buscar_tarjeta(tarjetas, t.0) {
                None => accion_para_tarjeta(None, c, t.2.as_str()),
                Some(k) => accion_para_tarjeta(Some((tarjetas[k].1, tarjetas[k].2.as_str())), c, t.2.as_str()),
            },
        };
        r.push((t.0, accion));
        i = i + 1;
    }
    r
}

/// What the sync of a board of work orders does for one order: nothing when the board has no
/// column; a card is created for an order without one, and an existing card only takes the
/// order's title, wherever it sits.
pub open spec fn paso_sincronizacion_orden(cols: Seq<ColumnaPreset>, ts: Seq<(u128, u128, Seq<char>)>, o: (u128, Seq<char>)) -> (u128, AccionTarjeta) {
    (o.0, if cols.len() == 0 {
        AccionTarjeta::Nada
    } else {
        match tarjeta_de(ts, o.0) {
            None => AccionTarjeta::Crear,
            Some((_, t)) => if t != o.1 {
                AccionTarjeta::Actualizar
            } else {
                AccionTarjeta::Nada
            },
        }
    })
}

/// The plan of syncing a board of work orders: for each order, in order, whether its card is
/// created, retitled or left; the cards are `(order, column, title)` and the orders `(id, title)`.
pub fn plan_sincronizacion_ordenes(cols: &Vec<ColumnaPreset>, tarjetas: &Vec<(u128, u128, String)>, ordenes: &Vec<(u128, String)>) -> (r: Vec<(u128, AccionTarjeta)>)
    ensures
        r@.len() == ordenes@.len(),
        forall|i: int| 0 <= i < ordenes@.len() ==> r@[i] == paso_sincronizacion_orden(cols@, tarjetas_v(tarjetas@), (ordenes@[i].0, #[trigger] ordenes@[i].1@)),
{
    let mut r: Vec<(u128, AccionTarjeta)> = Vec::new();
    let mut i: usize = 0;
    while i < ordenes.len()
        invariant
            i <= ordenes@.len(),
            r@.len() == i,
            forall|k: int| 0 <= k < i ==> r@[k] == paso_sincronizacion_orden(cols@, tarjetas_v(tarjetas@), (ordenes@[k].0, #[trigger] ordenes@[k].1@)),
        decreases ordenes@.len() - i,
    {
        let o = &ordenes[i];
        let accion = if cols.len() == 0 {
            AccionTarjeta::Nada
        } else {
            match buscar_tarjeta(tarjetas, o.0) {
                None => AccionTarjeta::Crear,
                Some(k) => if crate::texto::iguales(tarjetas[k].2.as_str(), o.1.as_str()) {
                    AccionTarjeta::Nada
                } else {
                    AccionTarjeta::Actualizar
                },
            }
        };
        r.push((o.0, accion));
        i = i + 1;
    }
    r
}

/// The number of items of a checklist that are done.
pub open spec fn completadas(items: Seq<bool>) -> nat
    decreases items.len(),
{
    if items.len() == 0 {
        0
    } else {
        completadas(items.drop_last()) + if items.last() { 1nat } else { 0nat }
    }
}

/// The progress of a card's checklist: how many items, and how many done.
pub fn resumen_checklist(items: &Vec<bool>) -> (r: (usize, usize))
    ensures
        r.0 == items@.len(),
        r.1 == completadas(items@),
{
    let mut n: usize = 0;
    let mut i: usize = 0;
    assert(items@.take(0) =~= Seq::<bool>::empty());
    while i < items.len()
        invariant
            i <= items@.len(),
            n == completadas(items@.take(i as int)),
            n <= i,
        decreases items@.len() - i,
    {
        assert(items@.take(i + 1).drop_last() =~= items@.take(i as int));
        if items[i] {
            n = n + 1;
        }
        i = i + 1;
    }
    assert(items@.take(items@.len() as int) =~= items@);
    (items.len(), n)
}

} // verus!

//! The calendar: the checks of an event, the events projected from holidays and jobs, and the
//! order the agenda is listed in.

use vstd::prelude::*;
use vstd::string::*;
use crate::error::{campos_de, error_campo, validation_err, AppError};
use crate::fechas::{dia_de, fecha_de, guardado_de, instante_de_texto, leer_instante, texto_de_fecha, texto_fecha, texto_guardado};
use crate::texto::{a_minusculas, copia, lex_asimetrico, lex_menor, lex_negativamente_transitivo, menor_lex, minusculas, recortado, recortar};

verus! {

/// The kind of an event.
#[derive(Debug, Clone, Copy, PartialEq, Eq, Structural)]
pub enum TipoEvento {
    Trabajo,
    Otro,
}

/// An event of the agenda, with its start and end written as stored timestamps.
#[derive(Debug)]
pub struct EventoCalendario {
    pub id: u128,
    pub titulo: String,
    pub descripcion: Option<String>,
    pub tipo: TipoEvento,
    pub inicio: String,
    pub fin: String,
    pub todo_el_dia: bool,
    pub color: Option<String>,
    pub trabajo_id: Option<u128>,
    pub kanban_tarjeta_id: Option<u128>,
    pub recursos: Vec<u128>,
    pub es_virtual: bool,
    pub row_version: u64,
}

/// What an event says.
pub struct EventoV {
    pub id: u128,
    pub titulo: Seq<char>,
    pub descripcion: Option<Seq<char>>,
    pub tipo: TipoEvento,
    pub inicio: Seq<char>,
    pub fin: Seq<char>,
    pub todo_el_dia: bool,
    pub color: Option<Seq<char>>,
    pub trabajo_id: Option<u128>,
    pub kanban_tarjeta_id: Option<u128>,
    pub recursos: Seq<u128>,
    pub es_virtual: bool,
    pub row_version: u64,
}

pub open spec fn opt_v(o: Option<String>) -> Option<Seq<char>> {
    match o {
        Some(s) => Some(s@),
        None => None,
    }
}

impl View for EventoCalendario {
    type V = EventoV;

    open spec fn view(&self) -> EventoV {
        EventoV {
            id: self.id,
            titulo: self.titulo@,
            descripcion: opt_v(self.descripcion),
            tipo: self.tipo,
            inicio: self.inicio@,
            fin: self.fin@,
            todo_el_dia: self.todo_el_dia,
            color: opt_v(self.color),
            trabajo_id: self.trabajo_id,
            kanban_tarjeta_id: self.kanban_tarjeta_id,
            recursos: self.recursos@,
            es_virtual: self.es_virtual,
            row_version: self.row_version,
        }
    }
}

pub open spec fn eventos_v(v: Seq<EventoCalendario>) -> Seq<EventoV> {
    v.map_values(|e: EventoCalendario| e@)
}

/// A holiday shown as an all-day event of its date.
pub open spec fn feriado_v(id: u128, fecha: i32, nombre: Seq<char>, tipo: Option<Seq<char>>) -> EventoV {
    EventoV {
        id,
        titulo: "Feriado: "@ + nombre,
        descripcion: tipo,
        tipo: TipoEvento::Otro,
        inicio: texto_de_fecha(fecha) + "T00:00:00.000Z"@,
        fin: texto_de_fecha(fecha) + "T23:59:59.999Z"@,
        todo_el_dia: true,
        color: Some("#ef4444"@),
        trabajo_id: None,
        kanban_tarjeta_id: None,
        recursos: seq![],
        es_virtual: true,
        row_version: 0,
    }
}

/// A job shown on the day it starts, from eight, until six on the day it ends, or until five the
/// same day when it has no end.
pub open spec fn trabajo_v(id: u128, descripcion: Seq<char>, fecha_inicio: i32, fecha_fin: Option<i32>) -> EventoV {
    EventoV {
        id,
        titulo: "Trabajo: "@ + descripcion,
        descripcion: Some(descripcion),
        tipo: TipoEvento::Trabajo,
        inicio: texto_de_fecha(fecha_inicio) + "T08:00:00.000Z"@,
        fin: match fecha_fin {
            Some(f) => texto_de_fecha(f) + "T18:00:00.000Z"@,
            None => texto_de_fecha(fecha_inicio) + "T17:00:00.000Z"@,
        },
        todo_el_dia: false,
        color: Some("#3b82f6"@),
        trabajo_id: Some(id),
        kanban_tarjeta_id: None,
        recursos: seq![],
        es_virtual: true,
        row_version: 0,
    }
}

/// `x` placed after every event that does not start after it.
pub open spec fn insertar_evento(s: Seq<EventoV>, x: EventoV) -> Seq<EventoV>
    decreases s.len(),
{
    if s.len() == 0 {
        seq![x]
    } else if !lex_menor(x.inicio, s.last().inicio) {
        s.push(x)
    } else {
        insertar_evento(s.drop_last(), x).push(s.last())
    }
}

/// The stable sort of the agenda by start.
pub open spec fn ordenar_eventos_v(s: Seq<EventoV>) -> Seq<EventoV>
    decreases s.len(),
{
    if s.len() == 0 {
        seq![]
    } else {
        insertar_evento(ordenar_eventos_v(s.drop_last()), s.last())
    }
}

/// In order of start: no event starts before one listed ahead of it.
pub open spec fn por_inicio(s: Seq<EventoV>) -> bool {
    forall|i: int, j: int| 0 <= i < j < s.len() ==> !lex_menor(s[j].inicio, s[i].inicio)
}

proof fn lema_insertar_evento(s: Seq<EventoV>, x: EventoV, j: int)
    requires
        0 <= j <= s.len(),
        forall|k: int| j <= k < s.len() ==> lex_menor(x.inicio, (#[trigger] s[k]).inicio),
        j == 0 || !lex_menor(x.inicio, s[j - 1].inicio),
    ensures
        insertar_evento(s, x) == s.insert(j, x),
    decreases s.len() - j,
{
    if s.len() == 0 {
        assert(s.insert(j, x) =~= seq![x]);
    } else if j == s.len() {
        assert(s.insert(j, x) =~= s.push(x));
    } else {
        assert(lex_menor(x.inicio, s[s.len() - 1].inicio));
        lema_insertar_evento(s.drop_last(), x, j);
        assert(s.insert(j, x) =~= s.drop_last().insert(j, x).push(s.last()));
    }
}

proof fn punto_evento(s: Seq<EventoV>, x: EventoV) -> (j: int)
    ensures
        0 <= j <= s.len(),
        forall|k: int| j <= k < s.len() ==> lex_menor(x.inicio, (#[trigger] s[k]).inicio),
        j == 0 || !lex_menor(x.inicio, s[j - 1].inicio),
        insertar_evento(s, x) == s.insert(j, x),
    decreases s.len(),
{
    if s.len() == 0 {
        lema_insertar_evento(s, x, 0);
        0
    } else if !lex_menor(x.inicio, s.last().inicio) {
        lema_insertar_evento(s, x, s.len() as int);
        s.len() as int
    } else {
        let j = punto_evento(s.drop_last(), x);
        assert forall|k: int| j <= k < s.len() implies lex_menor(x.inicio, (#[trigger] s[k]).inicio) by {
            if k < s.len() - 1 {
                assert(s[k] == s.drop_last()[k]);
            }
        }
        if j > 0 {
            assert(s[j - 1] == s.drop_last()[j - 1]);
        }
        lema_insertar_evento(s, x, j);
        j
    }
}

proof fn lema_insertar_evento_ordenado(s: Seq<EventoV>, x: EventoV)
    requires
        por_inicio(s),
    ensures
        por_inicio(insertar_evento(s, x)),
{
    let j = punto_evento(s, x);
    let t = s.insert(j, x);
    assert forall|a: int, b: int| 0 <= a < b < t.len() implies !lex_menor(t[b].inicio, t[a].inicio) by {
        if a < j && b < j {
        } else if a < j && b == j {
            lex_negativamente_transitivo(x.inicio, s[j - 1].inicio, s[a].inicio);
            if a < j - 1 {
                assert(!lex_menor(s[j - 1].inicio, s[a].inicio));
            }
        } else if a < j {
            assert(t[b] == s[b - 1]);
        } else if a == j {
            assert(t[b] == s[b - 1]);
            lex_asimetrico(x.inicio, s[b - 1].inicio);
        } else {
            assert(t[a] == s[a - 1] && t[b] == s[b - 1]);
        }
    }
}

/// The agenda is listed by start.
pub proof fn la_agenda_va_por_inicio(s: Seq<EventoV>)
    ensures
        por_inicio(ordenar_eventos_v(s)),
    decreases s.len(),
{
    if s.len() > 0 {
        la_agenda_va_por_inicio(s.drop_last());
        lema_insertar_evento_ordenado(ordenar_eventos_v(s.drop_last()), s.last());
    }
}

fn insertar_en_agenda(v: &mut Vec<EventoCalendario>, x: EventoCalendario)
    ensures
        eventos_v(final(v)@) == insertar_evento(eventos_v(old(v)@), x@),
{
    let mut j: usize = v.len();
    while j > 0 && menor_lex(x.inicio.as_str(), v[j - 1].inicio.as_str())
        invariant
            j <= v@.len(),
            v@ == old(v)@,
            forall|k: int| j <= k < v@.len() ==> lex_menor(x@.inicio, (#[trigger] eventos_v(v@)[k]).inicio),
        decreases j,
    {
        j = j - 1;
    }
    proof {
        lema_insertar_evento(eventos_v(v@), x@, j as int);
    }
    let ghost antes = v@;
    v.insert(j, x);
    assert(eventos_v(v@) =~= eventos_v(antes).insert(j as int, x@));
}

/// The agenda sorted by start; events that start together keep their order.
pub fn ordenar_eventos(eventos: Vec<EventoCalendario>) -> (r: Vec<EventoCalendario>)
    ensures
        eventos_v(r@) == ordenar_eventos_v(eventos_v(eventos@)),
{
    let mut pendientes = eventos;
    let ghost original = eventos_v(pendientes@);
    let mut invertidos: Vec<EventoCalendario> = Vec::new();
    assert(eventos_v(pendientes@) + eventos_v(invertidos@).reverse() =~= original);
    while pendientes.len() > 0
        invariant
            eventos_v(pendientes@) + eventos_v(invertidos@).reverse() == original,
        decreases pendientes@.len(),
    {
        let ghost p = eventos_v(pendientes@);
        let ghost q = eventos_v(invertidos@);
        let x = pendientes.pop().unwrap();
        assert(p =~= eventos_v(pendientes@).push(x@));
        invertidos.push(x);
        assert(eventos_v(invertidos@) =~= q.push(x@));
        assert(eventos_v(invertidos@).reverse() =~= seq![x@] + q.reverse());
        assert(eventos_v(pendientes@) + eventos_v(invertidos@).reverse() =~= p + q.reverse());
    }
    assert(eventos_v(invertidos@).reverse() =~= original) by {
        assert(eventos_v(pendientes@) =~= Seq::<EventoV>::empty());
    }
    let mut r: Vec<EventoCalendario> = Vec::new();
    let ghost mut hechos: Seq<EventoV> = seq![];
    assert(eventos_v(r@) =~= ordenar_eventos_v(hechos));
    while invertidos.len() > 0
        invariant
            hechos + eventos_v(invertidos@).reverse() == original,
            eventos_v(r@) == ordenar_eventos_v(hechos),
        decreases invertidos@.len(),
    {
        let ghost q = eventos_v(invertidos@);
        let x = invertidos.pop().unwrap();
        assert(q =~= eventos_v(invertidos@).push(x@));
        assert(q.reverse() =~= seq![x@] + eventos_v(invertidos@).reverse());
        insertar_en_agenda(&mut r, x);
        proof {
            assert(hechos.push(x@).drop_last() =~= hechos);
            assert(hechos.push(x@) + eventos_v(invertidos@).reverse() =~= hechos + q.reverse());
            hechos = hechos.push(x@);
        }
    }
    assert(hechos =~= original);
    r
}

/// The event a holiday projects.
pub fn evento_feriado(id: u128, fecha: i32, nombre: &str, tipo: Option<String>) -> (r: EventoCalendario)
    ensures
        r@ == feriado_v(id, fecha, nombre@, opt_v(tipo)),
{
    let dia = texto_fecha(fecha);
    EventoCalendario {
        id,
        titulo: copia("Feriado: ").concat(nombre),
        descripcion: tipo,
        tipo: TipoEvento::Otro,
        inicio: copia(dia.as_str()).concat("T00:00:00.000Z"),
        fin: dia.concat("T23:59:59.999Z"),
        todo_el_dia: true,
        color: Some(copia("#ef4444")),
        trabajo_id: None,
        kanban_tarjeta_id: None,
        recursos: Vec::new(),
        es_virtual: true,
        row_version: 0,
    }
}

/// The event a job projects, when it starts within `desde..=hasta`.
pub fn evento_trabajo(id: u128, descripcion: &str, fecha_inicio: i32, fecha_fin: Option<i32>, desde: i32, hasta: i32) -> (r: Option<EventoCalendario>)
    ensures
        desde <= fecha_inicio <= hasta ==> (r matches Some(e) && e@ == trabajo_v(id, descripcion@, fecha_inicio, fecha_fin)),
        !(desde <= fecha_inicio <= hasta) ==> r is None,
{
    if fecha_inicio < desde || fecha_inicio > hasta {
        return None;
    }
    let dia = texto_fecha(fecha_inicio);
    let fin = match fecha_fin {
        Some(f) => texto_fecha(f).concat("T18:00:00.000Z"),
        None => copia(dia.as_str()).concat("T17:00:00.000Z"),
    };
    Some(
        EventoCalendario {
            id,
            titulo: copia("Trabajo: ").concat(descripcion),
            descripcion: Some(copia(descripcion)),
            tipo: TipoEvento::Trabajo,
            inicio: dia.concat("T08:00:00.000Z"),
            fin,
            todo_el_dia: false,
            color: Some(copia("#3b82f6")),
            trabajo_id: Some(id),
            kanban_tarjeta_id: None,
            recursos: Vec::new(),
            es_virtual: true,
            row_version: 0,
        },
    )
}

/// A stored event as the agenda lists it: never virtual.
pub open spec fn almacenado(e: EventoV) -> EventoV {
    EventoV { es_virtual: false, ..e }
}

/// The holidays of `fs` that fall within `desde..=hasta`, as events, in their order.
pub open spec fn feriados_en(fs: Seq<(u128, i32, String, Option<String>)>, desde: i32, hasta: i32) -> Seq<EventoV>
    decreases fs.len(),
{
    if fs.len() == 0 {
        seq![]
    } else {
        let f = fs.last();
        feriados_en(fs.drop_last(), desde, hasta) + if desde <= f.1 <= hasta {
            seq![feriado_v(f.0, f.1, f.2@, opt_v(f.3))]
        } else {
            seq![]
        }
    }
}

/// The jobs of `ts` that start within `desde..=hasta`, as events, in their order.
pub open spec fn trabajos_en(ts: Seq<(u128, String, i32, Option<i32>)>, desde: i32, hasta: i32) -> Seq<EventoV>
    decreases ts.len(),
{
    if ts.len() == 0 {
        seq![]
    } else {
        let t = ts.last();
        trabajos_en(ts.drop_last(), desde, hasta) + if desde <= t.2 <= hasta {
            seq![trabajo_v(t.0, t.1@, t.2, t.3)]
        } else {
            seq![]
        }
    }
}

/// The agenda of `desde..=hasta`: the stored events, then the holidays and the jobs that fall
/// in it, all sorted by start.
pub open spec fn agenda(
    eventos: Seq<EventoCalendario>,
    feriados: Seq<(u128, i32, String, Option<String>)>,
    trabajos: Seq<(u128, String, i32, Option<i32>)>,
    desde: i32,
    hasta: i32,
) -> Seq<EventoV> {
    ordenar_eventos_v(
        eventos_v(eventos).map_values(|e: EventoV| almacenado(e)) + feriados_en(feriados, desde, hasta)
            + trabajos_en(trabajos, desde, hasta),
    )
}

fn copia_texto_opt(o: &Option<String>) -> (r: Option<String>)
    ensures
        opt_v(r) == opt_v(*o),
{
    match o {
        Some(s) => Some(copia(s.as_str())),
        None => None,
    }
}

fn marcar_almacenados(eventos: Vec<EventoCalendario>) -> (r: Vec<EventoCalendario>)
    ensures
        eventos_v(r@) == eventos_v(eventos@).map_values(|e: EventoV| almacenado(e)),
{
    let mut pendientes = eventos;
    let ghost original = eventos_v(pendientes@).map_values(|e: EventoV| almacenado(e));
    let mut invertidos: Vec<EventoCalendario> = Vec::new();
    while pendientes.len() > 0
        invariant
            eventos_v(pendientes@).map_values(|e: EventoV| almacenado(e)) + eventos_v(invertidos@).reverse() == original,
        decreases pendientes@.len(),
    {
        let ghost p = eventos_v(pendientes@).map_values(|e: EventoV| almacenado(e));
        let ghost q = eventos_v(invertidos@);
        let x = pendientes.pop().unwrap();
        let y = EventoCalendario { es_virtual: false, ..x };
        assert(y@ == almacenado(x@));
        assert(p =~= eventos_v(pendientes@).map_values(|e: EventoV| almacenado(e)).push(y@));
        invertidos.push(y);
        assert(eventos_v(invertidos@) =~= q.push(y@));
        assert(eventos_v(invertidos@).reverse() =~= seq![y@] + q.reverse());
        assert(eventos_v(pendientes@).map_values(|e: EventoV| almacenado(e)) + eventos_v(invertidos@).reverse() =~= p + q.reverse());
    }
    assert(eventos_v(invertidos@).reverse() =~= original) by {
        assert(eventos_v(pendientes@).map_values(|e: EventoV| almacenado(e)) =~= Seq::<EventoV>::empty());
    }
    let mut r: Vec<EventoCalendario> = Vec::new();
    assert(eventos_v(r@) + eventos_v(invertidos@).reverse() =~= original);
    while invertidos.len() > 0
        invariant
            eventos_v(r@) + eventos_v(invertidos@).reverse() == original,
        decreases invertidos@.len(),
    {
        let ghost q = eventos_v(invertidos@);
        let ghost h = eventos_v(r@);
        let x = invertidos.pop().unwrap();
        assert(q =~= eventos_v(invertidos@).push(x@));
        assert(q.reverse() =~= seq![x@] + eventos_v(invertidos@).reverse());
        r.push(x);
        assert(eventos_v(r@) =~= h.push(x@));
        assert(eventos_v(r@) + eventos_v(invertidos@).reverse() =~= h + q.reverse());
    }
    assert(eventos_v(r@) =~= original);
    r
}

/// The agenda of `desde..=hasta`: the stored events, never virtual, together with the holidays
/// and the jobs that fall within the range, all sorted by start.
pub fn construir_agenda(
    eventos: Vec<EventoCalendario>,
    feriados: &Vec<(u128, i32, String, Option<String>)>,
    trabajos: &Vec<(u128, String, i32, Option<i32>)>,
    desde: i32,
    hasta: i32,
) -> (r: Vec<EventoCalendario>)
    ensures
        eventos_v(r@) == agenda(eventos@, feriados@, trabajos@, desde, hasta),
{
    let mut todos = marcar_almacenados(eventos);
    let ghost base = eventos_v(todos@);
    let mut i: usize = 0;
    assert(feriados@.take(0) =~= Seq::<(u128, i32, String, Option<String>)>::empty());
    assert(eventos_v(todos@) =~= base + feriados_en(feriados@.take(0), desde, hasta));
    while i < feriados.len()
        invariant
            i <= feriados@.len(),
            eventos_v(todos@) == base + feriados_en(feriados@.take(i as int), desde, hasta),
        decreases feriados@.len() - i,
    {
        let ghost antes = eventos_v(todos@);
        assert(feriados@.take(i + 1).drop_last() =~= feriados@.take(i as int));
        assert(feriados@.take(i + 1).last() == feriados@[i as int]);
        let f = &feriados[i];
        if desde <= f.1 && f.1 <= hasta {
            let e = evento_feriado(f.0, f.1, f.2.as_str(), copia_texto_opt(&f.3));
            todos.push(e);
            assert(eventos_v(todos@) =~= antes.push(e@));
        }
        assert(eventos_v(todos@) =~= base + feriados_en(feriados@.take(i + 1), desde, hasta));
        i = i + 1;
    }
    assert(feriados@.take(feriados@.len() as int) =~= feriados@);
    let ghost medio = eventos_v(todos@);
    let mut j: usize = 0;
    assert(trabajos@.take(0) =~= Seq::<(u128, String, i32, Option<i32>)>::empty());
    assert(eventos_v(todos@) =~= medio + trabajos_en(trabajos@.take(0), desde, hasta));
    while j < trabajos.len()
        invariant
            j <= trabajos@.len(),
            eventos_v(todos@) == medio + trabajos_en(trabajos@.take(j as int), desde, hasta),
        decreases trabajos@.len() - j,
    {
        let ghost antes = eventos_v(todos@);
        assert(trabajos@.take(j + 1).drop_last() =~= trabajos@.take(j as int));
        assert(trabajos@.take(j + 1).last() == trabajos@[j as int]);
        let t = &trabajos[j];
        match evento_trabajo(t.0, t.1.as_str(), t.2, t.3, desde, hasta) {
            Some(e) => {
                todos.push(e);
                assert(eventos_v(todos@) =~= antes.push(e@));
            },
            None => {},
        }
        assert(eventos_v(todos@) =~= medio + trabajos_en(trabajos@.take(j + 1), desde, hasta));
        j = j + 1;
    }
    assert(trabajos@.take(trabajos@.len() as int) =~= trabajos@);
    ordenar_eventos(todos)
}

/// The checks of an event: a title that is not blank, and an end not before its start (both
/// already read as instants).
pub open spec fn evento_ok(r: Result<(), AppError>, titulo: Seq<char>, inicio: i64, fin: i64) -> bool {
    if recortar(titulo).len() == 0 {
        r matches Err(e) && e is Validation && campos_de(e) == seq![error_campo("titulo"@, "Validation.Calendario.TituloRequerido"@)]
    } else if fin < inicio {
        r matches Err(e) && e is Validation && campos_de(e) == seq![error_campo("fin"@, "Validation.Calendario.FinMenorQueInicio"@)]
    } else {
        r is Ok
    }
}

/// An event passes its checks: a title that is not blank and an end not before its start.
pub open spec fn evento_valido(titulo: Seq<char>, inicio: i64, fin: i64) -> bool {
    recortar(titulo).len() > 0 && fin >= inicio
}

/// The refusal of a stored timestamp that cannot be read, on its field.
pub open spec fn fecha_ilegible(e: AppError, campo: Seq<char>) -> bool {
    e is Validation && campos_de(e) == seq![error_campo(campo, "Validation.Calendario.FechaInvalida"@)]
}

/// The range of the agenda read from its stored timestamps: the start is read first.
pub open spec fn rango_ok(r: Result<(i64, i64), AppError>, desde: Seq<char>, hasta: Seq<char>) -> bool {
    match (instante_de_texto(desde), instante_de_texto(hasta)) {
        (None, _) => r matches Err(e) && fecha_ilegible(e, "desde"@),
        (Some(_), None) => r matches Err(e) && fecha_ilegible(e, "hasta"@),
        (Some(d), Some(h)) => r == Ok::<(i64, i64), AppError>((d, h)),
    }
}

/// What the form sends to change a stored event; the resources are left as they are when it
/// sends none.
#[derive(Debug)]
pub struct EdicionEvento {
    pub titulo: String,
    pub descripcion: Option<String>,
    pub tipo: TipoEvento,
    pub inicio: String,
    pub fin: String,
    pub todo_el_dia: bool,
    pub color: Option<String>,
    pub row_version: u64,
    pub recurso_ids: Option<Vec<u128>>,
}

/// The stored event after an edit: the title trimmed, the description, kind, times, all-day flag
/// and colour from the form, the times written back as stored timestamps; the id, job and card
/// links and the version it was read at kept; the resources replaced when the form sends them;
/// never virtual.
pub open spec fn evento_editado(actual: EventoV, ed: EdicionEvento, inicio: i64, fin: i64) -> EventoV {
    EventoV {
        id: actual.id,
        titulo: recortar(ed.titulo@),
        descripcion: opt_v(ed.descripcion),
        tipo: ed.tipo,
        inicio: guardado_de(inicio),
        fin: guardado_de(fin),
        todo_el_dia: ed.todo_el_dia,
        color: opt_v(ed.color),
        trabajo_id: actual.trabajo_id,
        kanban_tarjeta_id: actual.kanban_tarjeta_id,
        recursos: match ed.recurso_ids {
            Some(v) => v@,
            None => actual.recursos,
        },
        es_virtual: false,
        row_version: actual.row_version,
    }
}

/// An edit of a stored event, checked in order: a title that is not blank, a start and an end
/// that read as timestamps, an end not before the start, and the version it was read at.
pub open spec fn edicion_ok(r: Result<EventoCalendario, AppError>, actual: EventoV, ed: EdicionEvento) -> bool {
    if recortar(ed.titulo@).len() == 0 {
        r matches Err(e) && e is Validation && campos_de(e) == seq![error_campo("titulo"@, "Validation.Calendario.TituloRequerido"@)]
    } else if instante_de_texto(ed.inicio@) is None {
        r matches Err(e) && fecha_ilegible(e, "inicio"@)
    } else if instante_de_texto(ed.fin@) is None {
        r matches Err(e) && fecha_ilegible(e, "fin"@)
    } else if instante_de_texto(ed.fin@)->0 < instante_de_texto(ed.inicio@)->0 {
        r matches Err(e) && e is Validation && campos_de(e) == seq![error_campo("fin"@, "Validation.Calendario.FinMenorQueInicio"@)]
    } else if actual.row_version != ed.row_version {
        r matches Err(e) && e matches AppError::Concurrency { entity } && entity@ == "calendario_eventos"@
    } else {
        r matches Ok(ev) && ev@ == evento_editado(actual, ed, instante_de_texto(ed.inicio@)->0, instante_de_texto(ed.fin@)->0)
    }
}

/// The calendar service: it holds nothing the rules read.
pub struct CalendarioService {}

impl CalendarioService {
    pub fn new() -> (s: CalendarioService) {
        CalendarioService {  }
    }

    pub fn validar_evento(&self, titulo: &str, inicio: i64, fin: i64) -> (r: Result<(), AppError>)
        ensures
            evento_ok(r, titulo@, inicio, fin),
    {
        if recortado(titulo).unicode_len() == 0 {
            return Err(validation_err("titulo", "Validation.Calendario.TituloRequerido"));
        }
        if fin < inicio {
            return Err(validation_err("fin", "Validation.Calendario.FinMenorQueInicio"));
        }
        Ok(())
    }

    /// The checks of an edit of a stored event, in the order they are made: the title, the
    /// times, then the version the form was read at. What is stored is the title trimmed.
    pub fn verificar_edicion(&self, titulo: &str, inicio: i64, fin: i64, version_guardada: u64, version_leida: u64) -> (r: Result<String, AppError>)
        ensures
            !evento_valido(titulo@, inicio, fin) ==> (r matches Err(e) && evento_ok(Err(e), titulo@, inicio, fin)),
            evento_valido(titulo@, inicio, fin) && version_guardada != version_leida ==> (r matches Err(e)
                && e matches AppError::Concurrency { entity } && entity@ == "calendario_eventos"@),
            evento_valido(titulo@, inicio, fin) && version_guardada == version_leida ==> (r matches Ok(t) && t@ == recortar(titulo@)),
    {
        match self.validar_evento(titulo, inicio, fin) {
            Ok(()) => {},
            Err(e) => return Err(e),
        }
        if version_guardada != version_leida {
            return Err(AppError::Concurrency { entity: copia("calendario_eventos") });
        }
        Ok(copia(recortado(titulo)))
    }

    /// The range of the agenda, read from the stored timestamps it is asked with.
    pub fn leer_rango(&self, desde_iso: &str, hasta_iso: &str) -> (r: Result<(i64, i64), AppError>)
        ensures
            rango_ok(r, desde_iso@, hasta_iso@),
    {
        let desde = match leer_instante(desde_iso) {
            Some(t) => t,
            None => return Err(validation_err("desde", "Validation.Calendario.FechaInvalida")),
        };
        let hasta = match leer_instante(hasta_iso) {
            Some(t) => t,
            None => return Err(validation_err("hasta", "Validation.Calendario.FechaInvalida")),
        };
        Ok((desde, hasta))
    }

    /// The agenda of the range asked for: the stored events of the range with the holidays and
    /// the jobs that fall on its days, sorted by start; a range that cannot be read is refused on
    /// its field.
    pub fn agenda(
        &self,
        desde_iso: &str,
        hasta_iso: &str,
        eventos: Vec<EventoCalendario>,
        feriados: &Vec<(u128, i32, String, Option<String>)>,
        trabajos: &Vec<(u128, String, i32, Option<i32>)>,
    ) -> (r: Result<Vec<EventoCalendario>, AppError>)
        ensures
            match (instante_de_texto(desde_iso@), instante_de_texto(hasta_iso@)) {
                (None, _) => r matches Err(e) && fecha_ilegible(e, "desde"@),
                (Some(_), None) => r matches Err(e) && fecha_ilegible(e, "hasta"@),
                (Some(d), Some(h)) => r matches Ok(v) && eventos_v(v@) == agenda(
                    eventos@,
                    feriados@,
                    trabajos@,
                    dia_de(d as int) as i32,
                    dia_de(h as int) as i32,
                ),
            },
    {
        let (desde, hasta) = match self.leer_rango(desde_iso, hasta_iso) {
            Ok(x) => x,
            Err(e) => return Err(e),
        };
        Ok(construir_agenda(eventos, feriados, trabajos, fecha_de(desde), fecha_de(hasta)))
    }

    /// A stored event after an edit, as `edicion_ok` says.
    pub fn actualizar_evento(&self, actual: EventoCalendario, edicion: EdicionEvento) -> (r: Result<EventoCalendario, AppError>)
        ensures
            edicion_ok(r, actual@, edicion),
    {
        if recortado(edicion.titulo.as_str()).unicode_len() == 0 {
            return Err(validation_err("titulo", "Validation.Calendario.TituloRequerido"));
        }
        let inicio = match leer_instante(edicion.inicio.as_str()) {
            Some(t) => t,
            None => return Err(validation_err("inicio", "Validation.Calendario.FechaInvalida")),
        };
        let fin = match leer_instante(edicion.fin.as_str()) {
            Some(t) => t,
            None => return Err(validation_err("fin", "Validation.Calendario.FechaInvalida")),
        };
        if fin < inicio {
            return Err(validation_err("fin", "Validation.Calendario.FinMenorQueInicio"));
        }
        if actual.row_version != edicion.row_version {
            return Err(AppError::Concurrency { entity: copia("calendario_eventos") });
        }
        let titulo = copia(recortado(edicion.titulo.as_str()));
        let recursos = match edicion.recurso_ids {
            Some(v) => v,
            None => actual.recursos,
        };
        Ok(
            EventoCalendario {
                id: actual.id,
                titulo,
                descripcion: edicion.descripcion,
                tipo: edicion.tipo,
                inicio: texto_guardado(inicio),
                fin: texto_guardado(fin),
                todo_el_dia: edicion.todo_el_dia,
                color: edicion.color,
                trabajo_id: actual.trabajo_id,
                kanban_tarjeta_id: actual.kanban_tarjeta_id,
                recursos,
                es_virtual: false,
                row_version: actual.row_version,
            },
        )
    }

    /// The group employees are filed under: the first one called "personal", in any case.
    pub fn grupo_personal(&self, grupos: &Vec<(u128, String)>) -> (r: Option<u128>)
        ensures
            r matches Some(id) ==> exists|k: int| 0 <= k < grupos@.len() && grupos@[k].0 == id && minusculas(grupos@[k].1@) == "personal"@,
            r is None ==> forall|k: int| 0 <= k < grupos@.len() ==> minusculas(#[trigger] grupos@[k].1@) != "personal"@,
            r matches Some(id) ==> exists|k: int| 0 <= k < grupos@.len() && grupos@[k].0 == id && forall|j: int| 0 <= j < k ==> minusculas(#[trigger] grupos@[j].1@) != "personal"@,
    {
        let mut k: usize = 0;
        while k < grupos.len()
            invariant
                k <= grupos@.len(),
                forall|j: int| 0 <= j < k ==> minusculas(#[trigger] grupos@[j].1@) != "personal"@,
            decreases grupos@.len() - k,
        {
            let n = a_minusculas(grupos[k].1.as_str());
            if crate::texto::iguales(n.as_str(), "personal") {
                return Some(grupos[k].0);
            }
            k = k + 1;
        }
        None
    }
}

} // verus!

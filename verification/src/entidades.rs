//! The rules of the master records: what keeps a row from being deleted, what a state change
//! does to the jobs under a site or project, and which rows of a grid are updates and which are
//! new.

use vstd::prelude::*;
use crate::error::{conflicto_con, dependencia_con, es_conflicto, es_dependencia, params_v, AppError};
use crate::texto::{copia, decimal, decimal_con_signo, texto_i64, texto_u64};

verus! {

/// The refusal of a deletion because `cantidad` rows still reference the row, with the count as
/// parameter `count`.
pub open spec fn en_uso_v(e: AppError, cantidad: u64, code: Seq<char>, key: Seq<char>) -> bool {
    es_dependencia(e, code, key, seq![("count"@, decimal(cantidad as nat))])
}

/// The first dependency with rows, in the order given.
pub open spec fn primera_dependencia(deps: Seq<(u64, Seq<char>, Seq<char>)>) -> Option<(u64, Seq<char>, Seq<char>)>
    decreases deps.len(),
{
    if deps.len() == 0 {
        None
    } else if deps[0].0 > 0 {
        Some(deps[0])
    } else {
        primera_dependencia(deps.drop_first())
    }
}

/// A deletion is refused by the first dependency that has rows, and allowed when none has.
pub open spec fn resultado_dependencias(r: Result<(), AppError>, deps: Seq<(u64, Seq<char>, Seq<char>)>) -> bool {
    match primera_dependencia(deps) {
        None => r is Ok,
        Some((n, code, key)) => r matches Err(e) && en_uso_v(e, n, code, key),
    }
}

proof fn lema_una(a: (u64, Seq<char>, Seq<char>))
    ensures
        primera_dependencia(seq![a]) == (if a.0 > 0 { Some(a) } else { None::<(u64, Seq<char>, Seq<char>)> }),
{
    reveal_with_fuel(primera_dependencia, 2);
    assert(seq![a].drop_first() =~= Seq::<(u64, Seq<char>, Seq<char>)>::empty());
}

proof fn lema_varias(a: (u64, Seq<char>, Seq<char>), resto: Seq<(u64, Seq<char>, Seq<char>)>)
    ensures
        primera_dependencia(seq![a] + resto) == (if a.0 > 0 { Some(a) } else { primera_dependencia(resto) }),
{
    assert((seq![a] + resto).drop_first() =~= resto);
}

/// Refuses when `cantidad` rows still reference the row.
pub fn en_uso(cantidad: u64, code: &str, key: &str) -> (r: Result<(), AppError>)
    ensures
        cantidad == 0 ==> r is Ok,
        cantidad > 0 ==> (r matches Err(e) && en_uso_v(e, cantidad, code@, key@)),
{
    if cantidad > 0 {
        Err(dependencia_con(code, key, "count", texto_u64(cantidad)))
    } else {
        Ok(())
    }
}

/// The state of a site or project.
#[derive(Debug, Clone, Copy, PartialEq, Eq, Structural)]
pub enum EstadoObra {
    Activa,
    Pausada,
    Finalizada,
    Cancelada,
}

/// The state of a job.
#[derive(Debug, Clone, Copy, PartialEq, Eq, Structural)]
pub enum EstadoTrabajo {
    Presupuestado,
    EnProceso,
    Finalizado,
    Cancelado,
}

/// A job still open under a site or project being closed.
#[derive(Debug, Clone, Copy, PartialEq, Eq, Structural)]
pub struct TrabajoAbierto {
    pub id: u128,
    pub estado: EstadoTrabajo,
    pub fecha_fin: Option<i32>,
}

/// What closing a site does to one of its open jobs.
#[derive(Debug, Clone, Copy, PartialEq, Eq, Structural)]
pub struct CierreTrabajo {
    pub id: u128,
    pub estado: EstadoTrabajo,
    pub fecha_fin: i32,
}

/// Whether the target state closes the site.
pub open spec fn es_cierre(destino: EstadoObra) -> bool {
    destino == EstadoObra::Finalizada || destino == EstadoObra::Cancelada
}

/// The state an open job closes in: cancelled with a cancelled site or project, finished
/// otherwise; under a project, a job that was only budgeted is cancelled in every case.
pub open spec fn estado_de_cierre(t: TrabajoAbierto, destino: EstadoObra, cancela_presupuestados: bool) -> EstadoTrabajo {
    if destino == EstadoObra::Cancelada || (cancela_presupuestados && t.estado == EstadoTrabajo::Presupuestado) {
        EstadoTrabajo::Cancelado
    } else {
        EstadoTrabajo::Finalizado
    }
}

/// The jobs of a closed site or project follow it, in the state `estado_de_cierre` gives, and
/// ended today unless they already had an end date.
pub open spec fn cierre_de(t: TrabajoAbierto, destino: EstadoObra, hoy: i32, cancela_presupuestados: bool) -> CierreTrabajo {
    CierreTrabajo {
        id: t.id,
        estado: estado_de_cierre(t, destino, cancela_presupuestados),
        fecha_fin: match t.fecha_fin {
            Some(f) => f,
            None => hoy,
        },
    }
}

/// The plan of a state change of a site or project with these open jobs: nothing to do unless it
/// closes; with open jobs it only closes in cascade, and then every open job follows.
pub open spec fn plan_cierre_ok(r: Result<Vec<CierreTrabajo>, AppError>, destino: EstadoObra, abiertos: Seq<TrabajoAbierto>, cascada: bool, hoy: i32, cancela_presupuestados: bool, code: Seq<char>, key: Seq<char>) -> bool {
    if !es_cierre(destino) {
        r matches Ok(v) && v@.len() == 0
    } else if abiertos.len() > 0 && !cascada {
        r matches Err(e) && es_conflicto(e, code, key, seq![("count"@, decimal(abiertos.len()))])
    } else {
        r matches Ok(v) && v@.len() == abiertos.len() && forall|i: int|
            0 <= i < abiertos.len() ==> v@[i] == cierre_de(#[trigger] abiertos[i], destino, hoy, cancela_presupuestados)
    }
}

fn plan_cierre(destino: EstadoObra, abiertos: &Vec<TrabajoAbierto>, cascada: bool, hoy: i32, cancela_presupuestados: bool, code: &str, key: &str) -> (r: Result<Vec<CierreTrabajo>, AppError>)
    ensures
        plan_cierre_ok(r, destino, abiertos@, cascada, hoy, cancela_presupuestados, code@, key@),
{
    let mut v: Vec<CierreTrabajo> = Vec::new();
    if !(destino == EstadoObra::Finalizada || destino == EstadoObra::Cancelada) {
        return Ok(v);
    }
    if abiertos.len() > 0 && !cascada {
        return Err(conflicto_con(code, key, "count", texto_u64(abiertos.len() as u64)));
    }
    let mut i: usize = 0;
    while i < abiertos.len()
        invariant
            i <= abiertos@.len(),
            v@.len() == i,
            es_cierre(destino),
            forall|k: int| 0 <= k < i ==> v@[k] == cierre_de(#[trigger] abiertos@[k], destino, hoy, cancela_presupuestados),
        decreases abiertos@.len() - i,
    {
        let t = abiertos[i];
        let estado = if destino == EstadoObra::Cancelada || (cancela_presupuestados && t.estado == EstadoTrabajo::Presupuestado) {
            EstadoTrabajo::Cancelado
        } else {
            EstadoTrabajo::Finalizado
        };
        let fin = match t.fecha_fin {
            Some(f) => f,
            None => hoy,
        };
        v.push(CierreTrabajo { id: t.id, estado, fecha_fin: fin });
        i = i + 1;
    }
    Ok(v)
}

/// The refusal of a number already taken, even by a deleted row.
pub open spec fn numero_duplicado(e: AppError, code: Seq<char>, key: Seq<char>, numero: i32) -> bool {
    es_conflicto(e, code, key, seq![("numero"@, decimal_con_signo(numero as int))])
}

fn verificar_numero(ocupado: bool, numero: i32, code: &str, key: &str) -> (r: Result<(), AppError>)
    ensures
        !ocupado ==> r is Ok,
        ocupado ==> (r matches Err(e) && numero_duplicado(e, code@, key@, numero)),
{
    if ocupado {
        Err(conflicto_con(code, key, "numero", texto_i64(numero as i64)))
    } else {
        Ok(())
    }
}

/// The rules of the sites.
pub struct ObrasService {}

impl ObrasService {
    pub fn new() -> (s: ObrasService) {
        ObrasService {  }
    }

    /// A site with jobs is not deleted.
    pub fn verificar_borrado(&self, trabajos: u64) -> (r: Result<(), AppError>)
        ensures
            resultado_dependencias(r, seq![(trabajos, "OBRA_CON_TRABAJOS"@, "Conflict.Obra.ConTrabajos"@)]),
    {
        proof {
            lema_una((trabajos, "OBRA_CON_TRABAJOS"@, "Conflict.Obra.ConTrabajos"@));
        }
        en_uso(trabajos, "OBRA_CON_TRABAJOS", "Conflict.Obra.ConTrabajos")
    }

    /// Closing a site with open jobs needs the cascade; with it, the jobs close too.
    pub fn plan_transicion(&self, destino: EstadoObra, abiertos: &Vec<TrabajoAbierto>, cascada: bool, hoy: i32) -> (r: Result<Vec<CierreTrabajo>, AppError>)
        ensures
            plan_cierre_ok(r, destino, abiertos@, cascada, hoy, false, "OBRA_CON_TRABAJOS_ABIERTOS"@, "State.Obra.TieneTrabajosAbiertos"@),
    {
        plan_cierre(destino, abiertos, cascada, hoy, false, "OBRA_CON_TRABAJOS_ABIERTOS", "State.Obra.TieneTrabajosAbiertos")
    }

    /// A site number stays reserved once used.
    pub fn verificar_numero_libre(&self, ocupado: bool, numero: i32) -> (r: Result<(), AppError>)
        ensures
            !ocupado ==> r is Ok,
            ocupado ==> (r matches Err(e) && numero_duplicado(e, "OBRA_NUMERO_DUPLICADO"@, "Validation.Obra.NumeroDuplicado"@, numero)),
    {
        verificar_numero(ocupado, numero, "OBRA_NUMERO_DUPLICADO", "Validation.Obra.NumeroDuplicado")
    }
}

/// The rules of the projects: those of the sites, under their own codes.
pub struct ProyectosService {}

impl ProyectosService {
    pub fn new() -> (s: ProyectosService) {
        ProyectosService {  }
    }

    pub fn verificar_borrado(&self, trabajos: u64) -> (r: Result<(), AppError>)
        ensures
            resultado_dependencias(r, seq![(trabajos, "PROYECTO_CON_TRABAJOS"@, "Conflict.Proyecto.ConTrabajos"@)]),
    {
        proof {
            lema_una((trabajos, "PROYECTO_CON_TRABAJOS"@, "Conflict.Proyecto.ConTrabajos"@));
        }
        en_uso(trabajos, "PROYECTO_CON_TRABAJOS", "Conflict.Proyecto.ConTrabajos")
    }

    /// Closing a project with open jobs needs the cascade; with it, a job that was only budgeted is
    /// cancelled and the others follow the project.
    pub fn plan_transicion(&self, destino: EstadoObra, abiertos: &Vec<TrabajoAbierto>, cascada: bool, hoy: i32) -> (r: Result<Vec<CierreTrabajo>, AppError>)
        ensures
            plan_cierre_ok(r, destino, abiertos@, cascada, hoy, true, "PROYECTO_CON_TRABAJOS_ABIERTOS"@, "State.Proyecto.TieneTrabajosAbiertos"@),
    {
        plan_cierre(destino, abiertos, cascada, hoy, true, "PROYECTO_CON_TRABAJOS_ABIERTOS", "State.Proyecto.TieneTrabajosAbiertos")
    }

    pub fn verificar_numero_libre(&self, ocupado: bool, numero: i32) -> (r: Result<(), AppError>)
        ensures
            !ocupado ==> r is Ok,
            ocupado ==> (r matches Err(e) && numero_duplicado(e, "PROYECTO_NUMERO_DUPLICADO"@, "Validation.Proyecto.NumeroDuplicado"@, numero)),
    {
        verificar_numero(ocupado, numero, "PROYECTO_NUMERO_DUPLICADO", "Validation.Proyecto.NumeroDuplicado")
    }
}

/// The end date a job keeps after a state change: finishing sets today when it had none,
/// reopening a finished job clears it, anything else leaves it.
pub open spec fn fecha_fin_tras(anterior: EstadoTrabajo, destino: EstadoTrabajo, fecha_fin: Option<i32>, hoy: i32) -> Option<i32> {
    if destino == EstadoTrabajo::Finalizado && fecha_fin is None {
        Some(hoy)
    } else if destino == EstadoTrabajo::EnProceso && anterior == EstadoTrabajo::Finalizado {
        None
    } else {
        fecha_fin
    }
}

/// The refusal of a job change that needs a running site when the site is not running; the
/// parameter is the key of the site's state, which the interface translates.
pub open spec fn obra_no_disponible(e: AppError, estado_obra: Seq<char>) -> bool {
    es_conflicto(e, "TRABAJO_OBRA_NO_ACTIVA"@, "State.Trabajo.ObraNoActiva"@, seq![("estadoObra"@, estado_obra)])
}

/// The rules of the jobs.
pub struct TrabajosService {}

impl TrabajosService {
    pub fn new() -> (s: TrabajosService) {
        TrabajosService {  }
    }

    /// A job with work orders or movements is not deleted; orders are reported first.
    pub fn verificar_borrado(&self, ordenes: u64, movimientos: u64) -> (r: Result<(), AppError>)
        ensures
            resultado_dependencias(
                r,
                seq![
                    (ordenes, "TRABAJO_CON_ORDENES"@, "Conflict.Trabajo.ConOrdenes"@),
                    (movimientos, "TRABAJO_CON_MOVIMIENTOS"@, "Conflict.Trabajo.ConMovimientos"@),
                ],
            ),
    {
        proof {
            assert(seq![(ordenes, "TRABAJO_CON_ORDENES"@, "Conflict.Trabajo.ConOrdenes"@), (movimientos, "TRABAJO_CON_MOVIMIENTOS"@, "Conflict.Trabajo.ConMovimientos"@)] =~= seq![(ordenes, "TRABAJO_CON_ORDENES"@, "Conflict.Trabajo.ConOrdenes"@)] + seq![(movimientos, "TRABAJO_CON_MOVIMIENTOS"@, "Conflict.Trabajo.ConMovimientos"@)]);
            lema_varias((ordenes, "TRABAJO_CON_ORDENES"@, "Conflict.Trabajo.ConOrdenes"@), seq![(movimientos, "TRABAJO_CON_MOVIMIENTOS"@, "Conflict.Trabajo.ConMovimientos"@)]);
            lema_una((movimientos, "TRABAJO_CON_MOVIMIENTOS"@, "Conflict.Trabajo.ConMovimientos"@));
        }
        match en_uso(ordenes, "TRABAJO_CON_ORDENES", "Conflict.Trabajo.ConOrdenes") {
            Ok(()) => {},
            Err(e) => return Err(e),
        }
        en_uso(movimientos, "TRABAJO_CON_MOVIMIENTOS", "Conflict.Trabajo.ConMovimientos")
    }

    /// Starting, resuming and reopening need a running site; whether the change needs one and
    /// whether the site runs are the state machines' answers.
    pub fn verificar_obra(&self, exige_obra_activa: bool, obra_activa: bool, estado_obra: &str) -> (r: Result<(), AppError>)
        ensures
            exige_obra_activa && !obra_activa ==> (r matches Err(e) && obra_no_disponible(e, estado_obra@)),
            !(exige_obra_activa && !obra_activa) ==> r is Ok,
    {
        if exige_obra_activa && !obra_activa {
            Err(conflicto_con("TRABAJO_OBRA_NO_ACTIVA", "State.Trabajo.ObraNoActiva", "estadoObra", copia(estado_obra)))
        } else {
            Ok(())
        }
    }

    /// The end date after a change of state.
    pub fn fecha_fin_tras_transicion(&self, anterior: EstadoTrabajo, destino: EstadoTrabajo, fecha_fin: Option<i32>, hoy: i32) -> (r: Option<i32>)
        ensures
            r == fecha_fin_tras(anterior, destino, fecha_fin, hoy),
    {
        if destino == EstadoTrabajo::Finalizado && fecha_fin.is_none() {
            Some(hoy)
        } else if destino == EstadoTrabajo::EnProceso && anterior == EstadoTrabajo::Finalizado {
            None
        } else {
            fecha_fin
        }
    }
}

/// A finished job always has an end date, and reopening it takes the date away.
pub proof fn un_trabajo_finalizado_tiene_fecha_de_fin(anterior: EstadoTrabajo, fecha_fin: Option<i32>, hoy: i32)
    ensures
        fecha_fin_tras(anterior, EstadoTrabajo::Finalizado, fecha_fin, hoy) is Some,
        fecha_fin_tras(EstadoTrabajo::Finalizado, EstadoTrabajo::EnProceso, fecha_fin, hoy) is None,
{
}

/// Where a row of a grid goes: the stored row it updates, when its id names one, or a new row.
pub open spec fn destino_fila(id: Option<u128>, existentes: Seq<u128>) -> Option<u128> {
    match id {
        Some(x) => if existentes.contains(x) {
            Some(x)
        } else {
            None
        },
        None => None,
    }
}

/// Whether the id is among these.
fn contiene_id(ids: &Vec<u128>, x: u128) -> (b: bool)
    ensures
        b == ids@.contains(x),
{
    let mut j: usize = 0;
    while j < ids.len()
        invariant
            j <= ids@.len(),
            forall|k: int| 0 <= k < j ==> ids@[k] != x,
        decreases ids@.len() - j,
    {
        if ids[j] == x {
            assert(ids@[j as int] == x);
            return true;
        }
        j = j + 1;
    }
    false
}

/// Whether some row of the grid lands on the stored row `x`.
fn algun_destino(destinos: &Vec<Option<u128>>, x: u128) -> (b: bool)
    ensures
        b == exists|j: int| 0 <= j < destinos@.len() && destinos@[j] == Some(x),
{
    let mut j: usize = 0;
    while j < destinos.len()
        invariant
            j <= destinos@.len(),
            forall|k: int| 0 <= k < j ==> destinos@[k] != Some(x),
        decreases destinos@.len() - j,
    {
        if destinos[j] == Some(x) {
            assert(destinos@[j as int] == Some(x));
            return true;
        }
        j = j + 1;
    }
    false
}

/// For each row of a grid, the stored row it updates, or nothing when it is new: a stale id is a
/// stale form and makes a new row rather than losing what the user typed.
pub fn reutilizar_ids(entrantes: &Vec<Option<u128>>, existentes: &Vec<u128>) -> (r: Vec<Option<u128>>)
    ensures
        r@.len() == entrantes@.len(),
        forall|i: int| 0 <= i < entrantes@.len() ==> r@[i] == destino_fila(#[trigger] entrantes@[i], existentes@),
{
    let mut r: Vec<Option<u128>> = Vec::new();
    let mut i: usize = 0;
    while i < entrantes.len()
        invariant
            i <= entrantes@.len(),
            r@.len() == i,
            forall|k: int| 0 <= k < i ==> r@[k] == destino_fila(#[trigger] entrantes@[k], existentes@),
        decreases entrantes@.len() - i,
    {
        let destino = match entrantes[i] {
            Some(x) => if contiene_id(existentes, x) {
                Some(x)
            } else {
                None
            },
            None => None,
        };
        assert(destino == destino_fila(entrantes@[i as int], existentes@));
        r.push(destino);
        i = i + 1;
    }
    r
}

/// The rules of the customers.
pub struct ClientesService {}

impl ClientesService {
    pub fn new() -> (s: ClientesService) {
        ClientesService {  }
    }

    /// A customer with projects, invoices or movements is not deleted, in that order.
    pub fn verificar_borrado(&self, proyectos: u64, facturas: u64, movimientos: u64) -> (r: Result<(), AppError>)
        ensures
            resultado_dependencias(
                r,
                seq![
                    (proyectos, "CLIENTE_CON_PROYECTOS"@, "Conflict.Cliente.ConProyectos"@),
                    (facturas, "CLIENTE_CON_FACTURAS"@, "Conflict.Cliente.ConFacturas"@),
                    (movimientos, "CLIENTE_CON_MOVIMIENTOS"@, "Conflict.Cliente.ConMovimientos"@),
                ],
            ),
    {
        proof {
            assert(seq![(proyectos, "CLIENTE_CON_PROYECTOS"@, "Conflict.Cliente.ConProyectos"@), (facturas, "CLIENTE_CON_FACTURAS"@, "Conflict.Cliente.ConFacturas"@), (movimientos, "CLIENTE_CON_MOVIMIENTOS"@, "Conflict.Cliente.ConMovimientos"@)] =~= seq![(proyectos, "CLIENTE_CON_PROYECTOS"@, "Conflict.Cliente.ConProyectos"@)] + seq![(facturas, "CLIENTE_CON_FACTURAS"@, "Conflict.Cliente.ConFacturas"@), (movimientos, "CLIENTE_CON_MOVIMIENTOS"@, "Conflict.Cliente.ConMovimientos"@)]);
            assert(seq![(facturas, "CLIENTE_CON_FACTURAS"@, "Conflict.Cliente.ConFacturas"@), (movimientos, "CLIENTE_CON_MOVIMIENTOS"@, "Conflict.Cliente.ConMovimientos"@)] =~= seq![(facturas, "CLIENTE_CON_FACTURAS"@, "Conflict.Cliente.ConFacturas"@)] + seq![(movimientos, "CLIENTE_CON_MOVIMIENTOS"@, "Conflict.Cliente.ConMovimientos"@)]);
            lema_varias((proyectos, "CLIENTE_CON_PROYECTOS"@, "Conflict.Cliente.ConProyectos"@), seq![(facturas, "CLIENTE_CON_FACTURAS"@, "Conflict.Cliente.ConFacturas"@), (movimientos, "CLIENTE_CON_MOVIMIENTOS"@, "Conflict.Cliente.ConMovimientos"@)]);
            lema_varias((facturas, "CLIENTE_CON_FACTURAS"@, "Conflict.Cliente.ConFacturas"@), seq![(movimientos, "CLIENTE_CON_MOVIMIENTOS"@, "Conflict.Cliente.ConMovimientos"@)]);
            lema_una((movimientos, "CLIENTE_CON_MOVIMIENTOS"@, "Conflict.Cliente.ConMovimientos"@));
        }
        match en_uso(proyectos, "CLIENTE_CON_PROYECTOS", "Conflict.Cliente.ConProyectos") {
            Ok(()) => {},
            Err(e) => return Err(e),
        }
        match en_uso(facturas, "CLIENTE_CON_FACTURAS", "Conflict.Cliente.ConFacturas") {
            Ok(()) => {},
            Err(e) => return Err(e),
        }
        en_uso(movimientos, "CLIENTE_CON_MOVIMIENTOS", "Conflict.Cliente.ConMovimientos")
    }

    /// Which contacts of the grid update a stored one and which are new.
    pub fn plan_contactos(&self, entrantes: &Vec<Option<u128>>, existentes: &Vec<u128>) -> (r: Vec<Option<u128>>)
        ensures
            r@.len() == entrantes@.len(),
            forall|i: int| 0 <= i < entrantes@.len() ==> r@[i] == destino_fila(#[trigger] entrantes@[i], existentes@),
    {
        reutilizar_ids(entrantes, existentes)
    }
}

/// The rules of the employees.
pub struct EmpleadosService {}

impl EmpleadosService {
    pub fn new() -> (s: EmpleadosService) {
        EmpleadosService {  }
    }

    /// An employee with settlements or movements is not deleted: deactivating is the way out.
    pub fn verificar_borrado(&self, liquidaciones: u64, movimientos: u64) -> (r: Result<(), AppError>)
        ensures
            resultado_dependencias(
                r,
                seq![
                    (liquidaciones, "EMPLEADO_CON_LIQUIDACIONES"@, "Conflict.Empleado.ConLiquidaciones"@),
                    (movimientos, "EMPLEADO_CON_MOVIMIENTOS"@, "Conflict.Empleado.ConMovimientos"@),
                ],
            ),
    {
        proof {
            assert(seq![(liquidaciones, "EMPLEADO_CON_LIQUIDACIONES"@, "Conflict.Empleado.ConLiquidaciones"@), (movimientos, "EMPLEADO_CON_MOVIMIENTOS"@, "Conflict.Empleado.ConMovimientos"@)] =~= seq![(liquidaciones, "EMPLEADO_CON_LIQUIDACIONES"@, "Conflict.Empleado.ConLiquidaciones"@)] + seq![(movimientos, "EMPLEADO_CON_MOVIMIENTOS"@, "Conflict.Empleado.ConMovimientos"@)]);
            lema_varias((liquidaciones, "EMPLEADO_CON_LIQUIDACIONES"@, "Conflict.Empleado.ConLiquidaciones"@), seq![(movimientos, "EMPLEADO_CON_MOVIMIENTOS"@, "Conflict.Empleado.ConMovimientos"@)]);
            lema_una((movimientos, "EMPLEADO_CON_MOVIMIENTOS"@, "Conflict.Empleado.ConMovimientos"@));
        }
        match en_uso(liquidaciones, "EMPLEADO_CON_LIQUIDACIONES", "Conflict.Empleado.ConLiquidaciones") {
            Ok(()) => {},
            Err(e) => return Err(e),
        }
        en_uso(movimientos, "EMPLEADO_CON_MOVIMIENTOS", "Conflict.Empleado.ConMovimientos")
    }
}

/// The rules of the movement types.
pub struct TiposMovimientoService {}

impl TiposMovimientoService {
    pub fn new() -> (s: TiposMovimientoService) {
        TiposMovimientoService {  }
    }

    /// A protected system type is never deleted; a type in use is not either.
    pub fn verificar_borrado(&self, es_de_sistema: bool, usados: u64) -> (r: Result<(), AppError>)
        ensures
            es_de_sistema ==> (r matches Err(e) && es_conflicto(e, "TIPO_MOVIMIENTO_SISTEMA"@, "Conflict.TipoMovimiento.EsDeSistema"@, seq![])),
            !es_de_sistema ==> resultado_dependencias(r, seq![(usados, "TIPO_MOVIMIENTO_EN_USO"@, "Conflict.TipoMovimiento.EnUso"@)]),
    {
        if es_de_sistema {
            let e = AppError::conflict("TIPO_MOVIMIENTO_SISTEMA", "Conflict.TipoMovimiento.EsDeSistema");
            assert(match e {
                AppError::Conflict { params, .. } => params_v(params@) =~= seq![],
                _ => true,
            });
            return Err(e);
        }
        proof {
            lema_una((usados, "TIPO_MOVIMIENTO_EN_USO"@, "Conflict.TipoMovimiento.EnUso"@));
        }
        en_uso(usados, "TIPO_MOVIMIENTO_EN_USO", "Conflict.TipoMovimiento.EnUso")
    }

    /// Two types cannot share a name.
    pub fn verificar_nombre_libre(&self, ocupado: bool, nombre: &str) -> (r: Result<(), AppError>)
        ensures
            !ocupado ==> r is Ok,
            ocupado ==> (r matches Err(e) && es_conflicto(
                e,
                "TIPO_MOVIMIENTO_NOMBRE_DUPLICADO"@,
                "Conflict.TipoMovimiento.NombreDuplicado"@,
                seq![("nombre"@, nombre@)],
            )),
    {
        if ocupado {
            Err(conflicto_con("TIPO_MOVIMIENTO_NOMBRE_DUPLICADO", "Conflict.TipoMovimiento.NombreDuplicado", "nombre", copia(nombre)))
        } else {
            Ok(())
        }
    }
}

/// Whether some row of the grid keeps the stored row `x`.
pub open spec fn conservado(x: u128, entrantes: Seq<Option<u128>>, existentes: Seq<u128>) -> bool {
    exists|i: int| 0 <= i < entrantes.len() && destino_fila(entrantes[i], existentes) == Some(x)
}

/// The rules of the work orders.
pub struct OrdenesTrabajoService {}

impl OrdenesTrabajoService {
    pub fn new() -> (s: OrdenesTrabajoService) {
        OrdenesTrabajoService {  }
    }

    /// An order with certificates is not deleted.
    pub fn verificar_borrado(&self, certificados: u64) -> (r: Result<(), AppError>)
        ensures
            resultado_dependencias(r, seq![(certificados, "ORDEN_CON_CERTIFICADOS"@, "Conflict.OrdenTrabajo.ConCertificados"@)]),
    {
        proof {
            lema_una((certificados, "ORDEN_CON_CERTIFICADOS"@, "Conflict.OrdenTrabajo.ConCertificados"@));
        }
        en_uso(certificados, "ORDEN_CON_CERTIFICADOS", "Conflict.OrdenTrabajo.ConCertificados")
    }

    /// Which lines of the grid update a stored one and which are new.
    pub fn plan_items(&self, entrantes: &Vec<Option<u128>>, existentes: &Vec<u128>) -> (r: Vec<Option<u128>>)
        ensures
            r@.len() == entrantes@.len(),
            forall|i: int| 0 <= i < entrantes@.len() ==> r@[i] == destino_fila(#[trigger] entrantes@[i], existentes@),
    {
        reutilizar_ids(entrantes, existentes)
    }

    /// A certified line survives the form: every certified line has to be one the grid keeps.
    pub fn verificar_certificados_conservados(&self, entrantes: &Vec<Option<u128>>, existentes: &Vec<u128>, certificados: &Vec<u128>) -> (r: Result<(), AppError>)
        ensures
            r is Ok <==> forall|c: int| 0 <= c < certificados@.len() ==> conservado(#[trigger] certificados@[c], entrantes@, existentes@),
            r matches Err(e) ==> es_conflicto(e, "ITEM_CERTIFICADO"@, "Conflict.OrdenTrabajo.ItemCertificado"@, seq![]),
    {
        let destinos = reutilizar_ids(entrantes, existentes);
        let mut c: usize = 0;
        while c < certificados.len()
            invariant
                c <= certificados@.len(),
                destinos@.len() == entrantes@.len(),
                forall|i: int| 0 <= i < entrantes@.len() ==> destinos@[i] == destino_fila(#[trigger] entrantes@[i], existentes@),
                forall|k: int| 0 <= k < c ==> conservado(#[trigger] certificados@[k], entrantes@, existentes@),
            decreases certificados@.len() - c,
        {
            let x = certificados[c];
            let hallado = algun_destino(&destinos, x);
            proof {
                if hallado {
                    let j = choose|j: int| 0 <= j < destinos@.len() && destinos@[j] == Some(x);
                    assert(destino_fila(entrantes@[j], existentes@) == Some(certificados@[c as int]));
                }
            }
            if !hallado {
                let e = AppError::conflict("ITEM_CERTIFICADO", "Conflict.OrdenTrabajo.ItemCertificado");
                assert(match e {
                    AppError::Conflict { params, .. } => params_v(params@) =~= seq![],
                    _ => true,
                });
                assert(!conservado(certificados@[c as int], entrantes@, existentes@)) by {
                    if conservado(certificados@[c as int], entrantes@, existentes@) {
                        let j = choose|j: int| 0 <= j < entrantes@.len() && destino_fila(entrantes@[j], existentes@) == Some(certificados@[c as int]);
                        assert(destinos@[j] == Some(x));
                    }
                }
                return Err(e);
            }
            c = c + 1;
        }
        Ok(())
    }
}

} // verus!

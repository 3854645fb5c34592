//! Reports: the export covers the whole active filter, and its header describes that filter in
//! prose.

use vstd::prelude::*;
use crate::dinero::{Decimal4, Money};
use crate::fechas::{texto_de_fecha, texto_fecha};
use crate::texto::{copia, recortado, recortar};
use crate::validacion::movimientos::Moneda;

verus! {

/// The filter of the movements screen.
#[derive(Debug)]
pub struct MovimientoFiltroDto {
    pub concepto: Option<String>,
    pub fecha_desde: Option<i32>,
    pub fecha_hasta: Option<i32>,
    pub tipo_movimiento_id: Option<u128>,
    pub categoria_id: Option<u128>,
    pub cliente_id: Option<u128>,
    pub trabajo_id: Option<u128>,
    pub moneda: Option<Moneda>,
}

/// A row of the movements list, with the names of what it points at.
#[derive(Debug)]
pub struct MovimientoListItem {
    pub id: u128,
    pub fecha: i64,
    pub concepto: String,
    pub monto: Money,
    pub cantidad: Decimal4,
    pub total: Money,
    pub moneda: Moneda,
    pub tipo_movimiento_nombre: String,
    pub categoria_nombre: Option<String>,
    pub cliente_nombre: Option<String>,
    pub trabajo_descripcion: Option<String>,
}

/// A line of the description of a filter: a label key and its value.
#[derive(Debug)]
pub struct FiltroDescripcion {
    pub clave: String,
    pub valor: String,
}

pub open spec fn descripciones_v(v: Seq<FiltroDescripcion>) -> Seq<(Seq<char>, Seq<char>)> {
    v.map_values(|d: FiltroDescripcion| (d.clave@, d.valor@))
}

/// The ISO code of a currency.
pub open spec fn iso_de(m: Moneda) -> Seq<char> {
    match m {
        Moneda::Ars => "ARS"@,
        Moneda::Usd => "USD"@,
    }
}

pub fn iso(m: Moneda) -> (r: &'static str)
    ensures
        r@ == iso_de(m),
{
    match m {
        Moneda::Ars => "ARS",
        Moneda::Usd => "USD",
    }
}

/// One line when there is something to say, none otherwise.
pub open spec fn linea(clave: Seq<char>, valor: Option<Seq<char>>) -> Seq<(Seq<char>, Seq<char>)> {
    match valor {
        Some(v) => seq![(clave, v)],
        None => seq![],
    }
}

/// A name taken from the first exported row, when the filter is on and there is a row that
/// carries one.
pub open spec fn nombre_si(filtrado: bool, nombre: Option<Seq<char>>) -> Option<Seq<char>> {
    if filtrado {
        nombre
    } else {
        None
    }
}

pub open spec fn opt_texto(o: Option<String>) -> Option<Seq<char>> {
    match o {
        Some(s) => Some(s@),
        None => None,
    }
}

/// The filters in prose, in a fixed order: text, dates, type, category, customer, job and
/// currency. The names of filtered entities come from the first exported row; a filter that
/// matched nothing names nothing; a blank text is no filter.
pub open spec fn descripcion_de(filtro: MovimientoFiltroDto, items: Seq<MovimientoListItem>) -> Seq<(Seq<char>, Seq<char>)> {
    let primero: Option<MovimientoListItem> = if items.len() > 0 { Some(items[0]) } else { None };
    linea(
        "Report.Filtro.Texto"@,
        match filtro.concepto {
            Some(t) => if recortar(t@).len() > 0 { Some(recortar(t@)) } else { None },
            None => None,
        },
    ) + linea(
        "Report.Filtro.Desde"@,
        match filtro.fecha_desde {
            Some(f) => Some(texto_de_fecha(f)),
            None => None,
        },
    ) + linea(
        "Report.Filtro.Hasta"@,
        match filtro.fecha_hasta {
            Some(f) => Some(texto_de_fecha(f)),
            None => None,
        },
    ) + linea(
        "Report.Filtro.Tipo"@,
        nombre_si(
            filtro.tipo_movimiento_id is Some,
            match primero {
                Some(i) => Some(i.tipo_movimiento_nombre@),
                None => None,
            },
        ),
    ) + linea(
        "Report.Filtro.Categoria"@,
        nombre_si(
            filtro.categoria_id is Some,
            match primero {
                Some(i) => opt_texto(i.categoria_nombre),
                None => None,
            },
        ),
    ) + linea(
        "Report.Filtro.Cliente"@,
        nombre_si(
            filtro.cliente_id is Some,
            match primero {
                Some(i) => opt_texto(i.cliente_nombre),
                None => None,
            },
        ),
    ) + linea(
        "Report.Filtro.Trabajo"@,
        nombre_si(
            filtro.trabajo_id is Some,
            match primero {
                Some(i) => opt_texto(i.trabajo_descripcion),
                None => None,
            },
        ),
    ) + linea(
        "Report.Filtro.Moneda"@,
        match filtro.moneda {
            Some(m) => Some(iso_de(m)),
            None => None,
        },
    )
}

/// A filter that matched no row names nothing: only the text, the dates and the currency are
/// described.
pub proof fn un_filtro_sin_filas_no_nombra_nada(filtro: MovimientoFiltroDto, items: Seq<MovimientoListItem>)
    requires
        items.len() == 0,
    ensures
        descripcion_de(filtro, items) == linea(
            "Report.Filtro.Texto"@,
            match filtro.concepto {
                Some(t) => if recortar(t@).len() > 0 { Some(recortar(t@)) } else { None },
                None => None,
            },
        ) + linea(
            "Report.Filtro.Desde"@,
            match filtro.fecha_desde {
                Some(f) => Some(texto_de_fecha(f)),
                None => None,
            },
        ) + linea(
            "Report.Filtro.Hasta"@,
            match filtro.fecha_hasta {
                Some(f) => Some(texto_de_fecha(f)),
                None => None,
            },
        ) + linea(
            "Report.Filtro.Moneda"@,
            match filtro.moneda {
                Some(m) => Some(iso_de(m)),
                None => None,
            },
        ),
{
    let e = Seq::<(Seq<char>, Seq<char>)>::empty();
    let a = linea(
        "Report.Filtro.Texto"@,
        match filtro.concepto {
            Some(t) => if recortar(t@).len() > 0 { Some(recortar(t@)) } else { None },
            None => None,
        },
    ) + linea(
        "Report.Filtro.Desde"@,
        match filtro.fecha_desde {
            Some(f) => Some(texto_de_fecha(f)),
            None => None,
        },
    ) + linea(
        "Report.Filtro.Hasta"@,
        match filtro.fecha_hasta {
            Some(f) => Some(texto_de_fecha(f)),
            None => None,
        },
    );
    assert(a + e + e + e + e =~= a);
}

/// An empty filter is described by nothing.
pub proof fn un_filtro_vacio_no_dice_nada(filtro: MovimientoFiltroDto, items: Seq<MovimientoListItem>)
    requires
        filtro.concepto is None,
        filtro.fecha_desde is None,
        filtro.fecha_hasta is None,
        filtro.tipo_movimiento_id is None,
        filtro.categoria_id is None,
        filtro.cliente_id is None,
        filtro.trabajo_id is None,
        filtro.moneda is None,
    ensures
        descripcion_de(filtro, items).len() == 0,
{
}

fn agregar(out: &mut Vec<FiltroDescripcion>, clave: &str, valor: Option<String>)
    ensures
        descripciones_v(final(out)@) == descripciones_v(old(out)@) + linea(clave@, opt_texto(valor)),
{
    let ghost antes = descripciones_v(out@);
    match valor {
        Some(v) => {
            out.push(FiltroDescripcion { clave: copia(clave), valor: v });
            assert(descripciones_v(out@) =~= antes + linea(clave@, opt_texto(valor)));
        },
        None => {
            assert(descripciones_v(out@) =~= antes + linea(clave@, opt_texto(valor)));
        },
    }
}

fn copia_opt(o: &Option<String>) -> (r: Option<String>)
    ensures
        opt_texto(r) == opt_texto(*o),
{
    match o {
        Some(s) => Some(copia(s.as_str())),
        None => None,
    }
}

/// The filters in prose, as label keys with their values.
pub fn describir(filtro: &MovimientoFiltroDto, items: &Vec<MovimientoListItem>) -> (r: Vec<FiltroDescripcion>)
    ensures
        descripciones_v(r@) == descripcion_de(*filtro, items@),
{
    let mut out: Vec<FiltroDescripcion> = Vec::new();
    assert(descripciones_v(out@) =~= Seq::<(Seq<char>, Seq<char>)>::empty());
    let texto = match &filtro.concepto {
        Some(t) => {
            let r = recortado(t.as_str());
            if r.unicode_len() > 0 {
                Some(copia(r))
            } else {
                None
            }
        },
        None => None,
    };
    agregar(&mut out, "Report.Filtro.Texto", texto);
    let desde = match filtro.fecha_desde {
        Some(f) => Some(texto_fecha(f)),
        None => None,
    };
    agregar(&mut out, "Report.Filtro.Desde", desde);
    let hasta = match filtro.fecha_hasta {
        Some(f) => Some(texto_fecha(f)),
        None => None,
    };
    agregar(&mut out, "Report.Filtro.Hasta", hasta);
    let hay = items.len() > 0;
    let tipo = if filtro.tipo_movimiento_id.is_some() && hay {
        Some(copia(items[0].tipo_movimiento_nombre.as_str()))
    } else {
        None
    };
    agregar(&mut out, "Report.Filtro.Tipo", tipo);
    let categoria = if filtro.categoria_id.is_some() && hay {
        copia_opt(&items[0].categoria_nombre)
    } else {
        None
    };
    agregar(&mut out, "Report.Filtro.Categoria", categoria);
    let cliente = if filtro.cliente_id.is_some() && hay {
        copia_opt(&items[0].cliente_nombre)
    } else {
        None
    };
    agregar(&mut out, "Report.Filtro.Cliente", cliente);
    let trabajo = if filtro.trabajo_id.is_some() && hay {
        copia_opt(&items[0].trabajo_descripcion)
    } else {
        None
    };
    agregar(&mut out, "Report.Filtro.Trabajo", trabajo);
    let moneda = match filtro.moneda {
        Some(m) => Some(copia(iso(m))),
        None => None,
    };
    agregar(&mut out, "Report.Filtro.Moneda", moneda);
    assert(descripciones_v(out@) =~= descripcion_de(*filtro, items@));
    out
}

/// The report service: it holds nothing the rules read.
pub struct ReportesService {}

impl ReportesService {
    pub fn new() -> (s: ReportesService) {
        ReportesService {  }
    }
}

} // verus!

//! The dollar quotes. A service being down is never the user's problem: a failure degrades to
//! the cache, an empty cache to an empty list, and no path is an error.

use vstd::prelude::*;
use crate::dinero::Money;
use crate::texto::{a_minusculas, copia, iguales, minusculas, recortado, recortar};

verus! {

/// One exchange house's quote.
#[derive(Debug)]
pub struct Cotizacion {
    pub casa: String,
    pub nombre: String,
    pub compra: Money,
    pub venta: Money,
    pub desactualizada: bool,
}

/// What a quote says.
pub struct CotizacionV {
    pub casa: Seq<char>,
    pub nombre: Seq<char>,
    pub compra: Money,
    pub venta: Money,
    pub desactualizada: bool,
}

impl View for Cotizacion {
    type V = CotizacionV;

    open spec fn view(&self) -> CotizacionV {
        CotizacionV {
            casa: self.casa@,
            nombre: self.nombre@,
            compra: self.compra,
            venta: self.venta,
            desactualizada: self.desactualizada,
        }
    }
}

pub open spec fn cotizaciones_v(v: Seq<Cotizacion>) -> Seq<CotizacionV> {
    v.map_values(|c: Cotizacion| c@)
}

pub open spec fn textos_v(v: Seq<String>) -> Seq<Seq<char>> {
    v.map_values(|s: String| s@)
}

/// The first quote of this house, the house compared in lower case.
pub open spec fn primera_de_casa(cs: Seq<CotizacionV>, casa: Seq<char>) -> Option<int>
    decreases cs.len(),
{
    if cs.len() == 0 {
        None
    } else if minusculas(cs[0].casa) == casa {
        Some(0)
    } else {
        match primera_de_casa(cs.drop_first(), casa) {
            Some(k) => Some(k + 1),
            None => None,
        }
    }
}

/// The configured houses that have a quote, in the order they were configured; a house is
/// written trimmed and in any case.
pub open spec fn visibles_v(cs: Seq<CotizacionV>, casas: Seq<Seq<char>>) -> Seq<CotizacionV>
    decreases casas.len(),
{
    if casas.len() == 0 {
        seq![]
    } else {
        visibles_v(cs, casas.drop_last()) + match primera_de_casa(cs, minusculas(recortar(casas.last()))) {
            Some(k) => seq![cs[k]],
            None => seq![],
        }
    }
}

/// The quote marked as out of date.
pub open spec fn desactualizar(c: CotizacionV) -> CotizacionV {
    CotizacionV { desactualizada: true, ..c }
}

/// How a request for the quotes ends: whether the fresh list is stored, and what is shown.
#[derive(Debug)]
pub struct Resolucion {
    pub guardar: bool,
    pub cotizaciones: Vec<Cotizacion>,
}

fn copiar(c: &Cotizacion, desactualizada: bool) -> (r: Cotizacion)
    ensures
        r@ == (CotizacionV { desactualizada, ..c@ }),
{
    Cotizacion {
        casa: copia(c.casa.as_str()),
        nombre: copia(c.nombre.as_str()),
        compra: c.compra,
        venta: c.venta,
        desactualizada,
    }
}

fn buscar_casa(cs: &Vec<Cotizacion>, casa: &str) -> (r: Option<usize>)
    ensures
        match primera_de_casa(cotizaciones_v(cs@), casa@) {
            Some(k) => r == Some(k as usize) && 0 <= k < cs@.len(),
            None => r is None,
        },
{
    let mut k: usize = 0;
    assert(cotizaciones_v(cs@).skip(0) =~= cotizaciones_v(cs@));
    while k < cs.len()
        invariant
            k <= cs@.len(),
            primera_de_casa(cotizaciones_v(cs@), casa@) == match primera_de_casa(cotizaciones_v(cs@).skip(k as int), casa@) {
                Some(j) => Some(j + k),
                None => None::<int>,
            },
        decreases cs@.len() - k,
    {
        assert(cotizaciones_v(cs@).skip(k as int).drop_first() =~= cotizaciones_v(cs@).skip(k + 1));
        assert(cotizaciones_v(cs@).skip(k as int)[0] == cs@[k as int]@);
        let c = a_minusculas(cs[k].casa.as_str());
        if iguales(c.as_str(), casa) {
            return Some(k);
        }
        k = k + 1;
    }
    None
}

/// The end of a request: a non-empty answer is stored and shown; an empty answer or a failure
/// shows the cache marked as out of date, or nothing when there is no cache.
pub open spec fn resolucion_ok(casas: Seq<String>, respuesta: Option<Vec<Cotizacion>>, cache: Option<Vec<Cotizacion>>, r: Resolucion) -> bool {
    match respuesta {
        Some(v) if v@.len() > 0 => r.guardar && cotizaciones_v(r.cotizaciones@) == visibles_v(cotizaciones_v(v@), textos_v(casas)),
        _ => !r.guardar && match cache {
            Some(c) => cotizaciones_v(r.cotizaciones@) == visibles_v(
                cotizaciones_v(c@).map_values(|x: CotizacionV| desactualizar(x)),
                textos_v(casas),
            ),
            None => r.cotizaciones@.len() == 0,
        },
    }
}

/// The settings the quotes read: how long the cache is fresh, and which houses are shown.
pub struct CotizacionesService {
    pub cache_minutos: u32,
    pub casas: Vec<String>,
}

impl CotizacionesService {
    pub fn new(cache_minutos: u32, casas: Vec<String>) -> (s: CotizacionesService)
        ensures
            s.cache_minutos == cache_minutos,
            s.casas@ == casas@,
    {
        CotizacionesService { cache_minutos, casas }
    }

    /// Keeps only the configured houses, in the order they were configured, so the status bar
    /// does not reshuffle itself when the service changes the order of its list.
    pub fn visibles(&self, cotizaciones: &Vec<Cotizacion>, casas: &Vec<String>) -> (r: Vec<Cotizacion>)
        ensures
            cotizaciones_v(r@) == visibles_v(cotizaciones_v(cotizaciones@), textos_v(casas@)),
    {
        let mut r: Vec<Cotizacion> = Vec::new();
        let mut i: usize = 0;
        assert(textos_v(casas@).take(0) =~= Seq::<Seq<char>>::empty());
        assert(cotizaciones_v(r@) =~= Seq::<CotizacionV>::empty());
        while i < casas.len()
            invariant
                i <= casas@.len(),
                cotizaciones_v(r@) == visibles_v(cotizaciones_v(cotizaciones@), textos_v(casas@).take(i as int)),
            decreases casas@.len() - i,
        {
            assert(textos_v(casas@).take(i + 1).drop_last() =~= textos_v(casas@).take(i as int));
            assert(textos_v(casas@).take(i + 1).last() == casas@[i as int]@);
            let casa = a_minusculas(recortado(casas[i].as_str()));
            let ghost antes = cotizaciones_v(r@);
            let ghost cs_v = cotizaciones_v(cotizaciones@);
            assert(visibles_v(cs_v, textos_v(casas@).take(i + 1)) == visibles_v(cs_v, textos_v(casas@).take(i as int))
                + match primera_de_casa(cs_v, casa@) {
                Some(k) => seq![cs_v[k]],
                None => seq![],
            });
            let casa_str = casa.as_str();
            assert(casa_str@ == casa@);
            let encontrada = buscar_casa(cotizaciones, casa_str);
            match encontrada {
                Some(k) => {
                    let x = copiar(&cotizaciones[k], cotizaciones[k].desactualizada);
                    assert(primera_de_casa(cs_v, casa@)->0 < cotizaciones.len());
                    r.push(x);
                    assert(cotizaciones_v(r@) =~= antes + seq![cotizaciones_v(cotizaciones@)[k as int]]);
                },
                None => {
                    assert(antes + Seq::<CotizacionV>::empty() =~= antes);
                },
            }
            i = i + 1;
        }
        assert(textos_v(casas@).take(casas@.len() as int) =~= textos_v(casas@));
        r
    }

    /// Whether the cached list written at `escrito` is still fresh at `ahora`; a forced refresh
    /// never uses it.
    pub fn usar_cache(&self, forzar: bool, escrito: Option<i64>, ahora: i64) -> (b: bool)
        ensures
            b == (!forzar && (escrito matches Some(t) && ahora - t < self.cache_minutos * 60_000_000_000int)),
    {
        if forzar {
            return false;
        }
        match escrito {
            Some(t) => (ahora as i128 - t as i128) < self.cache_minutos as i128 * 60_000_000_000,
            None => false,
        }
    }

    /// The end of a request, as `resolucion_ok` says.
    pub fn resolver(&self, respuesta: Option<Vec<Cotizacion>>, cache: Option<Vec<Cotizacion>>) -> (r: Resolucion)
        ensures
            resolucion_ok(self.casas@, respuesta, cache, r),
    {
        match respuesta {
            Some(v) if v.len() > 0 => {
                let lista = self.visibles(&v, &self.casas);
                return Resolucion { guardar: true, cotizaciones: lista };
            },
            _ => {},
        }
        match cache {
            Some(c) => {
                let mut marcadas: Vec<Cotizacion> = Vec::new();
                let mut i: usize = 0;
                while i < c.len()
                    invariant
                        i <= c@.len(),
                        marcadas@.len() == i,
                        forall|k: int| 0 <= k < i ==> (#[trigger] marcadas@[k])@ == desactualizar(c@[k]@),
                    decreases c@.len() - i,
                {
                    marcadas.push(copiar(&c[i], true));
                    i = i + 1;
                }
                assert(cotizaciones_v(marcadas@) =~= cotizaciones_v(c@).map_values(|x: CotizacionV| desactualizar(x)));
                let lista = self.visibles(&marcadas, &self.casas);
                Resolucion { guardar: false, cotizaciones: lista }
            },
            None => Resolucion { guardar: false, cotizaciones: Vec::new() },
        }
    }

    /// The quotes a request shows, never an error: a fresh cache (written `cache_minutos` ago or
    /// less, and not forced past) is shown without asking; otherwise the service is asked once
    /// through `consultar`, and its answer, or its failure, ends the request as `resolver` says.
    pub fn obtener<F: Fn() -> Option<Vec<Cotizacion>>>(
        &self,
        forzar: bool,
        cache: Option<(Vec<Cotizacion>, i64)>,
        ahora: i64,
        consultar: F,
    ) -> (r: Resolucion)
        requires
            call_requires(consultar, ()),
        ensures
            match cache {
                Some((c, t)) if !forzar && ahora - t < self.cache_minutos * 60_000_000_000int => !r.guardar
                    && cotizaciones_v(r.cotizaciones@) == visibles_v(cotizaciones_v(c@), textos_v(self.casas@)),
                _ => exists|respuesta: Option<Vec<Cotizacion>>| call_ensures(consultar, (), respuesta) && resolucion_ok(
                    self.casas@,
                    respuesta,
                    match cache {
                        Some((c, _)) => Some(c),
                        None => None,
                    },
                    r,
                ),
            },
    {
        let escrito = match &cache {
            Some((_, t)) => Some(*t),
            None => None,
        };
        if self.usar_cache(forzar, escrito, ahora) {
            match cache {
                Some((c, _)) => {
                    let lista = self.visibles(&c, &self.casas);
                    return Resolucion { guardar: false, cotizaciones: lista };
                },
                None => {},
            }
        }
        let respuesta = consultar();
        let guardada = match cache {
            Some((c, _)) => Some(c),
            None => None,
        };
        self.resolver(respuesta, guardada)
    }
}

} // verus!

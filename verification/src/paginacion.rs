//! Paging derives every count from the request and the total, so no caller gets `has_next` wrong
//! on the last page.

use vstd::prelude::*;
use crate::error::{error_campo, AppError, FieldError};
use crate::validacion::{exigir, resultado_de, Validator};

verus! {

/// A page of a list: the first page is `1`; a size of `0` means the whole list, unpaged.
#[derive(Debug, Clone, Copy, PartialEq, Eq, Structural)]
pub struct PageRequest {
    pub page: u32,
    pub size: u32,
}

/// The sizes the interface offers.
pub open spec fn tamano_permitido(size: u32) -> bool {
    size == 10 || size == 20 || size == 30 || size == 50 || size == 100
}

/// How many pages `total` rows make, at `size` rows each, rounding up; unpaged, one page when
/// there are rows and none when there are not.
pub open spec fn paginas(total: nat, size: nat) -> nat {
    if size == 0 {
        if total == 0 {
            0
        } else {
            1
        }
    } else {
        ((total + size - 1) as nat) / size
    }
}

impl PageRequest {
    pub const DEFAULT_SIZE: u32 = 30;

    pub fn allowed_sizes() -> (r: [u32; 5])
        ensures
            r@ == seq![10u32, 20, 30, 50, 100],
    {
        [10, 20, 30, 50, 100]
    }

    pub fn new(page: u32, size: u32) -> (r: PageRequest)
        ensures
            r.page == page,
            r.size == size,
    {
        PageRequest { page, size }
    }

    /// Rows to skip before this page.
    pub fn offset(&self) -> (o: u64)
        ensures
            self.page >= 1 ==> o == (self.page - 1) * self.size,
            self.page == 0 ==> o == 0,
    {
        if self.page == 0 {
            0
        } else {
            assert((self.page - 1) as int * self.size as int <= 0xffff_ffff * 0xffff_ffff) by (nonlinear_arith)
                requires
                    self.page >= 1,
            ;
            (self.page as u64 - 1) * self.size as u64
        }
    }

    /// Rows to read, none as a limit when unpaged.
    pub fn limit(&self) -> (l: Option<u64>)
        ensures
            self.size == 0 ==> l is None,
            self.size != 0 ==> l == Some(self.size as u64),
    {
        if self.size == 0 {
            None
        } else {
            Some(self.size as u64)
        }
    }

    /// A page exists from one on, and only the offered sizes are accepted.
    pub fn validate(&self) -> (r: Result<(), AppError>)
        ensures
            resultado_de(
                r,
                exigir(self.page >= 1, error_campo("page"@, "Validation.Paging.PageInvalid"@))
                    + exigir(
                    tamano_permitido(self.size),
                    error_campo("size"@, "Validation.Paging.SizeInvalid"@),
                ),
            ),
    {
        let mut v = Validator::new();
        v.require(self.page >= 1, FieldError::new("page", "Validation.Paging.PageInvalid"));
        let s = self.size;
        let permitido = s == 10 || s == 20 || s == 30 || s == 50 || s == 100;
        v.require(permitido, FieldError::new("size", "Validation.Paging.SizeInvalid"));
        v.finish()
    }
}

impl Default for PageRequest {
    /// Page one of thirty.
    fn default() -> (r: PageRequest)
        ensures
            r.page == 1,
            r.size == 30,
    {
        PageRequest { page: 1, size: 30 }
    }
}

/// A page of results with every counter derived from the request and the total.
#[derive(Debug)]
pub struct PagedResult<T> {
    pub items: Vec<T>,
    pub total_count: u64,
    pub page: u32,
    pub page_size: u32,
    pub total_pages: u32,
    pub has_next: bool,
    pub has_previous: bool,
}

/// The counters of a page of `total` rows asked for with `request`; the page count saturates at
/// `u32::MAX`.
pub open spec fn contadores_ok<T>(r: PagedResult<T>, total: u64, request: PageRequest) -> bool {
    let p = paginas(total as nat, request.size as nat);
    &&& r.total_count == total
    &&& r.page == request.page
    &&& r.page_size == request.size
    &&& r.total_pages == if p <= u32::MAX { p } else { u32::MAX as nat }
    &&& r.has_previous == (request.page > 1)
    &&& r.has_next == (request.page < r.total_pages)
}

impl<T> PagedResult<T> {
    pub fn new(items: Vec<T>, total: u64, request: PageRequest) -> (r: PagedResult<T>)
        ensures
            contadores_ok(r, total, request),
            r.items@ == items@,
    {
        let paginas_u64: u64 = if request.size == 0 {
            if total == 0 {
                0
            } else {
                1
            }
        } else {
            let size = request.size as u64;
            let q = total / size;
            if total % size == 0 {
                q
            } else {
                assert(q < 0xffff_ffff_ffff_ffff) by (nonlinear_arith)
                    requires
                        q == total as int / size as int,
                        total as int % size as int != 0,
                        size >= 1,
                        total <= 0xffff_ffff_ffff_ffff,
                ;
                q + 1
            }
        };
        proof {
            if request.size != 0 {
                let s = request.size as int;
                let t = total as int;
                assert(t / s + (if t % s == 0 { 0int } else { 1int }) == (t + s - 1) / s) by (nonlinear_arith)
                    requires
                        s > 0,
                        t >= 0,
                ;
            }
        }
        let total_pages: u32 = if paginas_u64 > u32::MAX as u64 {
            u32::MAX
        } else {
            paginas_u64 as u32
        };
        PagedResult {
            items,
            total_count: total,
            page: request.page,
            page_size: request.size,
            total_pages,
            has_next: request.page < total_pages,
            has_previous: request.page > 1,
        }
    }

    /// The same page with every item transformed; every counter is kept.
    pub fn map<U, F: Fn(T) -> U>(self, f: F) -> (r: PagedResult<U>)
        requires
            forall|i: int| 0 <= i < self.items@.len() ==> call_requires(f, (self.items@[i],)),
        ensures
            r.items@.len() == self.items@.len(),
            forall|i: int|
                0 <= i < self.items@.len() ==> call_ensures(f, (self.items@[i],), #[trigger] r.items@[i]),
            r.total_count == self.total_count,
            r.page == self.page,
            r.page_size == self.page_size,
            r.total_pages == self.total_pages,
            r.has_next == self.has_next,
            r.has_previous == self.has_previous,
    {
        let ghost origen = self.items@;
        let mut resto = self.items;
        let mut items: Vec<U> = Vec::new();
        while resto.len() > 0
            invariant
                items@.len() + resto@.len() == origen.len(),
                resto@ == origen.skip(items@.len() as int),
                forall|i: int| 0 <= i < origen.len() ==> call_requires(f, (origen[i],)),
                forall|i: int|
                    0 <= i < items@.len() ==> call_ensures(f, (origen[i],), #[trigger] items@[i]),
            decreases resto@.len(),
        {
            let ghost k = items@.len() as int;
            let x = resto.remove(0);
            assert(x == origen[k]);
            assert(resto@ =~= origen.skip(k + 1));
            let y = f(x);
            items.push(y);
        }
        PagedResult {
            items,
            total_count: self.total_count,
            page: self.page,
            page_size: self.page_size,
            total_pages: self.total_pages,
            has_next: self.has_next,
            has_previous: self.has_previous,
        }
    }
}

impl<T> PagedResult<T> {
    /// The same page with every item transformed by a fallible step; the first failure, in item
    /// order, is returned and the rest are not attempted.
    pub fn try_map<U, E, F: Fn(T) -> Result<U, E>>(self, f: F) -> (r: Result<PagedResult<U>, E>)
        requires
            forall|i: int| 0 <= i < self.items@.len() ==> call_requires(f, (self.items@[i],)),
        ensures
            r matches Ok(p) ==> {
                &&& p.items@.len() == self.items@.len()
                &&& forall|i: int|
                    0 <= i < self.items@.len() ==> call_ensures(
                        f,
                        (self.items@[i],),
                        Ok::<U, E>(#[trigger] p.items@[i]),
                    )
                &&& p.total_count == self.total_count
                &&& p.page == self.page
                &&& p.page_size == self.page_size
                &&& p.total_pages == self.total_pages
                &&& p.has_next == self.has_next
                &&& p.has_previous == self.has_previous
            },
            r is Err ==> exists|k: int|
                0 <= k < self.items@.len() && #[trigger] call_ensures(
                    f,
                    (self.items@[k],),
                    Err::<U, E>(r->Err_0),
                ),
    {
        let ghost origen = self.items@;
        let mut resto = self.items;
        let mut items: Vec<U> = Vec::new();
        while resto.len() > 0
            invariant
                origen == self.items@,
                items@.len() + resto@.len() == origen.len(),
                resto@ == origen.skip(items@.len() as int),
                forall|i: int| 0 <= i < origen.len() ==> call_requires(f, (origen[i],)),
                forall|i: int|
                    0 <= i < items@.len() ==> call_ensures(f, (origen[i],), Ok::<U, E>(#[trigger] items@[i])),
            decreases resto@.len(),
        {
            let ghost k = items@.len() as int;
            let x = resto.remove(0);
            assert(x == origen[k]);
            assert(resto@ =~= origen.skip(k + 1));
            let res = f(x);
            let ghost g = res;
            match res {
                Ok(y) => {
                    items.push(y);
                },
                Err(e) => {
                    assert(call_ensures(f, (origen[k],), g));
                    assert(g == Err::<U, E>(e));
                    assert(0 <= k < origen.len() && call_ensures(f, (origen[k],), Err::<U, E>(e)));
                    assert(call_ensures(f, (self.items@[k],), Err::<U, E>(e)));
                    let r: Result<PagedResult<U>, E> = Err(e);
                    assert(r is Err);
                    assert(call_ensures(f, (self.items@[k],), Err::<U, E>(r->Err_0)));
                    return r;
                },
            }
        }
        Ok(
            PagedResult {
                items,
                total_count: self.total_count,
                page: self.page,
                page_size: self.page_size,
                total_pages: self.total_pages,
                has_next: self.has_next,
                has_previous: self.has_previous,
            },
        )
    }
}

} // verus!

//! Sign-in and users: the order in which a login is refused, the life of a session, the
//! addresses users are stored under, and what a reassignment of roles or permissions removes.

use vstd::prelude::*;
use vstd::string::*;
use crate::error::{es_conflicto, params_v, AppError};
use crate::fechas::NANOS_POR_DIA;
use crate::texto::{a_minusculas, copia, minusculas, recortado, recortar};

verus! {

/// How long a session lasts: seven days.
pub const DIAS_SESION: i64 = 7;

/// A refusal with a code and a key and nothing else.
pub open spec fn rechazo(e: AppError, code: Seq<char>, key: Seq<char>) -> bool {
    es_conflicto(e, code, key, seq![])
}

fn rechazar(code: &str, key: &str) -> (e: AppError)
    ensures
        rechazo(e, code@, key@),
{
    let e = AppError::conflict(code, key);
    assert(match e {
        AppError::Conflict { params, .. } => params_v(params@) =~= seq![],
        _ => true,
    });
    e
}

/// What the login knows of the account before checking the password; whether it is locked is
/// the account's own rule.
#[derive(Debug, Clone, Copy, PartialEq, Eq, Structural)]
pub struct Cuenta {
    pub activo: bool,
    pub bloqueado: bool,
    pub tiene_clave: bool,
}

/// The refusals before the password, in order: an unknown address and a wrong password answer the
/// same, so nobody learns which addresses exist.
pub open spec fn chequeo_cuenta(r: Result<(), AppError>, cuenta: Option<Cuenta>) -> bool {
    match cuenta {
        None => r matches Err(e) && rechazo(e, "INVALID_CREDENTIALS"@, "Validation.Auth.InvalidCredentials"@),
        Some(c) => if !c.activo {
            r matches Err(e) && rechazo(e, "USER_INACTIVE"@, "Validation.Auth.UserInactive"@)
        } else if c.bloqueado {
            r matches Err(e) && rechazo(e, "USER_LOCKED"@, "Validation.Auth.UserLocked"@)
        } else if !c.tiene_clave {
            r matches Err(e) && rechazo(e, "PASSWORD_NOT_SET"@, "Validation.Auth.PasswordNotSet"@)
        } else {
            r is Ok
        },
    }
}

/// What the second factor step knows.
#[derive(Debug, Clone, Copy, PartialEq, Eq, Structural)]
pub struct SegundoFactor {
    pub requiere: bool,
    pub tiene_secreto: bool,
    pub trae_codigo: bool,
    /// The authenticator's verdict on the code; only read when there is a secret and a code.
    pub codigo_valido: bool,
}

/// The second factor: not asked when not required; otherwise it needs a configured secret, a
/// code, and the code has to be right.
pub open spec fn chequeo_2fa(r: Result<(), AppError>, f: SegundoFactor) -> bool {
    if !f.requiere {
        r is Ok
    } else if !f.tiene_secreto {
        r matches Err(e) && rechazo(e, "2FA_NOT_CONFIGURED"@, "Validation.Auth.2faNotConfigured"@)
    } else if !f.trae_codigo {
        r matches Err(e) && rechazo(e, "2FA_CODE_REQUIRED"@, "Validation.Auth.2faCodeRequired"@)
    } else if !f.codigo_valido {
        r matches Err(e) && rechazo(e, "2FA_INVALID"@, "Validation.Auth.Invalid2faCode"@)
    } else {
        r is Ok
    }
}

/// Wrong passwords in a row that lock an account.
pub const MAX_INTENTOS: u32 = 5;

/// How long a lock lasts, in minutes.
pub const MINUTOS_BLOQUEO: i64 = 15;

/// The sign-in record of an account: wrong passwords in a row, and the instant a lock ends.
#[derive(Debug, Clone, Copy, PartialEq, Eq, Structural)]
pub struct Acceso {
    pub intentos_fallidos: u32,
    pub bloqueado_hasta: Option<i64>,
}

/// An account is locked until the instant its lock ends.
pub open spec fn bloqueado_en(a: Acceso, ahora: i64) -> bool {
    a.bloqueado_hasta matches Some(t) && ahora < t
}

/// The instant `minutos` after `ahora`, the last instant that can be written when it cannot.
pub open spec fn mas_minutos(ahora: i64, minutos: i64) -> i64 {
    if ahora + minutos * 60_000_000_000 > i64::MAX {
        i64::MAX
    } else {
        (ahora + minutos * 60_000_000_000) as i64
    }
}

/// A wrong password counts one more failure; reaching the limit locks the account for
/// `MINUTOS_BLOQUEO` minutes from now.
pub open spec fn tras_fallo(a: Acceso, ahora: i64) -> Acceso {
    let n: u32 = if a.intentos_fallidos == u32::MAX { u32::MAX } else { (a.intentos_fallidos + 1) as u32 };
    Acceso {
        intentos_fallidos: n,
        bloqueado_hasta: if n >= MAX_INTENTOS {
            Some(mas_minutos(ahora, MINUTOS_BLOQUEO))
        } else {
            a.bloqueado_hasta
        },
    }
}

/// A right password clears the failures and the lock.
pub open spec fn acceso_limpio() -> Acceso {
    Acceso { intentos_fallidos: 0, bloqueado_hasta: None }
}

/// The sign-in service: it holds nothing the rules read.
pub struct AuthService {}

impl AuthService {
    pub fn new() -> (s: AuthService) {
        AuthService {  }
    }

    /// The checks on the account before the password is looked at.
    pub fn verificar_cuenta(&self, cuenta: Option<Cuenta>) -> (r: Result<(), AppError>)
        ensures
            chequeo_cuenta(r, cuenta),
    {
        match cuenta {
            None => Err(rechazar("INVALID_CREDENTIALS", "Validation.Auth.InvalidCredentials")),
            Some(c) => if !c.activo {
                Err(rechazar("USER_INACTIVE", "Validation.Auth.UserInactive"))
            } else if c.bloqueado {
                Err(rechazar("USER_LOCKED", "Validation.Auth.UserLocked"))
            } else if !c.tiene_clave {
                Err(rechazar("PASSWORD_NOT_SET", "Validation.Auth.PasswordNotSet"))
            } else {
                Ok(())
            },
        }
    }

    /// A wrong password is refused exactly like an unknown address.
    pub fn verificar_clave(&self, valida: bool) -> (r: Result<(), AppError>)
        ensures
            valida ==> r is Ok,
            !valida ==> (r matches Err(e) && rechazo(e, "INVALID_CREDENTIALS"@, "Validation.Auth.InvalidCredentials"@)),
    {
        if valida {
            Ok(())
        } else {
            Err(rechazar("INVALID_CREDENTIALS", "Validation.Auth.InvalidCredentials"))
        }
    }

    /// Whether the account is locked at `ahora`.
    pub fn esta_bloqueado(&self, a: Acceso, ahora: i64) -> (b: bool)
        ensures
            b == bloqueado_en(a, ahora),
    {
        match a.bloqueado_hasta {
            Some(t) => ahora < t,
            None => false,
        }
    }

    /// The password step: a wrong password is refused like an unknown address and recorded as a
    /// failure, which locks the account at the limit; a right one clears the record.
    pub fn intento_de_clave(&self, valida: bool, a: Acceso, ahora: i64) -> (r: (Result<(), AppError>, Acceso))
        ensures
            valida ==> r.0 is Ok && r.1 == acceso_limpio(),
            !valida ==> (r.0 matches Err(e) && rechazo(e, "INVALID_CREDENTIALS"@, "Validation.Auth.InvalidCredentials"@))
                && r.1 == tras_fallo(a, ahora),
    {
        if valida {
            return (Ok(()), Acceso { intentos_fallidos: 0, bloqueado_hasta: None });
        }
        let n: u32 = if a.intentos_fallidos == u32::MAX {
            u32::MAX
        } else {
            a.intentos_fallidos + 1
        };
        let hasta = if n >= MAX_INTENTOS {
            let fin: i128 = ahora as i128 + MINUTOS_BLOQUEO as i128 * 60_000_000_000;
            Some(if fin > i64::MAX as i128 { i64::MAX } else { fin as i64 })
        } else {
            a.bloqueado_hasta
        };
        (self.verificar_clave(false), Acceso { intentos_fallidos: n, bloqueado_hasta: hasta })
    }

    /// The second factor check.
    pub fn verificar_2fa(&self, f: SegundoFactor) -> (r: Result<(), AppError>)
        ensures
            chequeo_2fa(r, f),
    {
        if !f.requiere {
            Ok(())
        } else if !f.tiene_secreto {
            Err(rechazar("2FA_NOT_CONFIGURED", "Validation.Auth.2faNotConfigured"))
        } else if !f.trae_codigo {
            Err(rechazar("2FA_CODE_REQUIRED", "Validation.Auth.2faCodeRequired"))
        } else if !f.codigo_valido {
            Err(rechazar("2FA_INVALID", "Validation.Auth.Invalid2faCode"))
        } else {
            Ok(())
        }
    }

    /// When a session opened at `ahora` (nanoseconds since the epoch) expires: seven days later;
    /// nothing when that instant cannot be written.
    pub fn vencimiento_sesion(&self, ahora: i64) -> (r: Option<i64>)
        ensures
            ahora + DIAS_SESION * NANOS_POR_DIA <= i64::MAX ==> r == Some((ahora + DIAS_SESION * NANOS_POR_DIA) as i64),
            ahora + DIAS_SESION * NANOS_POR_DIA > i64::MAX ==> r is None,
    {
        ahora.checked_add(DIAS_SESION * NANOS_POR_DIA)
    }

    /// The address a user is stored and looked up under: trimmed and in lower case.
    pub fn normalizar_email(&self, email: &str) -> (r: String)
        ensures
            r@ == minusculas(recortar(email@)),
    {
        a_minusculas(recortado(email))
    }

    /// Whether the form brings a new password: a blank one leaves the old.
    pub fn hay_clave_nueva(&self, clave: Option<&str>) -> (b: bool)
        ensures
            b == (clave matches Some(c) && recortar(c@).len() > 0),
    {
        match clave {
            Some(c) => recortado(c).unicode_len() > 0,
            None => false,
        }
    }

    /// The address an authenticator app reads the secret from.
    pub fn otpauth_url(&self, email: &str, secreto: &str) -> (r: String)
        ensures
            r@ == "otpauth://totp/Certaro:"@ + email@ + "?secret="@ + secreto@ + "&issuer=Certaro"@,
    {
        let mut r = copia("otpauth://totp/Certaro:");
        r = r.concat(email);
        r = r.concat("?secret=");
        r = r.concat(secreto);
        r = r.concat("&issuer=Certaro");
        r
    }

    /// The roles or permissions a reassignment takes away: those held now and not in the new
    /// list, in the order they are held.
    pub fn a_quitar(&self, actuales: &Vec<u128>, nuevos: &Vec<u128>) -> (r: Vec<u128>)
        ensures
            r@ == actuales@.filter(|x: u128| !nuevos@.contains(x)),
    {
        let mut r: Vec<u128> = Vec::new();
        let mut i: usize = 0;
        assert(actuales@.take(0) =~= Seq::<u128>::empty());
        while i < actuales.len()
            invariant
                i <= actuales@.len(),
                r@ == actuales@.take(i as int).filter(|x: u128| !nuevos@.contains(x)),
            decreases actuales@.len() - i,
        {
            let x = actuales[i];
            let mut j: usize = 0;
            let mut esta = false;
            while j < nuevos.len()
                invariant
                    j <= nuevos@.len(),
                    esta == exists|k: int| 0 <= k < j && nuevos@[k] == x,
                decreases nuevos@.len() - j,
            {
                if nuevos[j] == x {
                    esta = true;
                }
                j = j + 1;
            }
            assert(esta == nuevos@.contains(x));
            assert(actuales@.take(i + 1).drop_last() =~= actuales@.take(i as int));
            reveal(Seq::filter);
            if !esta {
                r.push(x);
            }
            i = i + 1;
        }
        assert(actuales@.take(actuales@.len() as int) =~= actuales@);
        r
    }
}

} // verus!

# certaro

The business rules of a project-and-site management application (works, jobs, work orders,
certificates of progress, payroll settlements, invoices and payments, receivables, boards,
calendar, dashboard), written in Verus: every rule is an executable function whose contract
states what it returns, and the properties that span several functions are proof functions.

Layout:

- `src/` — the verified library, one module per area (`dinero`, `fechas`, `validacion`,
  `certificados`, `liquidaciones`, `facturas`, `comercial`, `dashboard`, ...). Amounts are
  fixed-point integers, dates are day numbers and instants are nanoseconds since the Unix epoch.
  Calls into `chrono` and `anyhow`, and std's lower-casing, stand behind small trusted wrappers
  in `fechas`, `texto` and `error`, each with a doc comment saying what is assumed of it.
- `tests/` — ordinary Rust tests run against the compiled library.
- `app/` — the unverified edge: the clock, identifiers, the JSON cache of the dollar quotes and
  the request loop that talks to the quotes service.

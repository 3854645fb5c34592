//! Business rules of a project-and-site management application: amounts, dates, validation,
//! certificates of progress, payroll settlements, invoices, receivables and the dashboard.

pub mod dinero;
pub mod texto;
pub mod error;
pub mod validacion;
pub mod paginacion;
pub mod fechas;
pub mod liquidaciones;
pub mod certificados;
pub mod facturas;
pub mod comercial;
pub mod dashboard;
pub mod entidades;
pub mod kanban;
pub mod cotizaciones;
pub mod reportes;
pub mod auth;
pub mod calendario;

//! A small ticket-management backend core: request context, authentication
//! token handling, a uniform error taxonomy with its client-facing mapping,
//! a response mapper that builds the client error envelope and one log record
//! per request, and the in-memory ticket store.

pub mod auth;
pub mod ctx;
pub mod error;
pub mod mapper;
pub mod model;
pub mod token;

pub use auth::CtxStash;
pub use auth::ResolveOutcome;
pub use ctx::Ctx;
pub use error::ClientError;
pub use error::Error;
pub use error::TicketResult;
pub use mapper::ErrorResponse;
pub use mapper::MapperOutcome;
pub use mapper::RequestLogLine;
pub use model::ModelController;
pub use model::Ticket;
pub use model::TicketForCreate;

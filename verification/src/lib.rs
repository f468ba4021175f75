//! A small, verified core of a text-protocol to-do service: an in-memory
//! record store, the request parser/router that drives it, and the JSON
//! and response serializers, each with a full functional contract.

pub mod jsonin;
pub mod jsonout;
pub mod props;
pub mod respond;
pub mod router;
pub mod store;
pub mod text;
pub mod validate;

pub use respond::{build_response, format_response};
pub use router::{create_todo, delete_todo, get_todo, process_request, update_todo};
pub use store::{Store, Todo};
pub use validate::{validate_todo_completed, validate_todo_title};

//! What an application usually needs.

pub use crate::extractors::Form;
pub use crate::extractors::Json;
pub use crate::extractors::Path;
pub use crate::extractors::Query;
pub use crate::extractors::State;
pub use crate::Error;
pub use crate::IntoRes;
pub use crate::Next;
pub use crate::Req;
pub use crate::Res;
pub use crate::Result;
pub use crate::Route;
pub use crate::Router;
pub use crate::RustApi;

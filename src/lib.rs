use vstd::prelude::*;

pub mod decode;
pub mod error;
pub mod laws;
pub mod line;
pub mod number;
pub mod reader;
pub mod record;
pub mod text;

pub use error::{Cause, Error, ErrorKind};
pub use line::Flag;
pub use reader::{Reader, RecordsIntoIter, RecordsIter};
pub use record::Record;

verus! {

} // verus!

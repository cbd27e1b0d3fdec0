//! Console output for a firmware-hosted application: the text encoding that
//! the firmware's output routine expects, the accessor that finds that routine
//! in the system table, and the call that hands the encoded text over.
pub mod output;
pub mod table;
pub mod text;

pub use output::write_text;
pub use table::{get_output_capability, SystemTable};
pub use text::{encode_text, EncodeError};

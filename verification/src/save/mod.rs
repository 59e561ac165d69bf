//! The save record and the bridge between it and a simulation.

pub mod bridge;
pub mod codec;
pub mod model;
pub mod round_trip;

pub use bridge::{apply_save_data, save_data_from_simulation, ApplyError};
pub use codec::{export_to_base64, import_from_base64, payload_text, CodecError};
pub use model::{SaveComponent, SaveData, SaveEntry, SaveRecord, SaveStore};

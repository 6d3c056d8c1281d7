//! A status line assembled from independently refreshed blocks, such as
//! `>>> VOLUME | BATTERY | CURRENT_TIME <<<`, where each block has its own
//! update cycle and may be evaluated on a worker.

pub mod bar;
pub mod block;
pub mod config;
pub mod laws;
pub mod producer;

pub use bar::{BarState, StatusBar};
pub use config::{clock_label, delimiter};
pub use block::{BlockState, StatusBlock};
pub use producer::{Constant, Producer};

pub mod text;
pub mod decimal;
pub mod storage;
pub mod timefmt;
pub mod util;
pub mod order;
pub mod ids;
pub mod analysis;
pub mod ui;
pub mod runtime;
pub mod options;
pub mod startup;

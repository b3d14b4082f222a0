//! What holds of streams and emitters taken together, whatever the tasks do in between.

pub mod context;
pub mod emissions;
pub mod histories;
pub mod requests;
pub mod sequence;
pub mod state;
pub mod values;
pub mod wakers;

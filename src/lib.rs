//! A gateway that runs batches of SQL statements and shapes what they return:
//! the columns and capped rows of the last statement, and its plans as text.
pub mod plan_text;
pub mod results;
pub mod session;
pub mod sequencer;

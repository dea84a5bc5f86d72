//! What the screens show of the records: labels, formatted amounts, and the
//! order and selection the user picked.

pub mod order;
pub mod rows;
pub mod lists;

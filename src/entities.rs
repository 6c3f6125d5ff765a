pub mod category;
pub mod expense_record;

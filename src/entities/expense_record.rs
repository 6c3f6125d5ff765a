use vstd::prelude::*;
use crate::amount::Amount;

verus! {

/// A stored transaction record. `category_id` is the external key of the
/// category it belongs to; `id` is the surrogate key that the store assigns.
#[derive(Debug)]
pub struct Model {
    pub id: i32,
    pub record_type: String,
    pub category_id: String,
    pub amount: Amount,
    pub note: Option<String>,
    pub created_at: i64,
    pub updated_at: i64,
}

impl Model {
    /// A copy of this row, field for field.
    pub fn duplicate(&self) -> (r: Model)
        ensures
            r == *self,
    {
        let note = match &self.note {
            Some(n) => Some(n.clone()),
            None => None,
        };
        Model {
            id: self.id,
            record_type: self.record_type.clone(),
            category_id: self.category_id.clone(),
            amount: self.amount,
            note,
            created_at: self.created_at,
            updated_at: self.updated_at,
        }
    }
}

} // verus!

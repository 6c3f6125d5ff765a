use vstd::prelude::*;

verus! {

/// A stored category. `category_id` is the external key chosen by the caller;
/// `id` is the surrogate key that the store assigns.
#[derive(Debug)]
pub struct Model {
    pub id: i32,
    pub category_id: String,
    pub name: String,
    pub icon: String,
    pub color: String,
    pub category_type: String,
    pub created_at: i64,
    pub updated_at: i64,
}

impl Model {
    /// A copy of this row, field for field.
    pub fn duplicate(&self) -> (r: Model)
        ensures
            r == *self,
    {
        Model {
            id: self.id,
            category_id: self.category_id.clone(),
            name: self.name.clone(),
            icon: self.icon.clone(),
            color: self.color.clone(),
            category_type: self.category_type.clone(),
            created_at: self.created_at,
            updated_at: self.updated_at,
        }
    }
}

} // verus!

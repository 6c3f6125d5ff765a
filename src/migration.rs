use vstd::prelude::*;

verus! {

/// Version that a store reaches once every migration has run.
pub const LATEST_VERSION: u32 = 2;

/// The schema of a store: the version marker that it keeps, and which of its
/// two tables exist.
#[derive(Clone, Copy, Debug, PartialEq, Eq, Structural)]
pub struct Schema {
    pub version: u32,
    pub categories_table: bool,
    pub records_table: bool,
}

impl Schema {
    /// The schema of a store that was just created: version 0, no table.
    pub fn absent() -> (r: Schema)
        ensures
            r == (Schema { version: 0, categories_table: false, records_table: false }),
    {
        Schema { version: 0, categories_table: false, records_table: false }
    }

    /// Every table that the version marker claims exists.
    pub open spec fn consistent(self) -> bool {
        &&& self.version >= 1 ==> self.categories_table
        &&& self.version >= 2 ==> self.records_table
    }

    /// The schema is current: both tables exist, at the latest version.
    pub open spec fn is_current(self) -> bool {
        self.version == LATEST_VERSION && self.categories_table && self.records_table
    }
}

/// One step of the schema's history.
#[derive(Clone, Copy, Debug, PartialEq, Eq, Structural)]
pub enum Migration {
    /// Creates the category table: surrogate id, unique external key, name,
    /// icon, color, kind and both timestamps, all required.
    CreateCategoriesTable,
    /// Creates the record table, whose category key refers to the category
    /// table's external key with cascade on update and on delete.
    CreateExpenseRecordsTable,
}

impl Migration {
    pub open spec fn version_spec(self) -> u32 {
        match self {
            Migration::CreateCategoriesTable => 1,
            Migration::CreateExpenseRecordsTable => 2,
        }
    }

    /// The version that the schema has once this step ran.
    pub fn version(&self) -> (r: u32)
        ensures
            r == self.version_spec(),
    {
        match self {
            Migration::CreateCategoriesTable => 1,
            Migration::CreateExpenseRecordsTable => 2,
        }
    }

    /// The name under which the step is recorded.
    pub fn name(&self) -> (r: String)
        ensures
            r@ == (match self {
                Migration::CreateCategoriesTable => "m20231212_000001_create_categories_table"@,
                Migration::CreateExpenseRecordsTable => "m20231212_000002_create_expense_records_table"@,
            }),
    {
        match self {
            Migration::CreateCategoriesTable => String::from_str("m20231212_000001_create_categories_table"),
            Migration::CreateExpenseRecordsTable => String::from_str("m20231212_000002_create_expense_records_table"),
        }
    }

    /// The forward step: creates its table if it does not exist yet.
    pub fn up(&self, schema: &mut Schema)
        ensures
            final(schema).version == old(schema).version,
            *self == Migration::CreateCategoriesTable ==> final(schema).categories_table
                && final(schema).records_table == old(schema).records_table,
            *self == Migration::CreateExpenseRecordsTable ==> final(schema).records_table
                && final(schema).categories_table == old(schema).categories_table,
    {
        match self {
            Migration::CreateCategoriesTable => schema.categories_table = true,
            Migration::CreateExpenseRecordsTable => schema.records_table = true,
        }
    }

    /// The backward step: drops its table.
    pub fn down(&self, schema: &mut Schema)
        ensures
            final(schema).version == old(schema).version,
            *self == Migration::CreateCategoriesTable ==> !final(schema).categories_table
                && final(schema).records_table == old(schema).records_table,
            *self == Migration::CreateExpenseRecordsTable ==> !final(schema).records_table
                && final(schema).categories_table == old(schema).categories_table,
    {
        match self {
            Migration::CreateCategoriesTable => schema.categories_table = false,
            Migration::CreateExpenseRecordsTable => schema.records_table = false,
        }
    }
}

/// The schema left by running, in order, every migration above the version
/// of `old`, each one setting the version marker to its own.
pub open spec fn migrated(old: Schema) -> Schema {
    if old.version >= LATEST_VERSION {
        old
    } else {
        Schema {
            version: LATEST_VERSION,
            categories_table: old.categories_table || old.version < 1,
            records_table: true,
        }
    }
}

/// Runs the schema's migrations.
pub struct Migrator;

impl Migrator {
    /// Every migration, in the order in which they apply.
    pub fn migrations() -> (r: Vec<Migration>)
        ensures
            r@ == seq![Migration::CreateCategoriesTable, Migration::CreateExpenseRecordsTable],
    {
        let mut v: Vec<Migration> = Vec::new();
        v.push(Migration::CreateCategoriesTable);
        v.push(Migration::CreateExpenseRecordsTable);
        v
    }

    /// Applies, in ascending order, every migration whose version is above the
    /// schema's, moving the version marker after each.
    pub fn up(schema: &mut Schema)
        ensures
            *final(schema) == migrated(*old(schema)),
    {
        let steps = Migrator::migrations();
        let ghost start = *schema;
        let mut i: usize = 0;
        while i < steps.len()
            invariant
                steps@ == seq![Migration::CreateCategoriesTable, Migration::CreateExpenseRecordsTable],
                i <= 2,
                start.version >= LATEST_VERSION ==> *schema == start,
                start.version < LATEST_VERSION ==> {
                    &&& schema.version == (if (i as int) <= start.version { start.version } else { i as u32 })
                    &&& schema.categories_table == (start.categories_table || (start.version < 1 && i >= 1))
                    &&& schema.records_table == (start.records_table || i >= 2)
                },
            decreases 2 - i,
        {
            let m = steps[i];
            let v = m.version();
            if v > schema.version {
                m.up(schema);
                schema.version = v;
            }
            i += 1;
        }
    }
}

} // verus!

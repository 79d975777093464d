//! Profiles are configurations that affect how an operation is applied.
//!
//! For instance, a `PublishProfile` decides how objects that exist only in the
//! target are handled when a `publish` operation runs.

use vstd::prelude::*;

verus! {

/// A named value substituted for `$(name)` in source text at publish time.
pub struct PackageParameter {
    pub name: String,
    pub value: String,
}

/// What to do with a destructive change.
#[derive(Clone, Copy, Debug, PartialEq, Eq, Structural)]
pub enum Toggle {
    /// Generate the drop step.
    Allow,
    /// Leave the object in place, silently.
    Ignore,
    /// Fail the delta and report the object.
    Error,
}

/// The policy knobs of a publish.
#[derive(Clone, Copy, Debug, PartialEq, Eq, Structural)]
pub struct GenerationOptions {
    /// If set to true, the database is always recreated.
    pub always_recreate_database: bool,
    /// Enum values are typically unsafe to delete. Default: Error.
    pub drop_enum_values: Toggle,
    /// Tables may hold data that is not meant to be deleted. Default: Error.
    pub drop_tables: Toggle,
    /// Columns may hold data that is not meant to be deleted. Default: Error.
    pub drop_columns: Toggle,
    /// Primary keys define how a table is looked up on disk. Default: Error.
    pub drop_primary_key_constraints: Toggle,
    /// Foreign keys define a constraint to another table. Default: Allow.
    pub drop_foreign_key_constraints: Toggle,
    /// Functions may not be meant to be deleted. Default: Error.
    pub drop_functions: Toggle,
    /// Indexes may not be meant to be deleted. Default: Allow.
    pub drop_indexes: Toggle,
    /// Index changes are made concurrently, to avoid locking table writes. Default: true.
    pub force_concurrent_indexes: bool,
}

/// A publish profile: a version, the generation options and the package parameters.
pub struct PublishProfile {
    pub version: String,
    pub generation_options: GenerationOptions,
    pub package_parameters: Vec<PackageParameter>,
}

/// The generation options of a profile that sets nothing.
pub open spec fn default_generation_options() -> GenerationOptions {
    GenerationOptions {
        always_recreate_database: false,
        drop_enum_values: Toggle::Error,
        drop_tables: Toggle::Error,
        drop_columns: Toggle::Error,
        drop_primary_key_constraints: Toggle::Error,
        drop_foreign_key_constraints: Toggle::Allow,
        drop_functions: Toggle::Error,
        drop_indexes: Toggle::Allow,
        force_concurrent_indexes: true,
    }
}

impl GenerationOptions {
    /// The defaults: every drop is an error but those of foreign keys and
    /// indexes, the database is not recreated, index builds are concurrent.
    pub fn new() -> (r: GenerationOptions)
        ensures
            r == default_generation_options(),
    {
        GenerationOptions {
            always_recreate_database: false,
            drop_enum_values: Toggle::Error,
            drop_tables: Toggle::Error,
            drop_columns: Toggle::Error,
            drop_primary_key_constraints: Toggle::Error,
            drop_foreign_key_constraints: Toggle::Allow,
            drop_functions: Toggle::Error,
            drop_indexes: Toggle::Allow,
            force_concurrent_indexes: true,
        }
    }
}

impl Default for PublishProfile {
    fn default() -> (r: PublishProfile)
        ensures
            r.version@ == "1.0"@,
            r.generation_options == default_generation_options(),
            r.package_parameters@.len() == 0,
    {
        PublishProfile {
            version: "1.0".to_owned(),
            package_parameters: Vec::new(),
            generation_options: GenerationOptions::new(),
        }
    }
}

/// What a drop policy makes of the objects that a diff would drop: `Allow`
/// keeps them all as drop steps, `Ignore` leaves them in place and drops
/// nothing, `Error` fails with every one of them listed, when there is any.
pub fn apply_drop_policy(policy: Toggle, drops: Vec<String>) -> (r: Result<Vec<String>, Vec<String>>)
    ensures
        drops@.len() == 0 ==> (r matches Ok(kept) && kept@.len() == 0),
        drops@.len() > 0 ==> match policy {
            Toggle::Allow => (r matches Ok(kept) && kept@ == drops@),
            Toggle::Ignore => (r matches Ok(kept) && kept@.len() == 0),
            Toggle::Error => (r matches Err(rejected) && rejected@ == drops@),
        },
{
    if drops.len() == 0 {
        return Ok(drops);
    }
    match policy {
        Toggle::Allow => Ok(drops),
        Toggle::Ignore => Ok(Vec::new()),
        Toggle::Error => Err(drops),
    }
}

} // verus!

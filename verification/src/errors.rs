//! The error taxonomy of the pipeline. Planning errors (unknown module,
//! dependency scheduled too late) are raised before anything runs; a
//! `RuntimeError` wraps the failure of one module and names it.

use vstd::prelude::*;
use vstd::string::StringExecFns;

verus! {

/// A planning failure: raised while validating the configured stages,
/// before any module runs.
#[derive(Debug)]
pub enum PlanError {
    /// The stage configuration names a module that is not registered.
    UnknownModule { name: String },
    /// A module's declared dependency is not scheduled in a strictly
    /// earlier stage.
    DependencyOrder { module: String, dependency: String },
}

impl PlanError {
    /// A human-readable account of the failure.
    pub fn describe(&self) -> (r: String)
        ensures
            match self {
                PlanError::UnknownModule { name } => r@ == "No module named "@ + name@,
                PlanError::DependencyOrder { module, dependency } => r@ == "Module "@ + module@
                    + " depends on "@ + dependency@ + " but it hasn't run. Please move "@
                    + dependency@ + " to an earlier stage."@,
            },
    {
        match self {
            PlanError::UnknownModule { name } => "No module named ".to_owned().concat(
                name.as_str(),
            ),
            PlanError::DependencyOrder { module, dependency } => "Module ".to_owned().concat(
                module.as_str(),
            ).concat(" depends on ").concat(dependency.as_str()).concat(
                " but it hasn't run. Please move ",
            ).concat(dependency.as_str()).concat(" to an earlier stage."),
        }
    }
}

/// A failure reported by one module's run function.
#[derive(Debug)]
pub enum ModuleError {
    /// The configuration has no settings section for this module.
    MissingSettings { module: String },
    /// A settings entry has the wrong shape for this module.
    BadSetting { module: String, key: String },
    /// A song lacks a field the module needs.
    MissingField { field: String },
    /// A song field holds a value of an unusable shape.
    WrongFieldType { field: String },
    /// A failure outside the documents: I/O, a subprocess, the network.
    External { message: String },
}

impl ModuleError {
    /// A human-readable account of the failure.
    pub fn describe(&self) -> (r: String)
        ensures
            match self {
                ModuleError::MissingSettings { module } => r@ == "Module "@ + module@
                    + " has no settings"@,
                ModuleError::BadSetting { module, key } => r@ == "Bad setting for module "@
                    + module@ + ": "@ + key@,
                ModuleError::MissingField { field } => r@ == "Song has no field '"@ + field@
                    + "' or field is empty"@,
                ModuleError::WrongFieldType { field } => r@ == "Invalid value type in field "@
                    + field@,
                ModuleError::External { message } => r@ == message@,
            },
    {
        match self {
            ModuleError::MissingSettings { module } => "Module ".to_owned().concat(
                module.as_str(),
            ).concat(" has no settings"),
            ModuleError::BadSetting { module, key } => "Bad setting for module ".to_owned().concat(
                module.as_str(),
            ).concat(": ").concat(key.as_str()),
            ModuleError::MissingField { field } => "Song has no field '".to_owned().concat(
                field.as_str(),
            ).concat("' or field is empty"),
            ModuleError::WrongFieldType { field } => "Invalid value type in field ".to_owned()
                .concat(field.as_str()),
            ModuleError::External { message } => message.clone(),
        }
    }

}

/// The failure of a pipeline run: the first failing module of the stage
/// that aborted the run, with what it reported.
#[derive(Debug)]
pub struct RuntimeError {
    pub module: String,
    pub cause: ModuleError,
}

} // verus!

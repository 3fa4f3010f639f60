//! Where configurations are kept, and the steps that removing one takes.

use vstd::prelude::*;
use vstd::string::StringExecFns;

verus! {

/// Where the schema of an application is kept, below the directory of the
/// application manager.
pub open spec fn spec_spec_path(name: Seq<char>) -> Seq<char> {
    "apps/"@ + name + "/config_spec.yaml"@
}

/// Where the rules of an application are kept, below the directory of the
/// application manager.
pub open spec fn spec_rules_path(name: Seq<char>) -> Seq<char> {
    "apps/"@ + name + "/config_rules.yaml"@
}

/// Where the configuration of an application is kept, below the directory
/// of the application manager.
pub open spec fn spec_config_path(name: Seq<char>) -> Seq<char> {
    "apps/"@ + name + "/config.yaml"@
}

/// Where the running application finds its configuration, given the
/// directory of the volumes.
pub open spec fn spec_replica_path(volumes: Seq<char>, name: Seq<char>) -> Seq<char> {
    volumes + "/"@ + name + "/start9/config.yaml"@
}

/// Where the schema of an application is kept.
pub fn spec_path(name: &str) -> (res: String)
    ensures
        res@ == spec_spec_path(name@),
{
    "apps/".to_owned().concat(name).concat("/config_spec.yaml")
}

/// Where the rules of an application are kept.
pub fn rules_path(name: &str) -> (res: String)
    ensures
        res@ == spec_rules_path(name@),
{
    "apps/".to_owned().concat(name).concat("/config_rules.yaml")
}

/// Where the configuration of an application is kept.
pub fn config_path(name: &str) -> (res: String)
    ensures
        res@ == spec_config_path(name@),
{
    "apps/".to_owned().concat(name).concat("/config.yaml")
}

/// Where the running application finds its configuration.
pub fn replica_path(volumes: &str, name: &str) -> (res: String)
    ensures
        res@ == spec_replica_path(volumes@, name@),
{
    volumes.to_owned().concat("/").concat(name).concat("/start9/config.yaml")
}

/// One thing to do in order to remove a configuration.
#[derive(Clone, Copy, Debug, PartialEq, Eq)]
pub enum RemovalStep {
    /// Delete the stored configuration.
    DeleteStored,
    /// Delete the copy that the running application sees.
    DeleteReplica,
    /// Mark the application as not configured.
    MarkUnconfigured,
}

/// What removing a configuration takes: each of the two files is deleted if
/// it is there, and then the application is marked as not configured.
pub open spec fn spec_removal(stored_exists: bool, replica_exists: bool) -> Seq<RemovalStep> {
    (if stored_exists {
        seq![RemovalStep::DeleteStored]
    } else {
        Seq::empty()
    }) + (if replica_exists {
        seq![RemovalStep::DeleteReplica]
    } else {
        Seq::empty()
    }) + seq![RemovalStep::MarkUnconfigured]
}

} // verus!

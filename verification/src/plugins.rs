//! The descriptions of processing-engine plugins and of their triggers.

use vstd::prelude::*;

verus! {

/// The error type of `serde_json`, which is carried through unread.
#[verifier::external_type_specification]
#[verifier::external_body]
pub struct ExJsonError(serde_json::Error);

/// What a plugin is run on.
#[derive(Debug, Eq, PartialEq, Clone, Copy, Structural)]
pub enum PluginType {
    /// The rows of a write to the write-ahead log.
    WalRows,
}

/// The name by which the plugin type for rows of the write-ahead log is
/// written.
pub open spec fn wal_rows_name() -> Seq<char> {
    "wal_rows"@
}

/// Makes the error of `serde_json` that carries `message`, through
/// `serde::de::Error::custom`. Nothing is claimed of the error.
#[verifier::external_body]
fn custom_json_error(message: &str) -> (error: serde_json::Error) {
    serde::de::Error::custom(message)
}

impl PluginType {
    /// Reads a plugin type from its name: `wal_rows` is the one name there
    /// is, and every other string is an error.
    pub fn try_from(s: String) -> (plugin_type: Result<PluginType, serde_json::Error>)
        ensures
            plugin_type is Ok <==> s@ == wal_rows_name(),
            plugin_type is Ok ==> plugin_type->Ok_0 == PluginType::WalRows,
    {
        let expected: String = "wal_rows".to_owned();
        if s == expected {
            Ok(PluginType::WalRows)
        } else {
            Err(custom_json_error("unexpected plugin type"))
        }
    }
}

/// A plugin: code that defines a function, and the name of that function.
#[derive(Debug, Eq, PartialEq, Clone)]
pub struct ProcessingEnginePlugin {
    pub plugin_name: String,
    pub code: String,
    pub function_name: String,
    pub plugin_type: PluginType,
}

impl ProcessingEnginePlugin {
    /// Makes the plugin `plugin_name`, whose `code` defines `function_name`.
    pub fn new(
        plugin_name: String,
        code: String,
        function_name: String,
        plugin_type: PluginType,
    ) -> (plugin: Self)
        ensures
            plugin.plugin_name == plugin_name,
            plugin.code == code,
            plugin.function_name == function_name,
            plugin.plugin_type == plugin_type,
    {
        Self { plugin_name, code, function_name, plugin_type }
    }
}

/// What sets a plugin off.
#[derive(Debug, Eq, PartialEq, Clone)]
pub enum TriggerSpecification {
    /// A write to the write-ahead log for one table.
    SingleTableWalWrite { table_name: String },
    /// A write to the write-ahead log for any table.
    AllTablesWalWrite,
}

/// A plugin together with what sets it off.
#[derive(Debug, Eq, PartialEq, Clone)]
pub struct ProcessingEngineTrigger {
    pub trigger_name: String,
    pub plugin: ProcessingEnginePlugin,
    pub trigger: TriggerSpecification,
}

/// When a trigger fires.
#[derive(Debug, Eq, PartialEq, Clone, Copy, Hash, Structural)]
pub enum TriggerType {
    /// When data is read.
    OnRead,
}

} // verus!

//! The plugin configuration: option names mapped to string values.
use std::collections::BTreeMap;
use vstd::prelude::*;

verus! {

/// The prefix used when the configuration does not set one.
pub const DEFAULT_PREFIX_TEXT: &'static str = "> ";

/// The name of the option that sets the prefix.
pub const PREFIX_OPTION: &'static str = "prefix";

/// The prefix that a configuration selects: its `prefix` option, else the default.
pub open spec fn configured_prefix(config: Map<Seq<char>, Seq<char>>) -> Seq<char> {
    if config.contains_key(PREFIX_OPTION@) {
        config[PREFIX_OPTION@]
    } else {
        DEFAULT_PREFIX_TEXT@
    }
}

/// Relies on `BTreeMap::get` for `String` keys looked up by `&str`: the value
/// stored under the key whose text equals `key`, if one is there. vstd states
/// `get` only for key types whose ordering it models, which `String` is not.
#[verifier::external_body]
fn config_value(config: &BTreeMap<String, String>, key: &str) -> (r: Option<String>)
    ensures
        match r {
            Some(v) => config.deep_view().contains_key(key@) && config.deep_view()[key@] == v@,
            None => !config.deep_view().contains_key(key@),
        },
{
    config.get(key).cloned()
}

/// Reads the prefix from the configuration, falling back to the default.
pub fn prefix_from_config(config: &BTreeMap<String, String>) -> (r: String)
    ensures
        r@ == configured_prefix(config.deep_view()),
{
    match config_value(config, PREFIX_OPTION) {
        Some(v) => v,
        None => String::from_str(DEFAULT_PREFIX_TEXT),
    }
}

} // verus!

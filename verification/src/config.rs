//! The settings store of a chat source, changed over HTTP, and what the
//! ingest loops read from it.
use vstd::prelude::*;

use crate::string_map::StringMap;

verus! {

broadcast use vstd::string::group_string_axioms;

/// The settings of a chat source, by name.
pub type Config = StringMap<String>;

/// A setting as the HTTP interface receives it.
pub struct ConfigItem {
    pub key: String,
    pub val: String,
}

/// Stores a setting, in place of any earlier value under its name.
pub fn add_config(item: ConfigItem, config: &mut Config)
    ensures
        final(config)@ == old(config)@.insert(item.key@, item.val),
{
    config.insert(item.key, item.val);
}

/// Removes a setting.
pub fn remove_config(key: &str, config: &mut Config)
    ensures
        final(config)@ == old(config)@.remove(key@),
{
    config.remove(key);
}

/// The name of the setting that names the stream to follow.
pub open spec fn stream_id_key() -> Seq<char> {
    "stream_id"@
}

/// The stream that an ingest loop connects to when it is notified: the
/// value of `stream_id`, if that setting is present.
pub fn stream_to_ingest(config: &Config) -> (res: Option<String>)
    ensures
        res matches Some(s) ==> config@.dom().contains(stream_id_key()) && s == config@[stream_id_key()],
        res is None ==> !config@.dom().contains(stream_id_key()),
{
    match config.get("stream_id") {
        Some(s) => Some(s.clone()),
        None => None,
    }
}

/// A setting that was just stored is read back as it was stored, and every
/// other setting reads as before.
pub proof fn law_read_after_add(before: Map<Seq<char>, String>, key: Seq<char>, val: String, other: Seq<char>)
    ensures
        before.insert(key, val).dom().contains(key),
        before.insert(key, val)[key] == val,
        other != key ==> (before.insert(key, val).dom().contains(other) == before.dom().contains(other)),
        other != key && before.dom().contains(other) ==> before.insert(key, val)[other] == before[other],
{
}

/// A setting that was just removed is absent, and every other setting
/// reads as before.
pub proof fn law_absent_after_remove(before: Map<Seq<char>, String>, key: Seq<char>, other: Seq<char>)
    ensures
        !before.remove(key).dom().contains(key),
        other != key ==> (before.remove(key).dom().contains(other) == before.dom().contains(other)),
        other != key && before.dom().contains(other) ==> before.remove(key)[other] == before[other],
{
}

} // verus!

//! The configuration model: an open key-value table of heterogeneous values
//! (the shape of a parsed configuration file), and the process `Config` that
//! selects a content source.
//!
//! Tables keep string keys in order; a lookup takes the first entry with the
//! key. Values the engine never reads (numbers, arrays, dates) are carried as
//! `Other`.

use vstd::prelude::*;

verus! {

use crate::strings::str_eq;

/// One value of an open configuration table.
pub enum ConfigValue {
    Str(String),
    Bool(bool),
    Table(ConfigTable),
    /// Any value shape the engine never reads.
    Other,
}

/// An open key-value table with string keys.
pub struct ConfigTable {
    pub entries: Vec<(String, ConfigValue)>,
}

/// The value of the first entry of `entries` whose key reads `key`.
pub open spec fn table_get(entries: Seq<(String, ConfigValue)>, key: Seq<char>) -> Option<
    ConfigValue,
>
    decreases entries.len(),
{
    if entries.len() == 0 {
        None
    } else if entries[0].0@ == key {
        Some(entries[0].1)
    } else {
        table_get(entries.drop_first(), key)
    }
}

/// The string value under `key`, if the table holds one of that type.
pub open spec fn table_str(entries: Seq<(String, ConfigValue)>, key: Seq<char>) -> Option<
    Seq<char>,
> {
    match table_get(entries, key) {
        Some(ConfigValue::Str(s)) => Some(s@),
        _ => None,
    }
}

/// The boolean value under `key`; `false` when absent or of another type.
pub open spec fn table_bool_or_false(entries: Seq<(String, ConfigValue)>, key: Seq<char>) -> bool {
    match table_get(entries, key) {
        Some(ConfigValue::Bool(b)) => b,
        _ => false,
    }
}

impl ConfigTable {
    pub fn new() -> (r: ConfigTable)
        ensures
            r.entries@.len() == 0,
    {
        ConfigTable { entries: Vec::new() }
    }

    /// Adds an entry at the end of the table.
    pub fn push(&mut self, key: String, value: ConfigValue)
        ensures
            final(self).entries@ == old(self).entries@.push((key, value)),
    {
        self.entries.push((key, value));
    }

    pub fn get<'a>(&'a self, key: &str) -> (r: Option<&'a ConfigValue>)
        ensures
            match r {
                Some(v) => table_get(self.entries@, key@) == Some(*v),
                None => table_get(self.entries@, key@) is None,
            },
    {
        let n = self.entries.len();
        proof {
            assert(self.entries@.subrange(0, n as int) =~= self.entries@);
        }
        let mut i: usize = 0;
        while i < n
            invariant
                i <= n,
                n == self.entries@.len(),
                table_get(self.entries@, key@) == table_get(
                    self.entries@.subrange(i as int, n as int),
                    key@,
                ),
            decreases n - i,
        {
            if str_eq(self.entries[i].0.as_str(), key) {
                return Some(&self.entries[i].1);
            }
            proof {
                let rest = self.entries@.subrange(i as int, n as int);
                assert(rest.drop_first() =~= self.entries@.subrange(i + 1, n as int));
            }
            i += 1;
        }
        None
    }

    /// The string value under `key`, if the table holds one of that type.
    pub fn get_str<'a>(&'a self, key: &str) -> (r: Option<&'a String>)
        ensures
            match r {
                Some(s) => table_str(self.entries@, key@) == Some(s@),
                None => table_str(self.entries@, key@) is None,
            },
    {
        match self.get(key) {
            Some(ConfigValue::Str(s)) => Some(s),
            _ => None,
        }
    }

    /// The boolean value under `key`; `false` when absent or of another type.
    pub fn get_bool_or_false(&self, key: &str) -> (r: bool)
        ensures
            r == table_bool_or_false(self.entries@, key@),
    {
        match self.get(key) {
            Some(ConfigValue::Bool(b)) => *b,
            _ => false,
        }
    }
}

/// A repository coordinate: hosting service, `owner/repo` name, and branch.
#[derive(Debug, Clone)]
pub struct RepoInfo {
    pub service: String,
    pub name: String,
    pub branch: String,
}

/// The content source: a mode name and its mode-dependent payload.
pub struct DataSource {
    pub mode: String,
    pub data: ConfigValue,
}

/// The process configuration, read-only after initialization.
pub struct Config {
    pub data_source: DataSource,
    pub repository: RepoInfo,
}

} // verus!

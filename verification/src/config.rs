//! Configuration values as plain name/value bindings.
//!
//! Loading the bindings from a file or from the environment happens
//! outside the library; the lookups here are verified against the first
//! binding of each name.

use vstd::prelude::*;

verus! {

pub struct ConfigEntry {
    pub name: String,
    pub value: String,
}

pub struct Configuration {
    pub entries: Vec<ConfigEntry>,
}

#[derive(Clone, Copy, Debug, PartialEq, Eq, Structural)]
pub enum ConfigError {
    /// The named value is not configured.
    Missing,
}

/// The value of the first binding of `name`, if any.
pub open spec fn spec_lookup(entries: Seq<ConfigEntry>, name: Seq<char>) -> Option<Seq<char>>
    decreases entries.len(),
{
    if entries.len() == 0 {
        None
    } else if entries[0].name@ == name {
        Some(entries[0].value@)
    } else {
        spec_lookup(entries.subrange(1, entries.len() as int), name)
    }
}

proof fn lemma_lookup_at(entries: Seq<ConfigEntry>, name: Seq<char>, i: int)
    requires
        0 <= i < entries.len(),
        entries[i].name@ == name,
        forall|j: int| 0 <= j < i ==> (#[trigger] entries[j]).name@ != name,
    ensures
        spec_lookup(entries, name) == Some(entries[i].value@),
    decreases entries.len(),
{
    if i > 0 {
        lemma_lookup_at(entries.subrange(1, entries.len() as int), name, i - 1);
    }
}

proof fn lemma_lookup_absent(entries: Seq<ConfigEntry>, name: Seq<char>)
    requires
        forall|j: int| 0 <= j < entries.len() ==> (#[trigger] entries[j]).name@ != name,
    ensures
        spec_lookup(entries, name) is None,
    decreases entries.len(),
{
    if entries.len() > 0 {
        lemma_lookup_absent(entries.subrange(1, entries.len() as int), name);
    }
}

impl Configuration {
    pub fn new() -> (r: Configuration)
        ensures
            r.entries@.len() == 0,
    {
        Configuration { entries: Vec::new() }
    }

    /// Adds a binding; earlier bindings of the same name keep priority.
    pub fn add(&mut self, name: String, value: String)
        ensures
            final(self).entries@ == old(self).entries@.push(ConfigEntry { name, value }),
    {
        self.entries.push(ConfigEntry { name, value });
    }

    /// The configured value of a name, if it has one.
    pub fn get_optional_value(&self, name: &str) -> (r: Option<String>)
        ensures
            match r {
                Some(v) => spec_lookup(self.entries@, name@) == Some(v@),
                None => spec_lookup(self.entries@, name@) is None,
            },
    {
        let target: String = name.to_owned();
        let mut i: usize = 0;
        while i < self.entries.len()
            invariant
                target@ == name@,
                0 <= i <= self.entries@.len(),
                forall|j: int| 0 <= j < i ==> (#[trigger] self.entries@[j]).name@ != name@,
            decreases self.entries@.len() - i,
        {
            if self.entries[i].name == target {
                proof {
                    lemma_lookup_at(self.entries@, name@, i as int);
                }
                return Some(self.entries[i].value.clone());
            }
            i = i + 1;
        }
        proof {
            lemma_lookup_absent(self.entries@, name@);
        }
        None
    }

    /// The configured value of a name, or an error naming it missing.
    pub fn get_value(&self, name: &str) -> (r: Result<String, ConfigError>)
        ensures
            match r {
                Ok(v) => spec_lookup(self.entries@, name@) == Some(v@),
                Err(_) => spec_lookup(self.entries@, name@) is None,
            },
    {
        match self.get_optional_value(name) {
            Some(v) => Ok(v),
            None => Err(ConfigError::Missing),
        }
    }
}

} // verus!

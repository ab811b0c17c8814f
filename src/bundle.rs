use vstd::prelude::*;
use crate::skin::assets::str_eq;

verus! {

/// App metadata from a bundle's `[app]` section.
#[derive(Debug)]
pub struct AppMeta {
    pub name: String,
    pub version: String,
    pub author: String,
}

/// Where a bundle keeps its skin, relative to the bundle root.
#[derive(Debug)]
pub struct SkinConfig {
    pub path: String,
}

/// A bundle's actions, each with the path of its script.
#[derive(Debug)]
pub struct AppConfigAdapter {
    pub meta_name: String,
    pub meta_version: String,
    action_scripts: Vec<(String, String)>,
}

/// The script registered for `name` among `entries`: the first entry's.
pub open spec fn script_for(entries: Seq<(String, String)>, name: Seq<char>) -> Option<Seq<char>>
    decreases entries.len(),
{
    if entries.len() == 0 {
        None
    } else if entries[0].0@ == name {
        Some(entries[0].1@)
    } else {
        script_for(entries.drop_first(), name)
    }
}

impl AppConfigAdapter {
    pub closed spec fn meta_spec(&self) -> (String, String) {
        (self.meta_name, self.meta_version)
    }

    pub closed spec fn entries(&self) -> Seq<(String, String)> {
        self.action_scripts@
    }

    /// An adapter over `(action, script path)` pairs.
    pub fn new(meta_name: String, meta_version: String, action_scripts: Vec<(String, String)>) -> (r: Self)
        ensures
            r.entries() == action_scripts@,
            r.meta_spec() == (meta_name, meta_version),
    {
        AppConfigAdapter { meta_name, meta_version, action_scripts }
    }

    /// The script path of an action.
    pub fn get_script(&self, action_name: &str) -> (r: Option<&str>)
        ensures
            match r {
                Some(p) => script_for(self.entries(), action_name@) == Some(p@),
                None => script_for(self.entries(), action_name@) is None,
            },
    {
        let n = self.action_scripts.len();
        let mut i: usize = 0;
        assert(self.action_scripts@.subrange(0, n as int) == self.action_scripts@);
        while i < n
            invariant
                0 <= i <= n,
                n == self.action_scripts@.len(),
                script_for(self.entries(), action_name@) == script_for(
                    self.action_scripts@.subrange(i as int, n as int),
                    action_name@,
                ),
            decreases n - i,
        {
            let ghost rest = self.action_scripts@.subrange(i as int, n as int);
            assert(rest.drop_first() == self.action_scripts@.subrange(i + 1, n as int));
            if str_eq(self.action_scripts[i].0.as_str(), action_name) {
                return Some(self.action_scripts[i].1.as_str());
            }
            i += 1;
        }
        None
    }

    /// Whether an action is registered.
    pub fn has_action(&self, action_name: &str) -> (r: bool)
        ensures
            r == script_for(self.entries(), action_name@) is Some,
    {
        self.get_script(action_name).is_some()
    }

    /// The registered actions, in registration order.
    pub fn action_names(&self) -> (r: Vec<String>)
        ensures
            r@.len() == self.entries().len(),
            forall|i: int| 0 <= i < r@.len() ==> #[trigger] r@[i]@ == self.entries()[i].0@,
    {
        let mut out: Vec<String> = Vec::new();
        let mut i: usize = 0;
        while i < self.action_scripts.len()
            invariant
                0 <= i <= self.action_scripts@.len(),
                out@.len() == i,
                forall|j: int| 0 <= j < i ==> #[trigger] out@[j]@ == self.action_scripts@[j].0@,
            decreases self.action_scripts@.len() - i,
        {
            out.push(self.action_scripts[i].0.clone());
            i += 1;
        }
        out
    }
}

} // verus!

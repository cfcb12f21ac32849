use vstd::prelude::*;

verus! {

/// The kind of place a pipeline runs in.
#[derive(Clone, Copy, Debug, PartialEq, Eq, Structural)]
pub enum EnvironmentKind {
    Local,
    Test,
    Staging,
    Production,
}

/// A named environment with free-form metadata.
#[derive(Clone, Debug)]
pub struct Environment {
    pub name: String,
    pub kind: EnvironmentKind,
    /// Metadata entries, in the order they were set.
    pub metadata: Vec<(String, String)>,
}

impl Environment {
    /// An environment with the given name and kind and no metadata.
    pub fn new(name: &str, kind: EnvironmentKind) -> (r: Environment)
        ensures
            r.name@ == name@,
            r.kind == kind,
            r.metadata@.len() == 0,
    {
        Environment { name: String::from_str(name), kind, metadata: Vec::new() }
    }
}

impl Default for Environment {
    /// The local environment, named `local`.
    fn default() -> (r: Environment)
        ensures
            r.name@ == seq!['l', 'o', 'c', 'a', 'l'],
            r.kind == EnvironmentKind::Local,
            r.metadata@.len() == 0,
    {
        proof {
            reveal_strlit("local");
        }
        Environment::new("local", EnvironmentKind::Local)
    }
}

} // verus!

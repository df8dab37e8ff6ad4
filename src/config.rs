use vstd::prelude::*;

verus! {

/// Settings of the archive of one judge.
#[derive(Clone, Debug, PartialEq, Eq)]
pub struct Service {
    pub repository_path: String,
    pub user_id: String,
    pub user_email: String,
}

/// The settings record.
#[derive(Clone, Debug, PartialEq, Eq)]
pub struct Config {
    pub atcoder: Service,
}

impl Service {
    /// Settings with every field empty, as a fresh settings file holds them.
    pub fn empty() -> (r: Service)
        ensures
            r.repository_path@.len() == 0,
            r.user_id@.len() == 0,
            r.user_email@.len() == 0,
    {
        Service { repository_path: String::new(), user_id: String::new(), user_email: String::new() }
    }
}

impl Config {
    /// A settings record with every field empty.
    pub fn empty() -> (r: Config)
        ensures
            r.atcoder.repository_path@.len() == 0,
            r.atcoder.user_id@.len() == 0,
            r.atcoder.user_email@.len() == 0,
    {
        Config { atcoder: Service::empty() }
    }
}

} // verus!

//! The settings of the document database that holds the secrets.

use vstd::prelude::*;

verus! {

/// Where the document database is and how to connect to it.
#[derive(Debug)]
pub struct DbConfig {
    pub host: String,
    pub port: u16,
    pub dbname: String,
    pub username: Option<String>,
    pub password: Option<String>,
    pub pool_size: u32,
}

impl DbConfig {
    /// The user name and password to connect with. A connection is
    /// authenticated only where both are set.
    pub fn credentials(&self) -> (r: Option<(&str, &str)>)
        ensures
            match r {
                Some((username, password)) => self.username is Some && self.password is Some
                    && username@ == self.username->0@ && password@ == self.password->0@,
                None => self.username is None || self.password is None,
            },
    {
        match (&self.username, &self.password) {
            (Some(username), Some(password)) => Some((username.as_str(), password.as_str())),
            _ => None,
        }
    }
}

} // verus!

//! The configuration of the service.

use vstd::prelude::*;

verus! {

/// Where the store is reached, and the secret that tokens are signed with.
#[allow(non_snake_case)]
#[derive(Debug)]
pub struct Config {
    pub DATABASE_URL: String,
    pub JWT_SECRET: String,
}

/// The configuration made of the two values.
pub fn config(database_url: String, jwt_secret: String) -> (c: Config)
    ensures
        c.DATABASE_URL == database_url,
        c.JWT_SECRET == jwt_secret,
{
    Config { DATABASE_URL: database_url, JWT_SECRET: jwt_secret }
}

} // verus!

use vstd::prelude::*;

use crate::errors::StartupError;
use crate::text::push_char;

verus! {

/// The credentials and connection parameters, read once at startup and
/// immutable afterwards.
#[derive(Debug, PartialEq, Eq)]
pub struct Config {
    pub api_key: String,
    pub api_secret: String,
    pub postgres_password: String,
    pub postgres_user: String,
    pub postgres_host: String,
    pub postgres_dbname: String,
}

/// The value an optional setting falls back to.
pub open spec fn or_default(v: Option<String>, d: Seq<char>) -> Seq<char> {
    match v {
        Some(s) => s@,
        None => d,
    }
}

/// Builds the configuration from the environment's values: the API key and
/// secret are required and their absence is the one fatal error; the
/// database settings fall back to their defaults.
pub fn build_config(
    api_key: Option<String>,
    api_secret: Option<String>,
    postgres_password: Option<String>,
    postgres_user: Option<String>,
    postgres_host: Option<String>,
    postgres_dbname: Option<String>,
) -> (r: Result<Config, StartupError>)
    ensures
        r is Ok <==> (api_key is Some && api_secret is Some),
        r is Err ==> r == Err::<Config, StartupError>(StartupError::MissingCredential),
        r matches Ok(c) ==> {
            &&& Some(c.api_key) == api_key
            &&& Some(c.api_secret) == api_secret
            &&& c.postgres_password@ == or_default(postgres_password, "postgres"@)
            &&& c.postgres_user@ == or_default(postgres_user, "postgres"@)
            &&& c.postgres_host@ == or_default(postgres_host, "home-temp-database-1"@)
            &&& c.postgres_dbname@ == or_default(postgres_dbname, "home-temp"@)
        },
{
    let key = match api_key {
        Some(k) => k,
        None => {
            return Err(StartupError::MissingCredential);
        },
    };
    let secret = match api_secret {
        Some(s) => s,
        None => {
            return Err(StartupError::MissingCredential);
        },
    };
    let password = match postgres_password {
        Some(s) => s,
        None => String::from_str("postgres"),
    };
    let user = match postgres_user {
        Some(s) => s,
        None => String::from_str("postgres"),
    };
    let host = match postgres_host {
        Some(s) => s,
        None => String::from_str("home-temp-database-1"),
    };
    let dbname = match postgres_dbname {
        Some(s) => s,
        None => String::from_str("home-temp"),
    };
    Ok(
        Config {
            api_key: key,
            api_secret: secret,
            postgres_password: password,
            postgres_user: user,
            postgres_host: host,
            postgres_dbname: dbname,
        },
    )
}

impl Config {
    /// The connection string the database client is opened with:
    /// `host=<host> user=<user> password=<password> dbname=<dbname>`.
    pub fn connection_string(&self) -> (r: String)
        ensures
            r@ == "host="@ + self.postgres_host@ + " user="@ + self.postgres_user@
                + " password="@ + self.postgres_password@ + " dbname="@
                + self.postgres_dbname@,
    {
        let mut r = String::from_str("host=");
        r.append(self.postgres_host.as_str());
        r.append(" user=");
        r.append(self.postgres_user.as_str());
        r.append(" password=");
        r.append(self.postgres_password.as_str());
        r.append(" dbname=");
        r.append(self.postgres_dbname.as_str());
        r
    }
}

} // verus!

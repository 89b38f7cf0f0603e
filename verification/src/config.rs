//! The process configuration: where the store is, where funds go, and the
//! secret from which wallet keys are derived.

use crate::error::{config_error, AppError};
use vstd::prelude::*;
use vstd::string::StringExecFns;

verus! {

/// Configuration settings of the sweeper.
#[derive(Debug, PartialEq, Eq)]
pub struct AppConfig {
    /// The connection string of the relational store.
    pub database_url: String,
    /// The address that swept funds are sent to.
    pub master_wallet_address: String,
    /// The hex-encoded secret from which signing keys are derived.
    pub wallet_generation_secret: String,
}

/// The text of the error for a setting that is missing.
pub open spec fn missing_setting(name: Seq<char>, why: Seq<char>) -> Seq<char> {
    name + " not set: "@ + why
}

impl AppConfig {
    /// Builds the configuration from the three settings as they were read, each
    /// either its value or the reason why it could not be read. The first
    /// setting that is missing, in the order of the fields, decides the error.
    pub fn from_values(
        database_url: Result<String, String>,
        master_wallet_address: Result<String, String>,
        wallet_generation_secret: Result<String, String>,
    ) -> (r: Result<AppConfig, AppError>)
        ensures
            match (database_url, master_wallet_address, wallet_generation_secret) {
                (Err(why), _, _) => r matches Err(e) && e@ == config_error(
                    missing_setting("DATABASE_URL"@, why@),
                ),
                (Ok(_), Err(why), _) => r matches Err(e) && e@ == config_error(
                    missing_setting("MASTER_WALLET_ADDRESS"@, why@),
                ),
                (Ok(_), Ok(_), Err(why)) => r matches Err(e) && e@ == config_error(
                    missing_setting("WALLET_GENERATION_SECRET"@, why@),
                ),
                (Ok(d), Ok(m), Ok(s)) => r == Ok::<AppConfig, AppError>(
                    AppConfig {
                        database_url: d,
                        master_wallet_address: m,
                        wallet_generation_secret: s,
                    },
                ),
            },
    {
        let database_url = match database_url {
            Ok(v) => v,
            Err(why) => {
                return Err(missing("DATABASE_URL", why.as_str()));
            },
        };
        let master_wallet_address = match master_wallet_address {
            Ok(v) => v,
            Err(why) => {
                return Err(missing("MASTER_WALLET_ADDRESS", why.as_str()));
            },
        };
        let wallet_generation_secret = match wallet_generation_secret {
            Ok(v) => v,
            Err(why) => {
                return Err(missing("WALLET_GENERATION_SECRET", why.as_str()));
            },
        };
        Ok(AppConfig { database_url, master_wallet_address, wallet_generation_secret })
    }
}

/// The configuration error for the setting `name`, missing for the reason `why`.
fn missing(name: &str, why: &str) -> (e: AppError)
    ensures
        e@ == config_error(missing_setting(name@, why@)),
{
    let text = String::from_str(name).concat(" not set: ").concat(why);
    AppError::ConfigError(text)
}

} // verus!

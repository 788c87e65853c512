//! What has to be configured before anything can run.

use vstd::prelude::*;
use vstd::string::StringExecFns;

verus! {

/// A configuration that cannot be used.
#[derive(Debug, PartialEq)]
pub enum ConfigError {
    /// The schedule expression was refused; the text says why.
    BadSchedule(String),
    /// The address of the remote source is not set.
    MissingUrl,
    /// The token for the remote source is not set.
    MissingToken,
}

/// The model of a [`ConfigError`].
pub enum ConfigErrorView {
    BadSchedule(Seq<char>),
    MissingUrl,
    MissingToken,
}

impl View for ConfigError {
    type V = ConfigErrorView;

    open spec fn view(&self) -> ConfigErrorView {
        match self {
            ConfigError::BadSchedule(why) => ConfigErrorView::BadSchedule(why@),
            ConfigError::MissingUrl => ConfigErrorView::MissingUrl,
            ConfigError::MissingToken => ConfigErrorView::MissingToken,
        }
    }
}

impl ConfigErrorView {
    /// The message shown for the error.
    pub open spec fn message(self) -> Seq<char> {
        match self {
            ConfigErrorView::BadSchedule(why) => "解析cron表达式失败:"@ + why,
            ConfigErrorView::MissingUrl => "WPS_URL must be set in .env file"@,
            ConfigErrorView::MissingToken => "Airscript-Token must be set in .env file"@,
        }
    }
}

impl ConfigError {
    /// The message shown for the error.
    pub fn message(&self) -> (m: String)
        ensures
            m@ == self@.message(),
    {
        match self {
            ConfigError::BadSchedule(why) => String::from_str("解析cron表达式失败:").concat(
                why.as_str(),
            ),
            ConfigError::MissingUrl => String::from_str("WPS_URL must be set in .env file"),
            ConfigError::MissingToken => String::from_str(
                "Airscript-Token must be set in .env file",
            ),
        }
    }
}

/// How the remote source is reached.
#[derive(Debug, PartialEq)]
pub struct RemoteConfig {
    /// The address that requests are posted to.
    pub url: String,
    /// The token that goes with every request.
    pub token: String,
}

/// One header of a request: its name and its value.
#[derive(Debug, PartialEq)]
pub struct Header {
    pub name: String,
    pub value: String,
}

impl RemoteConfig {
    /// Checks that both settings are there. The address is looked at first.
    pub fn new(url: Option<String>, token: Option<String>) -> (r: Result<RemoteConfig, ConfigError>)
        ensures
            match r {
                Ok(config) => url == Some(config.url) && token == Some(config.token),
                Err(e) => if url is None {
                    e@ == ConfigErrorView::MissingUrl
                } else {
                    token is None && e@ == ConfigErrorView::MissingToken
                },
            },
    {
        match url {
            None => Err(ConfigError::MissingUrl),
            Some(url) => match token {
                None => Err(ConfigError::MissingToken),
                Some(token) => Ok(RemoteConfig { url, token }),
            },
        }
    }

    /// The headers of every request to the remote source: the token, and
    /// the kind of the body.
    pub fn headers(&self) -> (hs: Vec<Header>)
        ensures
            hs@.len() == 2,
            hs@[0].name@ == "Airscript-Token"@,
            hs@[0].value@ == self.token@,
            hs@[1].name@ == "Content-Type"@,
            hs@[1].value@ == "application/json"@,
    {
        let mut hs: Vec<Header> = Vec::new();
        hs.push(Header { name: String::from_str("Airscript-Token"), value: self.token.clone() });
        hs.push(
            Header {
                name: String::from_str("Content-Type"),
                value: String::from_str("application/json"),
            },
        );
        hs
    }
}

} // verus!

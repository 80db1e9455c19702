//! The decisions taken when a watch starts: which configuration file to
//! read, and which reporters to run.

use vstd::prelude::*;
use crate::config::{opt_view, AppSettings};

verus! {

/// The configuration file read when none is named and it exists.
pub open spec fn default_config_name() -> Seq<char> {
    "config.toml"@
}

/// The configuration file to read: the one named on the command line, else
/// `config.toml` where `default_present` says it exists, else none.
pub fn config_to_load(explicit: Option<String>, default_present: bool) -> (r: Option<String>)
    ensures
        opt_view(r) == match explicit {
            Some(p) => Some(p@),
            None => if default_present {
                Some(default_config_name())
            } else {
                None
            },
        },
        explicit is None && default_present ==> opt_view(r) == Some("config.toml"@),
{
    match explicit {
        Some(p) => Some(p),
        None => if default_present {
            Some(String::from_str("config.toml"))
        } else {
            None
        },
    }
}

/// Where webhook posts go, and their configured timeout.
#[derive(Debug)]
pub struct WebhookTarget {
    pub url: String,
    pub timeout_sec: Option<u64>,
}

/// The reporters of a watch: the console always, with or without colours;
/// a log file and a webhook where the settings name them.
#[derive(Debug)]
pub struct ReporterPlan {
    pub no_color: bool,
    pub log_file: Option<String>,
    pub webhook: Option<WebhookTarget>,
}

/// The reporters that `settings` ask for.
pub fn plan_reporters(settings: &AppSettings) -> (r: ReporterPlan)
    ensures
        r.no_color == settings.no_color,
        opt_view(r.log_file) == opt_view(settings.output_file),
        match settings.webhook_url {
            Some(u) => r.webhook matches Some(w) && w.url@ == u@ && w.timeout_sec
                == settings.webhook_timeout_sec,
            None => r.webhook is None,
        },
{
    let log_file = match &settings.output_file {
        Some(f) => Some(f.clone()),
        None => None,
    };
    let webhook = match &settings.webhook_url {
        Some(u) => Some(WebhookTarget { url: u.clone(), timeout_sec: settings.webhook_timeout_sec }),
        None => None,
    };
    ReporterPlan { no_color: settings.no_color, log_file, webhook }
}

} // verus!

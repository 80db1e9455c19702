//! Settings: the command-line arguments, the configuration file, and the
//! settings that result from merging the two, the command line first.

use vstd::prelude::*;
use crate::cli::Cli;
use crate::text::{comma_list, is_space, lemma_comma_list_entries_clean, parse_comma_list, views};

verus! {

/// The contents of a configuration file; every entry may be absent.
#[derive(Debug)]
pub struct FileConfig {
    pub watch_path: Option<String>,
    pub recursive: Option<bool>,
    pub debounce_ms: Option<u64>,
    pub filters: Option<Vec<String>>,
    pub pattern: Option<String>,
    pub output: Option<OutputConfig>,
    pub webhook: Option<WebhookConfig>,
}

/// The `[output]` section of a configuration file.
#[derive(Debug)]
pub struct OutputConfig {
    pub file: String,
}

/// The `[webhook]` section of a configuration file.
#[derive(Debug)]
pub struct WebhookConfig {
    pub url: String,
    pub timeout_sec: Option<u64>,
}

impl Default for FileConfig {
    /// A configuration with every entry absent.
    fn default() -> (r: FileConfig)
        ensures
            r.watch_path is None,
            r.recursive is None,
            r.debounce_ms is None,
            r.filters is None,
            r.pattern is None,
            r.output is None,
            r.webhook is None,
    {
        FileConfig {
            watch_path: None,
            recursive: None,
            debounce_ms: None,
            filters: None,
            pattern: None,
            output: None,
            webhook: None,
        }
    }
}

/// The settings of a watch, after merging.
#[derive(Debug)]
pub struct AppSettings {
    pub watch_path: String,
    pub recursive: bool,
    pub filters: Vec<String>,
    pub pattern: Option<String>,
    pub output_file: Option<String>,
    pub webhook_url: Option<String>,
    pub webhook_timeout_sec: Option<u64>,
    pub debounce_ms: u64,
    pub no_color: bool,
}

/// The settings of a watch, as plain values.
pub struct SettingsView {
    pub watch_path: Seq<char>,
    pub recursive: bool,
    pub filters: Seq<Seq<char>>,
    pub pattern: Option<Seq<char>>,
    pub output_file: Option<Seq<char>>,
    pub webhook_url: Option<Seq<char>>,
    pub webhook_timeout_sec: Option<u64>,
    pub debounce_ms: u64,
    pub no_color: bool,
}

/// The text of an optional string.
pub open spec fn opt_view(o: Option<String>) -> Option<Seq<char>> {
    match o {
        Some(s) => Some(s@),
        None => None,
    }
}

/// `a` where present, else `b`.
pub open spec fn first_of<T>(a: Option<T>, b: Option<T>) -> Option<T> {
    match a {
        Some(x) => Some(x),
        None => b,
    }
}

impl View for AppSettings {
    type V = SettingsView;

    open spec fn view(&self) -> SettingsView {
        SettingsView {
            watch_path: self.watch_path@,
            recursive: self.recursive,
            filters: views(self.filters@),
            pattern: opt_view(self.pattern),
            output_file: opt_view(self.output_file),
            webhook_url: opt_view(self.webhook_url),
            webhook_timeout_sec: self.webhook_timeout_sec,
            debounce_ms: self.debounce_ms,
            no_color: self.no_color,
        }
    }
}

/// The debounce interval when neither source gives one, in milliseconds.
pub open spec fn default_debounce_ms() -> u64 {
    200
}

/// The settings that `cli` and the optional configuration `fc` give
/// together. Where both give a value, the command line's wins; where
/// neither does, the default applies: the current directory `.`, no
/// recursion (which either source can switch on), every extension, no
/// pattern, no log file, no webhook, and a debounce of 200 ms.
pub open spec fn merge_spec(cli: Cli, fc: Option<FileConfig>) -> SettingsView {
    let file_watch_path = match fc {
        Some(c) => opt_view(c.watch_path),
        None => None,
    };
    let file_recursive = match fc {
        Some(c) => c.recursive == Some(true),
        None => false,
    };
    let file_filters = match fc {
        Some(c) => match c.filters {
            Some(v) => views(v@),
            None => Seq::<Seq<char>>::empty(),
        },
        None => Seq::<Seq<char>>::empty(),
    };
    let file_pattern = match fc {
        Some(c) => opt_view(c.pattern),
        None => None,
    };
    let file_output = match fc {
        Some(c) => match c.output {
            Some(o) => Some(o.file@),
            None => None,
        },
        None => None,
    };
    let file_webhook_url = match fc {
        Some(c) => match c.webhook {
            Some(w) => Some(w.url@),
            None => None,
        },
        None => None,
    };
    let file_webhook_timeout = match fc {
        Some(c) => match c.webhook {
            Some(w) => w.timeout_sec,
            None => None,
        },
        None => None,
    };
    let file_debounce = match fc {
        Some(c) => c.debounce_ms,
        None => None,
    };
    SettingsView {
        watch_path: match first_of(opt_view(cli.path), file_watch_path) {
            Some(p) => p,
            None => "."@,
        },
        recursive: cli.recursive || file_recursive,
        filters: match cli.filter {
            Some(f) => comma_list(f@),
            None => file_filters,
        },
        pattern: first_of(opt_view(cli.pattern), file_pattern),
        output_file: first_of(opt_view(cli.output), file_output),
        webhook_url: first_of(opt_view(cli.webhook), file_webhook_url),
        webhook_timeout_sec: file_webhook_timeout,
        debounce_ms: match first_of(cli.debounce, file_debounce) {
            Some(d) => d,
            None => default_debounce_ms(),
        },
        no_color: cli.no_color,
    }
}

impl AppSettings {
    /// Merges the command-line arguments with the configuration file, if
    /// any; the command line always wins.
    pub fn merge(cli: Cli, file_config: Option<FileConfig>) -> (r: AppSettings)
        ensures
            r@ == merge_spec(cli, file_config),
            r.recursive == (cli.recursive || (file_config is Some && file_config->0.recursive
                == Some(true))),
    {
        let ghost fc0 = file_config;
        let config = match file_config {
            Some(c) => c,
            None => FileConfig::default(),
        };
        let watch_path = match cli.path {
            Some(p) => p,
            None => match config.watch_path {
                Some(p) => p,
                None => String::from_str("."),
            },
        };
        let recursive = cli.recursive || match config.recursive {
            Some(b) => b,
            None => false,
        };
        let filters = match &cli.filter {
            Some(f) => parse_comma_list(f.as_str()),
            None => match config.filters {
                Some(v) => v,
                None => Vec::new(),
            },
        };
        let pattern = match cli.pattern {
            Some(p) => Some(p),
            None => config.pattern,
        };
        let output_file = match cli.output {
            Some(o) => Some(o),
            None => match config.output {
                Some(o) => Some(o.file),
                None => None,
            },
        };
        let webhook_url = match cli.webhook {
            Some(w) => Some(w),
            None => match &config.webhook {
                Some(w) => Some(w.url.clone()),
                None => None,
            },
        };
        let webhook_timeout_sec = match config.webhook {
            Some(w) => w.timeout_sec,
            None => None,
        };
        let debounce_ms = match cli.debounce {
            Some(d) => d,
            None => match config.debounce_ms {
                Some(d) => d,
                None => 200,
            },
        };
        let r = AppSettings {
            watch_path,
            recursive,
            filters,
            pattern,
            output_file,
            webhook_url,
            webhook_timeout_sec,
            debounce_ms,
            no_color: cli.no_color,
        };
        proof {
            let m = merge_spec(cli, fc0);
            assert(r@.filters == m.filters);
            assert(r@.watch_path == m.watch_path);
            lemma_merge_field_by_field(cli, fc0);
        }
        r
    }
}

/// Each merged setting, field by field, from the two sources: the command
/// line's value where it gives one, else the file's, else the default.
/// Recursion is on exactly where the command line asks for it or the file
/// says `recursive = true`; a file whose entry is absent or false leaves it
/// off. The webhook timeout comes from the file alone, the colour switch
/// from the command line alone.
pub proof fn lemma_merge_field_by_field(cli: Cli, fc: Option<FileConfig>)
    ensures
        merge_spec(cli, fc).recursive == (cli.recursive || (fc is Some && fc->0.recursive == Some(
            true,
        ))),
        merge_spec(cli, fc).watch_path == if cli.path is Some {
            cli.path->0@
        } else if fc is Some && fc->0.watch_path is Some {
            fc->0.watch_path->0@
        } else {
            "."@
        },
        merge_spec(cli, fc).filters == if cli.filter is Some {
            comma_list(cli.filter->0@)
        } else if fc is Some && fc->0.filters is Some {
            views(fc->0.filters->0@)
        } else {
            Seq::<Seq<char>>::empty()
        },
        merge_spec(cli, fc).pattern == if cli.pattern is Some {
            Some(cli.pattern->0@)
        } else if fc is Some && fc->0.pattern is Some {
            Some(fc->0.pattern->0@)
        } else {
            None
        },
        merge_spec(cli, fc).output_file == if cli.output is Some {
            Some(cli.output->0@)
        } else if fc is Some && fc->0.output is Some {
            Some(fc->0.output->0.file@)
        } else {
            None
        },
        merge_spec(cli, fc).webhook_url == if cli.webhook is Some {
            Some(cli.webhook->0@)
        } else if fc is Some && fc->0.webhook is Some {
            Some(fc->0.webhook->0.url@)
        } else {
            None
        },
        merge_spec(cli, fc).webhook_timeout_sec == if fc is Some && fc->0.webhook is Some {
            fc->0.webhook->0.timeout_sec
        } else {
            None
        },
        merge_spec(cli, fc).debounce_ms == if cli.debounce is Some {
            cli.debounce->0
        } else if fc is Some && fc->0.debounce_ms is Some {
            fc->0.debounce_ms->0
        } else {
            200
        },
        merge_spec(cli, fc).no_color == cli.no_color,
{
}

/// The command line always wins: each setting that it gives is the merged
/// setting, whatever the configuration file says.
pub proof fn lemma_command_line_wins(cli: Cli, fc: Option<FileConfig>)
    ensures
        cli.path matches Some(p) ==> merge_spec(cli, fc).watch_path == p@,
        cli.filter matches Some(f) ==> merge_spec(cli, fc).filters == comma_list(f@),
        cli.pattern matches Some(p) ==> merge_spec(cli, fc).pattern == Some(p@),
        cli.output matches Some(o) ==> merge_spec(cli, fc).output_file == Some(o@),
        cli.webhook matches Some(w) ==> merge_spec(cli, fc).webhook_url == Some(w@),
        cli.debounce matches Some(d) ==> merge_spec(cli, fc).debounce_ms == d,
        cli.recursive ==> merge_spec(cli, fc).recursive,
        merge_spec(cli, fc).no_color == cli.no_color,
{
}

/// The configuration file fills what the command line leaves open.
pub proof fn lemma_file_fills_gaps(cli: Cli, c: FileConfig)
    ensures
        (cli.path is None && c.watch_path is Some) ==> merge_spec(cli, Some(c)).watch_path
            == c.watch_path->0@,
        cli.filter is None ==> merge_spec(cli, Some(c)).filters == match c.filters {
            Some(v) => views(v@),
            None => Seq::<Seq<char>>::empty(),
        },
        cli.pattern is None ==> merge_spec(cli, Some(c)).pattern == opt_view(c.pattern),
        (cli.output is None && c.output is Some) ==> merge_spec(cli, Some(c)).output_file
            == Some(c.output->0.file@),
        (cli.webhook is None && c.webhook is Some) ==> merge_spec(cli, Some(c)).webhook_url
            == Some(c.webhook->0.url@),
        (cli.debounce is None && c.debounce_ms is Some) ==> merge_spec(cli, Some(c)).debounce_ms
            == c.debounce_ms->0,
        c.recursive == Some(true) ==> merge_spec(cli, Some(c)).recursive,
        merge_spec(cli, Some(c)).webhook_timeout_sec == match c.webhook {
            Some(w) => w.timeout_sec,
            None => None,
        },
{
}

/// Without a configuration file, what the command line leaves open takes
/// its default: the current directory, no recursion, every extension, no
/// pattern, no log file, no webhook, and a debounce of 200 ms.
pub proof fn lemma_defaults_without_file(cli: Cli)
    ensures
        cli.path is None ==> merge_spec(cli, None).watch_path == "."@,
        merge_spec(cli, None).recursive == cli.recursive,
        cli.filter is None ==> merge_spec(cli, None).filters.len() == 0,
        cli.pattern is None ==> merge_spec(cli, None).pattern is None,
        cli.output is None ==> merge_spec(cli, None).output_file is None,
        cli.webhook is None ==> merge_spec(cli, None).webhook_url is None,
        merge_spec(cli, None).webhook_timeout_sec is None,
        cli.debounce is None ==> merge_spec(cli, None).debounce_ms == 200,
{
}

/// Extensions given on the command line come out non-empty and without
/// surrounding white space.
pub proof fn lemma_command_line_filters_clean(cli: Cli, fc: Option<FileConfig>)
    requires
        cli.filter is Some,
    ensures
        forall|i: int|
            0 <= i < merge_spec(cli, fc).filters.len() ==> {
                let e = #[trigger] merge_spec(cli, fc).filters[i];
                &&& e.len() > 0
                &&& !is_space(e[0])
                &&& !is_space(e.last())
            },
{
    lemma_comma_list_entries_clean(cli.filter->0@);
}

} // verus!

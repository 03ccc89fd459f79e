//! The settings of the exporter.
use crate::metrics::{
    law_state_shown, option_text, BaseMetrics, ContainerInfo, LogMetrics, Metrics, MetricsView,
};
use crate::pattern::{compiled_regex, pattern_refusal, regex_outcomes};
use crate::text::{ascii_lowercase, lowercase, lowercase_text, same_text};
use regex::Regex;
use vstd::hash_map::StringHashMap;
use vstd::prelude::*;

verus! {

broadcast use vstd::string::group_string_axioms;

/// Whether a setting is switched on: whether it is `true` in any case.
pub open spec fn switched_on(value: Option<Seq<char>>) -> bool {
    match value {
        Some(text) => lowercase_text(text) == "true"@,
        None => false,
    }
}

/// Whether an ASCII text spells `true`, in any case.
pub open spec fn spells_true(text: Seq<char>) -> bool {
    text.map_values(|c: char| ascii_lowercase(c)) == "true"@
}

/// The pattern for custom log lines.
pub open spec fn query_text(query: Option<Seq<char>>) -> Seq<char> {
    match query {
        Some(text) => text,
        None => "(err|error|ERR|ERROR)"@,
    }
}

/// The state of an exporter that has not been asked for a report yet.
pub open spec fn initial_state(
    get_log_metrics: bool,
    get_log_custom_metrics: bool,
    log_regex: Option<Regex>,
) -> MetricsView {
    MetricsView {
        containers_up: 0,
        containers_down: 0,
        ids: Seq::empty(),
        info: Map::empty(),
        base_metrics: Map::empty(),
        get_log_metrics,
        get_log_custom_metrics,
        log_regex,
        log_metrics: Map::empty(),
        inspect_metrics: Map::empty(),
    }
}

/// The settings cannot be used.
#[derive(Debug)]
pub enum ConfigError {
    /// The pattern for custom log lines is no regular expression.
    InvalidQuery(regex::Error),
}

/// Whether a lowercase setting is switched on.
pub fn is_true(lowered: &str) -> (on: bool)
    ensures
        on == (lowered@ == "true"@),
{
    same_text(lowered, "true")
}

/// Whether a setting is switched on.
pub fn parse_switch(value: &Option<String>) -> (on: bool)
    ensures
        on == switched_on(option_text(*value)),
        value matches Some(text) ==> vstd::utf8::is_ascii_chars(text@) ==> on == spells_true(text@),
        value is None ==> !on,
        value matches Some(text) ==> on == (lowercase_text(text@) == "true"@),
{
    match value {
        Some(text) => {
            let lowered = lowercase(text.as_str());
            is_true(lowered.as_str())
        },
        None => false,
    }
}

/// The pattern for custom log lines, or the one for errors where none is set.
pub fn custom_query(query: &Option<String>) -> (pattern: String)
    ensures
        pattern@ == query_text(option_text(*query)),
        query matches Some(text) ==> pattern@ == text@,
        query is None ==> pattern@ == "(err|error|ERR|ERROR)"@,
{
    match query {
        Some(text) => text.clone(),
        None => "(err|error|ERR|ERROR)".to_owned(),
    }
}

/// The name of the host, or `unknown` where it has none.
pub fn host_name(name: Option<String>) -> (found: String)
    ensures
        found@ == (match name {
            Some(text) => text@,
            None => "unknown"@,
        }),
{
    match name {
        Some(text) => text,
        None => "unknown".to_owned(),
    }
}

impl Metrics {
    /// An exporter that has not been asked for a report yet.
    pub fn new(
        get_log_metrics: bool,
        get_log_custom_metrics: bool,
        log_regex: Option<Regex>,
    ) -> (metrics: Metrics)
        ensures
            metrics@ == initial_state(get_log_metrics, get_log_custom_metrics, log_regex),
            metrics.containers_up == 0,
            metrics.containers_down == 0,
            metrics.ids@ == Seq::<String>::empty(),
            metrics.info@ == Map::<Seq<char>, ContainerInfo>::empty(),
            metrics.base_metrics@ == Map::<Seq<char>, BaseMetrics>::empty(),
            metrics.log_metrics@ == Map::<Seq<char>, LogMetrics>::empty(),
            metrics.inspect_metrics@ == Map::<Seq<char>, i64>::empty(),
            metrics.get_log_metrics == get_log_metrics,
            metrics.get_log_custom_metrics == get_log_custom_metrics,
            metrics.log_regex == log_regex,
    {
        let metrics = Metrics {
            containers_up: 0,
            containers_down: 0,
            ids: Vec::new(),
            info: StringHashMap::new(),
            base_metrics: StringHashMap::new(),
            get_log_metrics,
            get_log_custom_metrics,
            log_regex,
            log_metrics: StringHashMap::new(),
            inspect_metrics: StringHashMap::new(),
        };
        assert(metrics@ =~= initial_state(get_log_metrics, get_log_custom_metrics, log_regex));
        metrics
    }

    /// An exporter that counts custom log lines, given what became of their
    /// pattern.
    pub fn with_custom_logs(get_log_metrics: bool, compiled: Result<Regex, regex::Error>) -> (result:
        Result<Metrics, ConfigError>)
        ensures
            match compiled {
                Ok(regex) => result matches Ok(metrics) && metrics@ == initial_state(
                    get_log_metrics,
                    true,
                    Some(regex),
                ),
                Err(error) => result == Err::<Metrics, ConfigError>(
                    ConfigError::InvalidQuery(error),
                ),
            },
            compiled matches Ok(regex) ==> (result matches Ok(metrics) && metrics.get_log_metrics
                == get_log_metrics && metrics.get_log_custom_metrics && metrics.log_regex == Some(
                regex,
            )),
    {
        match compiled {
            Ok(regex) => Ok(Metrics::new(get_log_metrics, true, Some(regex))),
            Err(error) => Err(ConfigError::InvalidQuery(error)),
        }
    }

    /// An exporter with the given settings. A pattern is only looked at where
    /// custom log lines are asked for; it alone can be at fault, and only where
    /// one is set.
    pub fn configure(
        log_metrics: &Option<String>,
        log_custom_metrics: &Option<String>,
        query: &Option<String>,
    ) -> (result: Result<Metrics, ConfigError>)
        ensures
            !switched_on(option_text(*log_custom_metrics)) ==> (result matches Ok(metrics)
                && metrics@ == initial_state(switched_on(option_text(*log_metrics)), false, None)),
            switched_on(option_text(*log_custom_metrics)) ==> match result {
                Ok(metrics) => metrics@ == initial_state(
                    switched_on(option_text(*log_metrics)),
                    true,
                    Some(compiled_regex(query_text(option_text(*query)))),
                ),
                Err(error) => error == ConfigError::InvalidQuery(
                    pattern_refusal(query_text(option_text(*query))),
                ),
            },
            *query is None ==> result is Ok,
            log_metrics matches Some(text) ==> vstd::utf8::is_ascii_chars(text@) ==> (
            result matches Ok(metrics) ==> metrics@.get_log_metrics == spells_true(text@)),
            log_custom_metrics matches Some(text) ==> vstd::utf8::is_ascii_chars(text@) ==> (
            result matches Ok(metrics) ==> metrics@.get_log_custom_metrics == spells_true(text@)),
            log_custom_metrics matches Some(text) ==> vstd::utf8::is_ascii_chars(text@)
                ==> !spells_true(text@) ==> result is Ok,
            result matches Ok(metrics) ==> metrics.get_log_metrics == (log_metrics matches Some(text)
                && lowercase_text(text@) == "true"@),
            result matches Ok(metrics) ==> metrics.get_log_custom_metrics == (
            log_custom_metrics matches Some(text) && lowercase_text(text@) == "true"@),
            result matches Ok(metrics) ==> metrics.get_log_custom_metrics ==> (
            query matches Some(text) ==> metrics.log_regex == Some(regex_outcomes(text@).0)),
            result matches Ok(metrics) ==> metrics.get_log_custom_metrics ==> (query is None
                ==> metrics.log_regex == Some(regex_outcomes("(err|error|ERR|ERROR)"@).0)),
            result matches Ok(metrics) ==> !metrics.get_log_custom_metrics ==> metrics.log_regex
                is None,
            result matches Err(error) ==> (query matches Some(text) && error
                == ConfigError::InvalidQuery(regex_outcomes(text@).1)),
            result is Err ==> (log_custom_metrics matches Some(text) && lowercase_text(text@)
                == "true"@),
    {
        let get_log_metrics = parse_switch(log_metrics);
        if parse_switch(log_custom_metrics) {
            let pattern = custom_query(query);
            Metrics::with_custom_logs(get_log_metrics, Regex::new(pattern.as_str()))
        } else {
            Ok(Metrics::new(get_log_metrics, false, None))
        }
    }
}

// ---------------------------------------------------------------------------
// Laws.

/// The pattern for custom log lines is the one that was set, character by
/// character; only where none was set is it the one for errors.
pub proof fn law_set_query_unchanged(query: Option<String>)
    ensures
        query matches Some(text) ==> query_text(option_text(query)) == text@,
        query is None ==> query_text(option_text(query)) == "(err|error|ERR|ERROR)"@,
{
}

/// Where custom lines are asked for and a pattern is set, an exporter that could
/// be set up matches lines with what that very pattern compiles to; where the
/// pattern is refused, it is refused with the error of that very pattern.
pub proof fn law_set_query_compiled(
    get_log_metrics: bool,
    query: String,
    metrics: Metrics,
    error: ConfigError,
)
    ensures
        metrics@ == initial_state(
            get_log_metrics,
            true,
            Some(compiled_regex(query_text(option_text(Some(query))))),
        ) ==> metrics.log_regex == Some(regex_outcomes(query@).0)
            && metrics.get_log_custom_metrics,
        error == ConfigError::InvalidQuery(
            pattern_refusal(query_text(option_text(Some(query)))),
        ) ==> error == ConfigError::InvalidQuery(regex_outcomes(query@).1),
{
}

/// A setting is switched on exactly where it is set to a text that is `true`
/// once it is in lower case.
pub proof fn law_switches(value: Option<String>)
    ensures
        value is None ==> !switched_on(option_text(value)),
        value matches Some(text) ==> switched_on(option_text(value)) == (lowercase_text(text@)
            == "true"@),
{
}

/// An ASCII text spells `true` exactly where its four letters are those of
/// `true`, each in upper or in lower case.
pub proof fn law_spellings_of_true(text: Seq<char>)
    ensures
        spells_true(text) <==> {
            &&& text.len() == 4
            &&& text[0] == 't' || text[0] == 'T'
            &&& text[1] == 'r' || text[1] == 'R'
            &&& text[2] == 'u' || text[2] == 'U'
            &&& text[3] == 'e' || text[3] == 'E'
        },
{
    reveal_strlit("true");
    let lowered = text.map_values(|c: char| ascii_lowercase(c));
    if spells_true(text) {
        assert(lowered.len() == text.len());
        assert("true"@.len() == 4);
        assert(ascii_lowercase(text[0]) == lowered[0] && lowered[0] == 't');
        assert(ascii_lowercase(text[1]) == lowered[1] && lowered[1] == 'r');
        assert(ascii_lowercase(text[2]) == lowered[2] && lowered[2] == 'u');
        assert(ascii_lowercase(text[3]) == lowered[3] && lowered[3] == 'e');
    }
    if text.len() == 4 && (text[0] == 't' || text[0] == 'T') && (text[1] == 'r' || text[1] == 'R')
        && (text[2] == 'u' || text[2] == 'U') && (text[3] == 'e' || text[3] == 'E') {
        assert(lowered =~= "true"@);
    }
}

/// An exporter that has not been asked for a report knows no container and has
/// the settings that it was given.
pub proof fn law_nothing_known_at_first(
    get_log_metrics: bool,
    get_log_custom_metrics: bool,
    log_regex: Option<Regex>,
    metrics: Metrics,
    id: Seq<char>,
)
    requires
        metrics@ == initial_state(get_log_metrics, get_log_custom_metrics, log_regex),
    ensures
        metrics.containers_up == 0,
        metrics.containers_down == 0,
        metrics.ids@.len() == 0,
        !metrics.info@.contains_key(id),
        !metrics.base_metrics@.contains_key(id),
        !metrics.log_metrics@.contains_key(id),
        !metrics.inspect_metrics@.contains_key(id),
        metrics.get_log_metrics == get_log_metrics,
        metrics.get_log_custom_metrics == get_log_custom_metrics,
        metrics.log_regex == log_regex,
{
    law_state_shown(metrics, 0, id);
}

/// The name of the host is the one that it has, unchanged.
pub proof fn law_host_name_unchanged(name: Option<String>, found: String)
    requires
        call_ensures(host_name, (name,), found),
    ensures
        name matches Some(text) ==> found@ == text@,
        name is None ==> found@ == "unknown"@,
{
}

/// The pattern that is handed on is the one that was set, unchanged.
pub proof fn law_pattern_handed_on(query: &Option<String>, pattern: String)
    requires
        call_ensures(custom_query, (query,), pattern),
    ensures
        *query matches Some(text) ==> pattern@ == text@,
        *query is None ==> pattern@ == "(err|error|ERR|ERROR)"@,
{
}

/// Whether a setting is switched on is read off the text that it is set to, in
/// any case.
pub proof fn law_switch_read(value: &Option<String>, on: bool)
    requires
        call_ensures(parse_switch, (value,), on),
    ensures
        on == (*value matches Some(text) && lowercase_text(text@) == "true"@),
{
}

/// A lowercase setting is switched on where it is the word itself.
pub proof fn law_lowercase_switch_read(lowered: &str, on: bool)
    requires
        call_ensures(is_true, (lowered,), on),
    ensures
        on <==> lowered@ == "true"@,
{
}

/// What the settings make of an exporter: logs and custom lines are counted
/// where the settings say so, custom lines with what the pattern that was set
/// compiles to. Only a pattern that is set and asked for can be refused.
pub proof fn law_settings_followed(
    log_metrics: &Option<String>,
    log_custom_metrics: &Option<String>,
    query: &Option<String>,
    result: Result<Metrics, ConfigError>,
)
    requires
        call_ensures(Metrics::configure, (log_metrics, log_custom_metrics, query), result),
    ensures
        result matches Ok(metrics) ==> {
            &&& metrics.get_log_metrics == (*log_metrics matches Some(text) && lowercase_text(text@)
                == "true"@)
            &&& metrics.get_log_custom_metrics == (*log_custom_metrics matches Some(text)
                && lowercase_text(text@) == "true"@)
            &&& metrics.get_log_custom_metrics ==> (*query matches Some(text) ==> metrics.log_regex
                == Some(regex_outcomes(text@).0))
            &&& metrics.get_log_custom_metrics ==> (*query is None ==> metrics.log_regex == Some(
                regex_outcomes("(err|error|ERR|ERROR)"@).0,
            ))
            &&& !metrics.get_log_custom_metrics ==> metrics.log_regex is None
        },
        result matches Err(error) ==> {
            &&& *query matches Some(text) && error == ConfigError::InvalidQuery(
                regex_outcomes(text@).1,
            )
            &&& *log_custom_metrics matches Some(text) && lowercase_text(text@) == "true"@
        },
{
}

/// An exporter for custom lines keeps the expression that it is given, and a
/// pattern that was refused is refused with its own error.
pub proof fn law_compiled_pattern_kept(
    get_log_metrics: bool,
    compiled: Result<Regex, regex::Error>,
    result: Result<Metrics, ConfigError>,
)
    requires
        call_ensures(Metrics::with_custom_logs, (get_log_metrics, compiled), result),
    ensures
        compiled matches Ok(regex) ==> (result matches Ok(metrics) && metrics.get_log_metrics
            == get_log_metrics && metrics.get_log_custom_metrics && metrics.log_regex == Some(
            regex,
        ) && metrics.ids@.len() == 0),
        compiled matches Err(error) ==> result == Err::<Metrics, ConfigError>(
            ConfigError::InvalidQuery(error),
        ),
{
    if let Ok(metrics) = result {
        law_state_shown(metrics, 0, Seq::empty());
    }
}

} // verus!

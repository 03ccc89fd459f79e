//! Start times.
use crate::containers::{or_empty, text_or_empty};
use crate::metrics::{option_text, InspectMetric, InspectMetricView, Metrics};
use vstd::prelude::*;

verus! {

/// `chrono::ParseError`, carried as an opaque value.
#[verifier::external_type_specification]
#[verifier::external_body]
pub struct ExParseError(chrono::ParseError);

/// What comes of parsing `text` as a `chrono::DateTime<chrono::Utc>`: the Unix
/// time of the date, or the error where it is no date.
pub uninterp spec fn parsed_date(text: Seq<char>) -> Result<i64, chrono::ParseError>;

/// `str::parse` into a `chrono::DateTime<chrono::Utc>`, which accepts a relaxed
/// form of RFC 3339, with the date handed on as its `timestamp`: the outcome is
/// a function of the text alone, and the empty text is no date. The grammar is
/// not spelled out.
#[verifier::external_body]
pub(crate) fn parse_date(text: &str) -> (parsed: Result<i64, chrono::ParseError>)
    ensures
        parsed == parsed_date(text@),
        text@.len() == 0 ==> parsed is Err,
{
    match text.parse::<chrono::DateTime<chrono::Utc>>() {
        Ok(date) => Ok(date.timestamp()),
        Err(error) => Err(error),
    }
}

/// The part of a container's state that tells when it was started.
#[derive(Debug)]
pub struct ContainerState {
    pub started_at: Option<String>,
}

/// Why no start time is known.
#[derive(Debug)]
pub enum InspectError {
    /// The container came without a state.
    NoState,
    /// The start time is missing or is no date.
    InvalidDate(chrono::ParseError),
}

/// What is said of a container that came without a state.
pub fn no_state_message() -> (text: String)
    ensures
        text@ == "No state info"@,
{
    "No state info".to_owned()
}

/// The start time of the container `id`, given what its date was read as.
pub fn started_metric(id: &str, parsed: Result<i64, chrono::ParseError>) -> (result: Result<
    InspectMetric,
    InspectError,
>)
    ensures
        match parsed {
            Ok(started_date) => result matches Ok(metric) && metric@ == (InspectMetricView {
                id: id@,
                started_date,
            }),
            Err(error) => result == Err::<InspectMetric, InspectError>(
                InspectError::InvalidDate(error),
            ),
        },
        parsed matches Ok(date) ==> (result matches Ok(metric) && metric.id@ == id@
            && metric.started_date == date),
{
    match parsed {
        Ok(started_date) => Ok(InspectMetric { id: id.to_owned(), started_date }),
        Err(error) => Err(InspectError::InvalidDate(error)),
    }
}

impl Metrics {
    /// The start time of the container `id`, read from its state.
    pub fn get_inspect(id: &str, state: &Option<ContainerState>) -> (result: Result<
        InspectMetric,
        InspectError,
    >)
        ensures
            match *state {
                None => result == Err::<InspectMetric, InspectError>(InspectError::NoState),
                Some(known) => {
                    let text = or_empty(option_text(known.started_at));
                    &&& text.len() == 0 ==> result is Err
                    &&& match parsed_date(text) {
                        Ok(started_date) => result matches Ok(metric) && metric@ == (
                        InspectMetricView { id: id@, started_date }),
                        Err(error) => result == Err::<InspectMetric, InspectError>(
                            InspectError::InvalidDate(error),
                        ),
                    }
                },
            },
            *state matches Some(known) ==> (known.started_at matches Some(text) ==> (parsed_date(
                text@,
            ) matches Ok(date) ==> (result matches Ok(metric) && metric.id@ == id@
                && metric.started_date == date))),
            *state matches Some(known) ==> (known.started_at matches Some(text) ==> (parsed_date(
                text@,
            ) matches Err(error) ==> result == Err::<InspectMetric, InspectError>(
                InspectError::InvalidDate(error),
            ))),
            *state matches Some(known) ==> (known.started_at is None ==> result is Err
                && !(result matches Err(InspectError::NoState))),
    {
        let known = match state {
            Some(known) => known,
            None => {
                return Err(InspectError::NoState);
            },
        };
        let started_at = text_or_empty(&known.started_at);
        started_metric(id, parse_date(started_at.as_str()))
    }
}

// ---------------------------------------------------------------------------
// Laws.

/// A container that came without a state is said to have none.
pub proof fn law_missing_state_named(text: String)
    requires
        call_ensures(no_state_message, (), text),
    ensures
        text@ == "No state info"@,
{
}

/// The start of a container is the time that its date was read as, under its
/// own identifier; a date that could not be read is refused with its own error.
pub proof fn law_read_date_kept(
    id: &str,
    parsed: Result<i64, chrono::ParseError>,
    result: Result<InspectMetric, InspectError>,
)
    requires
        call_ensures(started_metric, (id, parsed), result),
    ensures
        parsed matches Ok(date) ==> (result matches Ok(metric) && metric.id@ == id@
            && metric.started_date == date),
        parsed matches Err(error) ==> result == Err::<InspectMetric, InspectError>(
            InspectError::InvalidDate(error),
        ),
{
}

/// The start of a container is read from its own date, to the second; one that
/// came without a state or without a date has none.
pub proof fn law_start_from_state(
    id: &str,
    state: &Option<ContainerState>,
    result: Result<InspectMetric, InspectError>,
)
    requires
        call_ensures(Metrics::get_inspect, (id, state), result),
    ensures
        *state is None ==> result == Err::<InspectMetric, InspectError>(InspectError::NoState),
        *state matches Some(known) ==> (known.started_at is None ==> result matches Err(
            InspectError::InvalidDate(_),
        )),
        *state matches Some(known) ==> (known.started_at matches Some(text) ==> (parsed_date(
            text@,
        ) matches Ok(date) ==> (result matches Ok(metric) && metric.id@ == id@
            && metric.started_date == date))),
        *state matches Some(known) ==> (known.started_at matches Some(text) ==> (parsed_date(
            text@,
        ) matches Err(error) ==> result == Err::<InspectMetric, InspectError>(
            InspectError::InvalidDate(error),
        ))),
{
}

} // verus!

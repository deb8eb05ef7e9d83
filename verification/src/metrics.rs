//! The typed metric record and its mapping from query parameters.
//!
//! Query parameters are scanned for keys containing `metric`, `subfield`,
//! `target` and `value` (substring match, the last matching entry winning).
//! The `metric` value maps to a `MetricName` by exact string equality, with
//! `Error` as the fallback and `Base` as the default when the parameter is
//! absent; `subfield` and `target` default to the empty string; `value` must
//! be a decimal number an unsigned 8-bit integer can hold.

use vstd::prelude::*;
use vstd::string::*;

use crate::numbers::{dec_val, parse_u8_str, parses_to_u8};
use crate::request::{HttpError, RequestUrl};
use crate::text::{last_match, last_match_value, str_eq};

verus! {

/// The closed set of recognized metric event categories.
#[derive(Clone, Copy, PartialEq, Eq, Structural, Debug)]
pub enum MetricName {
    StoryView,
    PageView,
    ButtonClick,
    Share,
    Error,
    Base,
}

/// One metric event: its category, two free-text coordinates and an 8-bit
/// magnitude. Built only on the success path; its one observable effect is
/// its inclusion in the JSON response body.
pub struct Metric {
    pub metric_type: MetricName,
    pub subfield: String,
    pub target: String,
    pub value: u8,
}

/// The `MetricName` a query parameter value names, by exact equality;
/// anything unrecognized maps to `Error`.
pub open spec fn metric_name_of(v: Seq<char>) -> MetricName {
    if v == "story-view"@ {
        MetricName::StoryView
    } else if v == "page-view"@ {
        MetricName::PageView
    } else if v == "share"@ {
        MetricName::Share
    } else if v == "button-click"@ {
        MetricName::ButtonClick
    } else if v == "base"@ {
        MetricName::Base
    } else {
        MetricName::Error
    }
}

/// Category read from the parameters: the last entry whose key contains
/// `metric`, or `Base` when there is none.
pub open spec fn spec_metric_type(qp: Seq<(Seq<char>, Seq<char>)>) -> MetricName {
    match last_match(qp, "metric"@) {
        None => MetricName::Base,
        Some(p) => metric_name_of(p.1),
    }
}

/// Subfield read from the parameters: the last entry whose key contains
/// `subfield`, or the empty string.
pub open spec fn spec_metric_subfield(qp: Seq<(Seq<char>, Seq<char>)>) -> Seq<char> {
    match last_match(qp, "subfield"@) {
        None => Seq::empty(),
        Some(p) => p.1,
    }
}

/// Target read from the parameters: the last entry whose key contains
/// `target`, or the empty string.
pub open spec fn spec_metric_target(qp: Seq<(Seq<char>, Seq<char>)>) -> Seq<char> {
    match last_match(qp, "target"@) {
        None => Seq::empty(),
        Some(p) => p.1,
    }
}

/// Magnitude read from the parameters: the last entry whose key contains
/// `value`, decoded as a decimal `u8`, or 0 when absent; a value that is not
/// such a number is the fatal `InvalidMetricValue` error.
pub open spec fn spec_metric_value(qp: Seq<(Seq<char>, Seq<char>)>) -> Result<u8, HttpError> {
    match last_match(qp, "value"@) {
        None => Ok(0u8),
        Some(p) => if parses_to_u8(p.1) {
            Ok((dec_val(p.1) as u8))
        } else {
            Err(HttpError::InvalidMetricValue)
        },
    }
}

/// The canonical wire string of each metric category.
pub open spec fn spec_metric_type_string(m_type: MetricName) -> Seq<char> {
    match m_type {
        MetricName::Base => "couch-gag-base-metric-health-ping"@,
        MetricName::ButtonClick => "couch-gag-button-click"@,
        MetricName::Error => "couch-gag-error"@,
        MetricName::PageView => "couch-gag-page-view-hit"@,
        MetricName::Share => "couch-gag-share-story"@,
        MetricName::StoryView => "couch-gag-story-view"@,
    }
}

impl Metric {
    /// Assembles a metric record from its four fields.
    pub fn get_metric(m_type: MetricName, s: String, t: String, v: u8) -> (m: Metric)
        ensures
            m.metric_type == m_type,
            m.subfield@ == s@,
            m.target@ == t@,
            m.value == v,
    {
        Metric { metric_type: m_type, subfield: s, target: t, value: v }
    }

    /// Writes a metric category as its canonical wire string.
    pub fn get_metric_type_as_string(m_type: MetricName) -> (r: String)
        ensures
            r@ == spec_metric_type_string(m_type),
    {
        match m_type {
            MetricName::Base => String::from_str("couch-gag-base-metric-health-ping"),
            MetricName::ButtonClick => String::from_str("couch-gag-button-click"),
            MetricName::Error => String::from_str("couch-gag-error"),
            MetricName::PageView => String::from_str("couch-gag-page-view-hit"),
            MetricName::Share => String::from_str("couch-gag-share-story"),
            MetricName::StoryView => String::from_str("couch-gag-story-view"),
        }
    }

    /// Reads the subfield off the query parameters.
    pub fn get_metric_subfield_off_query_params(req_url: &RequestUrl) -> (r: String)
        ensures
            r@ == spec_metric_subfield(req_url.query_parameters.deep_view()),
    {
        match last_match_value(&req_url.query_parameters, "subfield") {
            None => String::new(),
            Some(v) => v,
        }
    }

    /// Reads the magnitude off the query parameters, or reports the fatal
    /// decode error.
    pub fn get_val_off_query_params(req_url: &RequestUrl) -> (r: Result<u8, HttpError>)
        ensures
            r == spec_metric_value(req_url.query_parameters.deep_view()),
    {
        match last_match_value(&req_url.query_parameters, "value") {
            None => Ok(0),
            Some(v) => {
                match parse_u8_str(v.as_str()) {
                    Some(n) => Ok(n),
                    None => Err(HttpError::InvalidMetricValue),
                }
            },
        }
    }

    /// Reads the target off the query parameters.
    pub fn get_target_string_off_query_params(req_url: &RequestUrl) -> (r: String)
        ensures
            r@ == spec_metric_target(req_url.query_parameters.deep_view()),
    {
        match last_match_value(&req_url.query_parameters, "target") {
            None => String::new(),
            Some(v) => v,
        }
    }

    /// Reads the metric category off the query parameters.
    pub fn get_metric_type_off_query_param(req_url: &RequestUrl) -> (r: MetricName)
        ensures
            r == spec_metric_type(req_url.query_parameters.deep_view()),
    {
        match last_match_value(&req_url.query_parameters, "metric") {
            None => MetricName::Base,
            Some(v) => {
                if str_eq(v.as_str(), "story-view") {
                    MetricName::StoryView
                } else if str_eq(v.as_str(), "page-view") {
                    MetricName::PageView
                } else if str_eq(v.as_str(), "share") {
                    MetricName::Share
                } else if str_eq(v.as_str(), "button-click") {
                    MetricName::ButtonClick
                } else if str_eq(v.as_str(), "base") {
                    MetricName::Base
                } else {
                    MetricName::Error
                }
            },
        }
    }
}

} // verus!

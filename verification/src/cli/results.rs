//! Choosing the metric of a Pareto analysis of imported results.
use vstd::prelude::*;
use crate::cli::compare_args::{spec_to_lowercase, str_to_lowercase};
use crate::text::str_eq;

verus! {

/// The quality metric that a Pareto front is computed on.
#[derive(Debug, Clone, Copy, PartialEq, Eq, Structural)]
pub enum ParetoMetric {
    Dssim,
    Ssimulacra2,
    Psnr,
    Butteraugli,
}

/// The metric that a lower-cased name selects: "dssim", "ssimulacra2" or
/// "ssim2", "psnr", "butteraugli" or "ba".
pub open spec fn spec_pareto_metric(lower: Seq<char>) -> Option<ParetoMetric> {
    if lower == "dssim"@ {
        Some(ParetoMetric::Dssim)
    } else if lower == "ssimulacra2"@ || lower == "ssim2"@ {
        Some(ParetoMetric::Ssimulacra2)
    } else if lower == "psnr"@ {
        Some(ParetoMetric::Psnr)
    } else if lower == "butteraugli"@ || lower == "ba"@ {
        Some(ParetoMetric::Butteraugli)
    } else {
        None
    }
}

impl ParetoMetric {
    /// Whether the metric's values are negated before the front is
    /// computed, so that higher is better: distances (DSSIM, Butteraugli).
    pub open spec fn spec_negated(self) -> bool {
        self == ParetoMetric::Dssim || self == ParetoMetric::Butteraugli
    }

    /// Whether the metric is negated so that higher is better.
    pub fn negated(&self) -> (r: bool)
        ensures
            r == self.spec_negated(),
    {
        match self {
            ParetoMetric::Dssim | ParetoMetric::Butteraugli => true,
            _ => false,
        }
    }
}

/// The metric that an already lower-cased name selects.
pub fn pareto_metric_of(lower: &str) -> (r: Option<ParetoMetric>)
    ensures
        r == spec_pareto_metric(lower@),
{
    if str_eq(lower, "dssim") {
        Some(ParetoMetric::Dssim)
    } else if str_eq(lower, "ssimulacra2") || str_eq(lower, "ssim2") {
        Some(ParetoMetric::Ssimulacra2)
    } else if str_eq(lower, "psnr") {
        Some(ParetoMetric::Psnr)
    } else if str_eq(lower, "butteraugli") || str_eq(lower, "ba") {
        Some(ParetoMetric::Butteraugli)
    } else {
        None
    }
}

/// The metric that a name selects, compared lower-cased; `None` for a name
/// that selects none (no point then has a value for it).
pub fn parse_pareto_metric(name: &str) -> (r: Option<ParetoMetric>)
    ensures
        r == spec_pareto_metric(spec_to_lowercase(name@)),
{
    let lower = str_to_lowercase(name);
    pareto_metric_of(lower.as_str())
}

/// The number of decimals a front's metric values are printed with, by the
/// lower-cased metric name: six for "dssim" and "butteraugli", else two.
pub fn metric_decimals_of(lower: &str) -> (r: usize)
    ensures
        r == (if lower@ == "dssim"@ || lower@ == "butteraugli"@ { 6usize } else { 2usize }),
{
    if str_eq(lower, "dssim") || str_eq(lower, "butteraugli") {
        6
    } else {
        2
    }
}

/// The number of decimals a front's metric values are printed with.
pub fn metric_decimals(name: &str) -> (r: usize)
    ensures
        r == (if spec_to_lowercase(name@) == "dssim"@ || spec_to_lowercase(name@) == "butteraugli"@ {
            6usize
        } else {
            2usize
        }),
{
    let lower = str_to_lowercase(name);
    metric_decimals_of(lower.as_str())
}

/// How a report is printed.
#[derive(Debug, Clone, Copy, PartialEq, Eq, Structural)]
pub enum OutputFormat {
    Text,
    Json,
    Csv,
}

/// The output format a name selects: "text", "json" or "csv", exactly.
pub open spec fn spec_output_format(name: Seq<char>) -> Option<OutputFormat> {
    if name == "text"@ {
        Some(OutputFormat::Text)
    } else if name == "json"@ {
        Some(OutputFormat::Json)
    } else if name == "csv"@ {
        Some(OutputFormat::Csv)
    } else {
        None
    }
}

/// Parse an output format name; `None` for an unknown one.
pub fn parse_output_format(name: &str) -> (r: Option<OutputFormat>)
    ensures
        r == spec_output_format(name@),
{
    if str_eq(name, "text") {
        Some(OutputFormat::Text)
    } else if str_eq(name, "json") {
        Some(OutputFormat::Json)
    } else if str_eq(name, "csv") {
        Some(OutputFormat::Csv)
    } else {
        None
    }
}

/// The message of a Pareto run that found no point with a value of the
/// metric.
pub fn no_valid_points_message(metric: &str) -> (r: String)
    ensures
        r@ == "No valid points found for metric '"@ + metric@ + "'"@,
{
    let mut s = String::from_str("No valid points found for metric '");
    s.append(metric);
    s.append("'");
    s
}

} // verus!

//! Grades of validators, and leaderboards.

use vstd::prelude::*;
use vstd::string::*;

verus! {

/// A validator's grade.
#[derive(Clone, Copy, Debug, PartialEq, Eq, Structural)]
pub enum PerformanceGrade {
    Pending,
    APlus,
    A,
    B,
    C,
    D,
    F,
}

impl Default for PerformanceGrade {
    fn default() -> (r: Self)
        ensures
            r == PerformanceGrade::Pending,
    {
        PerformanceGrade::Pending
    }
}

/// A grade in writing.
pub open spec fn grade_text(g: PerformanceGrade) -> Seq<char> {
    match g {
        PerformanceGrade::Pending => "Pending"@,
        PerformanceGrade::APlus => "A+"@,
        PerformanceGrade::A => "A"@,
        PerformanceGrade::B => "B"@,
        PerformanceGrade::C => "C"@,
        PerformanceGrade::D => "D"@,
        PerformanceGrade::F => "F"@,
    }
}

impl PerformanceGrade {
    /// The grade in writing.
    pub fn as_str(&self) -> (r: &'static str)
        ensures
            r@ == grade_text(*self),
    {
        match self {
            PerformanceGrade::Pending => "Pending",
            PerformanceGrade::APlus => "A+",
            PerformanceGrade::A => "A",
            PerformanceGrade::B => "B",
            PerformanceGrade::C => "C",
            PerformanceGrade::D => "D",
            PerformanceGrade::F => "F",
        }
    }
}

#[derive(Debug)]
pub struct ValidatorLeaderboardSpec {
    /// The federation whose members are compared.
    pub federation_ref: Option<String>,
    pub refresh_interval_seconds: u32,
    /// How many validators the leaderboard keeps.
    pub top_n: usize,
}

impl Default for ValidatorLeaderboardSpec {
    fn default() -> (r: Self)
        ensures
            r.federation_ref is None,
            r.refresh_interval_seconds == 3600,
            r.top_n == 100,
    {
        ValidatorLeaderboardSpec {
            federation_ref: None,
            refresh_interval_seconds: 3600,
            top_n: 100,
        }
    }
}

} // verus!

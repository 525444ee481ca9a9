//! The game data versions that layouts exist for.
use vstd::prelude::*;

verus! {

/// A version of the game's skill tree.
#[derive(Debug, Clone, Copy, PartialEq, Eq, Structural)]
pub enum Version {
    V3_15,
    V3_16,
    V3_17,
    V3_18,
    V3_19,
    V3_20,
    V3_21,
    V3_22,
    V3_23,
}

/// The text did not name a known version.
#[derive(Debug, Clone, Copy, PartialEq, Eq, Structural)]
pub struct ParseVersionError {}

/// The version that `s` names, written with a dot or an underscore
/// (`3.23` or `3_23`).
pub open spec fn parse_version(s: Seq<char>) -> Option<Version> {
    if s == "3.15"@ || s == "3_15"@ {
        Some(Version::V3_15)
    } else if s == "3.16"@ || s == "3_16"@ {
        Some(Version::V3_16)
    } else if s == "3.17"@ || s == "3_17"@ {
        Some(Version::V3_17)
    } else if s == "3.18"@ || s == "3_18"@ {
        Some(Version::V3_18)
    } else if s == "3.19"@ || s == "3_19"@ {
        Some(Version::V3_19)
    } else if s == "3.20"@ || s == "3_20"@ {
        Some(Version::V3_20)
    } else if s == "3.21"@ || s == "3_21"@ {
        Some(Version::V3_21)
    } else if s == "3.22"@ || s == "3_22"@ {
        Some(Version::V3_22)
    } else if s == "3.23"@ || s == "3_23"@ {
        Some(Version::V3_23)
    } else {
        None
    }
}

impl Version {
    /// The newest version.
    pub fn latest() -> (r: Version)
        ensures
            r == Version::V3_23,
    {
        Version::V3_23
    }

    /// Reads a version written as `3.23` or `3_23`.
    pub fn parse(s: &str) -> (r: Result<Version, ParseVersionError>)
        ensures
            match parse_version(s@) {
                Some(v) => r == Ok::<Version, ParseVersionError>(v),
                None => r is Err,
            },
    {
        let s = s.to_owned();
        if s == "3.15".to_owned() || s == "3_15".to_owned() {
            Ok(Version::V3_15)
        } else if s == "3.16".to_owned() || s == "3_16".to_owned() {
            Ok(Version::V3_16)
        } else if s == "3.17".to_owned() || s == "3_17".to_owned() {
            Ok(Version::V3_17)
        } else if s == "3.18".to_owned() || s == "3_18".to_owned() {
            Ok(Version::V3_18)
        } else if s == "3.19".to_owned() || s == "3_19".to_owned() {
            Ok(Version::V3_19)
        } else if s == "3.20".to_owned() || s == "3_20".to_owned() {
            Ok(Version::V3_20)
        } else if s == "3.21".to_owned() || s == "3_21".to_owned() {
            Ok(Version::V3_21)
        } else if s == "3.22".to_owned() || s == "3_22".to_owned() {
            Ok(Version::V3_22)
        } else if s == "3.23".to_owned() || s == "3_23".to_owned() {
            Ok(Version::V3_23)
        } else {
            Err(ParseVersionError {  })
        }
    }
}

impl std::str::FromStr for Version {
    type Err = ParseVersionError;

    fn from_str(s: &str) -> Result<Version, ParseVersionError> {
        Version::parse(s)
    }
}

} // verus!

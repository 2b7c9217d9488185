//! Semantic versions, modelled as plain values: the three numeric fields plus
//! the pre-release and build identifier strings. Parsing the semver grammar is
//! delegated to an outside parser behind a trusted wrapper; everything the
//! registry decides about a version is decided on this type.

use vstd::prelude::*;

use crate::decimal::{decimal, push_decimal};
use vstd::string::StringExecFns;

verus! {

/// The conventional rendering of a version: the numeric fields separated by
/// dots, then `-pre` and `+build` where present.
pub open spec fn spec_display_version(v: VersionView) -> Seq<char> {
    decimal(v.major as nat) + seq!['.'] + decimal(v.minor as nat) + seq!['.'] + decimal(
        v.patch as nat,
    ) + (if v.pre.len() > 0 {
        seq!['-'] + v.pre
    } else {
        Seq::<char>::empty()
    }) + (if v.build.len() > 0 {
        seq!['+'] + v.build
    } else {
        Seq::<char>::empty()
    })
}

/// One semantic version: `major.minor.patch`, optionally `-pre` and `+build`.
#[derive(Debug)]
pub struct Version {
    pub major: u64,
    pub minor: u64,
    pub patch: u64,
    pub pre: String,
    pub build: String,
}

/// The mathematical value of a `Version`.
pub struct VersionView {
    pub major: u64,
    pub minor: u64,
    pub patch: u64,
    pub pre: Seq<char>,
    pub build: Seq<char>,
}

impl View for Version {
    type V = VersionView;

    open spec fn view(&self) -> VersionView {
        VersionView {
            major: self.major,
            minor: self.minor,
            patch: self.patch,
            pre: self.pre@,
            build: self.build@,
        }
    }
}

impl Version {
    /// A copy with the same value (`Version` holds strings, so it is not `Copy`).
    pub fn duplicate(&self) -> (r: Version)
        ensures
            r@ == self@,
    {
        Version {
            major: self.major,
            minor: self.minor,
            patch: self.patch,
            pre: self.pre.clone(),
            build: self.build.clone(),
        }
    }

    /// Renders the version in its conventional written form.
    pub fn to_display_string(&self) -> (r: String)
        ensures
            r@ == spec_display_version(self@),
    {
        let mut out = String::new();
        push_decimal(&mut out, self.major);
        proof {
            reveal_strlit(".");
        }
        out.append(".");
        push_decimal(&mut out, self.minor);
        out.append(".");
        push_decimal(&mut out, self.patch);
        if !self.pre.as_str().is_empty() {
            proof {
                reveal_strlit("-");
            }
            out.append("-");
            out.append(self.pre.as_str());
        }
        if !self.build.as_str().is_empty() {
            proof {
                reveal_strlit("+");
            }
            out.append("+");
            out.append(self.build.as_str());
        }
        proof {
            assert(out@ =~= spec_display_version(self@));
        }
        out
    }
}

/// Whether two versions have the same value.
pub fn eq_version(a: &Version, b: &Version) -> (r: bool)
    ensures
        r == (a@ == b@),
{
    a.major == b.major && a.minor == b.minor && a.patch == b.patch && a.pre == b.pre
        && a.build == b.build
}

/// What the outside semver parser returns on a given string: `Some` exactly on
/// the strings of the semantic-version grammar, with the parts of the version.
pub uninterp spec fn parsed_version(s: Seq<char>) -> Option<VersionView>;

/// Relies on `semver::Version::parse`: it accepts exactly the semantic-version
/// grammar and returns the version's numeric fields and its pre-release and
/// build identifiers.
#[verifier::external_body]
pub(crate) fn parse_version(s: &str) -> (r: Option<Version>)
    ensures
        r matches Some(v) ==> parsed_version(s@) == Some(v@),
        r is None ==> parsed_version(s@) is None,
{
    match semver::Version::parse(s) {
        Ok(v) => Some(Version {
            major: v.major,
            minor: v.minor,
            patch: v.patch,
            pre: v.pre.as_str().to_owned(),
            build: v.build.as_str().to_owned(),
        }),
        Err(_) => None,
    }
}

} // verus!

//! Versions of a crate, as semantic versioning writes them.

use crate::text::{push_char, same_text};
use vstd::prelude::*;

verus! {

/// A semantic version: `major.minor.patch`, then `-` and a pre-release
/// where there is one, then `+` and build metadata where there is some.
#[derive(Clone, Debug, PartialEq, Eq)]
pub struct Version {
    pub major: u64,
    pub minor: u64,
    pub patch: u64,
    /// The pre-release, without its `-`; empty where there is none.
    pub pre: String,
    /// The build metadata, without its `+`; empty where there is none.
    pub build: String,
}

/// A version, as contracts see it.
pub struct VersionView {
    pub major: u64,
    pub minor: u64,
    pub patch: u64,
    pub pre: Seq<char>,
    pub build: Seq<char>,
}

impl View for Version {
    type V = VersionView;

    open spec fn view(&self) -> VersionView {
        VersionView {
            major: self.major,
            minor: self.minor,
            patch: self.patch,
            pre: self.pre@,
            build: self.build@,
        }
    }
}

/// The version that the `semver` crate reads from a text, or `None` where
/// it rejects the text.
pub uninterp spec fn semver_parse(text: Seq<char>) -> Option<VersionView>;

/// The view of a version that may be absent.
pub open spec fn viewed(version: Option<Version>) -> Option<VersionView> {
    match version {
        Some(v) => Some(v@),
        None => None,
    }
}

/// The character that stands for a digit.
pub open spec fn digit(d: int) -> char {
    ((48 + d) as u8) as char
}

/// A number written in decimal, without leading zeros.
pub open spec fn decimal(n: nat) -> Seq<char>
    decreases n,
{
    if n < 10 {
        seq![digit(n as int)]
    } else {
        decimal(n / 10).push(digit((n % 10) as int))
    }
}

/// A version written out: the three numbers with dots between them, then
/// `-` and the pre-release where there is one, then `+` and the build
/// metadata where there is some.
pub open spec fn rendered(version: VersionView) -> Seq<char> {
    decimal(version.major as nat) + seq!['.'] + decimal(version.minor as nat) + seq!['.'] + decimal(
        version.patch as nat,
    ) + (if version.pre.len() > 0 {
        seq!['-'] + version.pre
    } else {
        Seq::empty()
    }) + (if version.build.len() > 0 {
        seq!['+'] + version.build
    } else {
        Seq::empty()
    })
}

/// The digits of a number that are still to be written before those
/// already taken from its end: none once nothing of it is left.
spec fn leading(rest: nat) -> Seq<char> {
    if rest == 0 {
        Seq::empty()
    } else {
        decimal(rest)
    }
}

/// Appends a number in decimal to a text.
fn push_decimal(text: &mut String, n: u64)
    ensures
        final(text)@ == old(text)@ + decimal(n as nat),
{
    let mut digits: Vec<char> = Vec::new();
    let first: u8 = (n % 10) as u8;
    digits.push((48 + first) as char);
    let mut rest: u64 = n / 10;
    assert(decimal(n as nat) =~= leading(rest as nat) + digits@.reverse());
    while rest > 0
        invariant
            digits@.len() > 0,
            decimal(n as nat) == leading(rest as nat) + digits@.reverse(),
        decreases rest,
    {
        let ghost before = digits@;
        let d: u8 = (rest % 10) as u8;
        digits.push((48 + d) as char);
        assert(digits@.reverse() =~= seq![digit(d as int)] + before.reverse());
        assert(decimal(rest as nat) =~= leading((rest / 10) as nat) + seq![digit(d as int)]);
        rest = rest / 10;
        assert(decimal(n as nat) =~= leading(rest as nat) + digits@.reverse());
    }
    let mut i: usize = digits.len();
    while i > 0
        invariant
            i <= digits@.len(),
            text@ == old(text)@ + digits@.reverse().subrange(0, digits@.len() - i),
        decreases i,
    {
        i = i - 1;
        push_char(text, digits[i]);
        assert(text@ =~= old(text)@ + digits@.reverse().subrange(0, digits@.len() - i));
    }
    assert(digits@.reverse().subrange(0, digits@.len() as int) =~= digits@.reverse());
}

/// Reads a version with `semver::Version::parse`.
///
/// Trusted: the call is a function of the text alone and does not panic.
/// What it accepts and what it makes of it is left to the crate; the fields
/// of the version it returns are moved over one for one, the pre-release
/// and the build metadata as the texts that `as_str` gives.
#[verifier::external_body]
fn parse_semver(text: &str) -> (parsed: Option<Version>)
    ensures
        viewed(parsed) == semver_parse(text@),
{
    match semver::Version::parse(text) {
        Ok(v) => Some(
            Version {
                major: v.major,
                minor: v.minor,
                patch: v.patch,
                pre: v.pre.as_str().to_string(),
                build: v.build.as_str().to_string(),
            },
        ),
        Err(_) => None,
    }
}

impl Version {
    /// Reads a version from its text; `None` where the text is no semantic
    /// version.
    pub fn parse(text: &str) -> (parsed: Option<Version>)
        ensures
            viewed(parsed) == semver_parse(text@),
    {
        parse_semver(text)
    }

    /// The version written out.
    pub fn render(&self) -> (text: String)
        ensures
            text@ == rendered(self@),
    {
        let mut text = String::new();
        push_decimal(&mut text, self.major);
        push_char(&mut text, '.');
        push_decimal(&mut text, self.minor);
        push_char(&mut text, '.');
        push_decimal(&mut text, self.patch);
        if !self.pre.as_str().is_empty() {
            push_char(&mut text, '-');
            text.append(self.pre.as_str());
        }
        if !self.build.as_str().is_empty() {
            push_char(&mut text, '+');
            text.append(self.build.as_str());
        }
        assert(text@ =~= rendered(self@));
        text
    }

    /// A copy of the version.
    pub fn copy(&self) -> (copy: Version)
        ensures
            copy@ == self@,
    {
        Version {
            major: self.major,
            minor: self.minor,
            patch: self.patch,
            pre: self.pre.clone(),
            build: self.build.clone(),
        }
    }

    /// Whether two versions are the same: equal in every field, build
    /// metadata included.
    pub fn same(&self, other: &Version) -> (yes: bool)
        ensures
            yes == (self@ == other@),
    {
        self.major == other.major && self.minor == other.minor && self.patch == other.patch
            && same_text(&self.pre, &other.pre) && same_text(&self.build, &other.build)
    }
}

} // verus!

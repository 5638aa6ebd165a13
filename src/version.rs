//! Version resolution: picking the greatest registered version of a crate,
//! either unconstrained or among those a requirement admits.

use vstd::prelude::*;
use vstd::string::StringExecFns;

verus! {

#[verifier::external_type_specification]
#[verifier::external_body]
pub struct ExVersion(semver::Version);

#[verifier::external_type_specification]
#[verifier::external_body]
pub struct ExVersionReq(semver::VersionReq);

/// Whether `s` is a well-formed semantic version.
pub uninterp spec fn version_parses(s: Seq<char>) -> bool;

/// Whether `req` is a well-formed version requirement.
pub uninterp spec fn requirement_parses(req: Seq<char>) -> bool;

/// Whether the requirement written `req` admits the version written `v`.
pub uninterp spec fn requirement_admits(req: Seq<char>, v: Seq<char>) -> bool;

/// Position of the greatest, by semantic-version precedence, of the versions
/// written in `vs` (the last such one where several compare equal).
pub uninterp spec fn greatest_index(vs: Seq<Seq<char>>) -> int;

/// A registered version that parsed, with the text it was read from. Only
/// `parse_release` builds one, so the version is always the text's parse.
pub struct Release {
    text: String,
    version: semver::Version,
}

impl View for Release {
    type V = Seq<char>;

    closed spec fn view(&self) -> Seq<char> {
        self.text@
    }
}

impl Release {
    pub fn text(&self) -> (r: &String)
        ensures
            r@ == self@,
    {
        &self.text
    }
}

/// A version requirement that parsed, with the text it was read from. Only
/// `parse_requirement` builds one, so the requirement is always the text's
/// parse.
pub struct Requirement {
    text: String,
    req: semver::VersionReq,
}

impl View for Requirement {
    type V = Seq<char>;

    closed spec fn view(&self) -> Seq<char> {
        self.text@
    }
}

/// Relies on semver::Version::parse, which accepts exactly the well-formed
/// semantic versions.
#[verifier::external_body]
fn parse_release(text: &str) -> (r: Option<Release>)
    ensures
        r.is_some() == version_parses(text@),
        r matches Some(v) ==> v@ == text@,
{
    semver::Version::parse(text).ok().map(|version| Release { text: text.to_string(), version })
}

/// Relies on semver::VersionReq::parse, which accepts exactly the well-formed
/// requirements.
#[verifier::external_body]
fn parse_requirement(text: &str) -> (r: Option<Requirement>)
    ensures
        r.is_some() == requirement_parses(text@),
        r matches Some(q) ==> q@ == text@,
{
    semver::VersionReq::parse(text).ok().map(|req| Requirement { text: text.to_string(), req })
}

/// Relies on semver::VersionReq::matches, which decides whether a version
/// satisfies a requirement from the two values alone.
#[verifier::external_body]
fn admits(q: &Requirement, v: &Release) -> (r: bool)
    ensures
        r == requirement_admits(q@, v@),
{
    q.req.matches(&v.version)
}

/// Relies on the `Ord` of semver::Version (semantic-version precedence),
/// through Iterator::max_by_key, which returns the last greatest element.
#[verifier::external_body]
fn position_of_greatest(vs: &Vec<Release>) -> (r: usize)
    requires
        vs@.len() > 0,
    ensures
        r < vs@.len(),
        r == greatest_index(texts(vs@)),
{
    vs.iter().enumerate().max_by_key(|p| &p.1.version).map(|p| p.0).unwrap_or(0)
}

/// The texts of a sequence of releases.
pub open spec fn texts(vs: Seq<Release>) -> Seq<Seq<char>> {
    vs.map_values(|v: Release| v@)
}

/// The entries of `vs` that are well-formed versions, in their order.
pub open spec fn parseable(vs: Seq<Seq<char>>) -> Seq<Seq<char>>
    decreases vs.len(),
{
    if vs.len() == 0 {
        Seq::empty()
    } else {
        let rest = parseable(vs.drop_last());
        if version_parses(vs.last()) {
            rest.push(vs.last())
        } else {
            rest
        }
    }
}

/// The entries of `vs` that are well-formed versions admitted by `req`, in
/// their order.
pub open spec fn admitted(req: Seq<char>, vs: Seq<Seq<char>>) -> Seq<Seq<char>>
    decreases vs.len(),
{
    if vs.len() == 0 {
        Seq::empty()
    } else {
        let rest = admitted(req, vs.drop_last());
        if version_parses(vs.last()) && requirement_admits(req, vs.last()) {
            rest.push(vs.last())
        } else {
            rest
        }
    }
}

/// The greatest of the versions written in `vs`, which must not be empty.
pub open spec fn greatest(vs: Seq<Seq<char>>) -> Seq<char> {
    vs[greatest_index(vs)]
}

/// Entries that are not well-formed versions take no part in resolution:
/// removing one leaves the candidates, hence the chosen version, unchanged.
pub proof fn lemma_malformed_ignored(vs: Seq<Seq<char>>, i: int)
    requires
        0 <= i < vs.len(),
        !version_parses(vs[i]),
    ensures
        parseable(vs.remove(i)) == parseable(vs),
    decreases vs.len(),
{
    if i == vs.len() - 1 {
        assert(vs.remove(i) =~= vs.drop_last());
    } else {
        assert(vs.remove(i).drop_last() =~= vs.drop_last().remove(i));
        assert(vs.remove(i).last() == vs.last());
        lemma_malformed_ignored(vs.drop_last(), i);
    }
}

/// Why no version could be chosen.
#[derive(Debug)]
pub enum ResolveError {
    /// The requirement is not a well-formed version requirement.
    RequirementParse { requirement: String },
    /// No registered version of the crate satisfies the requirement.
    NoMatchingVersion { name: String, requirement: String },
    /// The crate has no registered version that parses.
    UnknownCrate { name: String },
}

/// The greatest of the registered versions `versions` of crate `crate_name`;
/// entries that are not well-formed versions are skipped.
pub fn fetch_latest_version(crate_name: &str, versions: &Vec<String>) -> (r: Result<String, ResolveError>)
    ensures
        match r {
            Ok(v) => parseable(versions@.map_values(|s: String| s@)).len() > 0
                && v@ == greatest(parseable(versions@.map_values(|s: String| s@))),
            Err(e) => parseable(versions@.map_values(|s: String| s@)).len() == 0
                && (e matches ResolveError::UnknownCrate { name } && name@ == crate_name@),
        },
{
    let ghost vs = versions@.map_values(|s: String| s@);
    let mut found: Vec<Release> = Vec::new();
    let mut i: usize = 0;
    while i < versions.len()
        invariant
            i <= versions@.len(),
            vs == versions@.map_values(|s: String| s@),
            texts(found@) == parseable(vs.subrange(0, i as int)),
        decreases versions@.len() - i,
    {
        proof {
            assert(vs.subrange(0, i as int + 1).drop_last() =~= vs.subrange(0, i as int));
        }
        match parse_release(versions[i].as_str()) {
            Some(v) => {
                found.push(v);
                assert(texts(found@) =~= parseable(vs.subrange(0, i as int + 1)));
            },
            None => {},
        }
        i = i + 1;
    }
    assert(vs.subrange(0, versions@.len() as int) =~= vs);
    if found.len() == 0 {
        return Err(ResolveError::UnknownCrate { name: String::from_str(crate_name) });
    }
    let k = position_of_greatest(&found);
    Ok(found[k].text().clone())
}

/// The greatest of the registered versions `versions` of crate `dep_name`
/// that the requirement `dep_requirement` admits; entries that are not
/// well-formed versions are skipped.
pub fn fetch_compatible_version(dep_name: &str, dep_requirement: &str, versions: &Vec<String>) -> (r:
    Result<String, ResolveError>)
    ensures
        match r {
            Ok(v) => requirement_parses(dep_requirement@)
                && admitted(dep_requirement@, versions@.map_values(|s: String| s@)).len() > 0
                && v@ == greatest(admitted(dep_requirement@, versions@.map_values(|s: String| s@))),
            Err(ResolveError::RequirementParse { requirement }) => !requirement_parses(dep_requirement@)
                && requirement@ == dep_requirement@,
            Err(ResolveError::NoMatchingVersion { name, requirement }) => requirement_parses(dep_requirement@)
                && admitted(dep_requirement@, versions@.map_values(|s: String| s@)).len() == 0
                && name@ == dep_name@ && requirement@ == dep_requirement@,
            Err(ResolveError::UnknownCrate { .. }) => false,
        },
{
    let q = match parse_requirement(dep_requirement) {
        Some(q) => q,
        None => {
            return Err(ResolveError::RequirementParse { requirement: String::from_str(dep_requirement) });
        },
    };
    let ghost req = dep_requirement@;
    let ghost vs = versions@.map_values(|s: String| s@);
    let mut found: Vec<Release> = Vec::new();
    let mut i: usize = 0;
    while i < versions.len()
        invariant
            i <= versions@.len(),
            q@ == req,
            vs == versions@.map_values(|s: String| s@),
            texts(found@) == admitted(req, vs.subrange(0, i as int)),
        decreases versions@.len() - i,
    {
        proof {
            assert(vs.subrange(0, i as int + 1).drop_last() =~= vs.subrange(0, i as int));
        }
        match parse_release(versions[i].as_str()) {
            Some(v) => {
                if admits(&q, &v) {
                    found.push(v);
                    assert(texts(found@) =~= admitted(req, vs.subrange(0, i as int + 1)));
                }
            },
            None => {},
        }
        i = i + 1;
    }
    assert(vs.subrange(0, versions@.len() as int) =~= vs);
    if found.len() == 0 {
        return Err(
            ResolveError::NoMatchingVersion {
                name: String::from_str(dep_name),
                requirement: String::from_str(dep_requirement),
            },
        );
    }
    let k = position_of_greatest(&found);
    Ok(found[k].text().clone())
}

} // verus!

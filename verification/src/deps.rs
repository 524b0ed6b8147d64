// This Source Code Form is subject to the terms of the Mozilla Public
// License, v. 2.0. If a copy of the MPL was not distributed with this
// file, You can obtain one at http://mozilla.org/MPL/2.0/.
//
// Copyright (c) DUSK NETWORK. All rights reserved.

//! Git dependencies of the organization must name a release: a dependency
//! that asks for any version and comes from the organization's repositories
//! is accepted only with a tag that reads as a semantic version.

use crate::errors::{outcome_view, AnalyzeError, AnalyzeErrorView};
use crate::text::{same_text, starts_with, strip_prefix};
use vstd::prelude::*;
use vstd::std_specs::iter::IteratorSpec;

verus! {

/// The requirement that any version satisfies.
pub const WILDCARD: &'static str = "*";

/// Where the organization's repositories live. Sources that begin otherwise
/// are not looked at.
pub const TRUSTED_ORIGIN: &'static str = "git+https://github.com/dusk-network/";

/// A dependency as the package metadata gives it.
#[derive(Debug, Clone, PartialEq, Eq)]
pub struct Dependency {
    pub name: String,
    pub requirement: String,
    pub source: Option<String>,
}

/// A [`Dependency`] with its texts as sequences of characters.
pub struct DependencyView {
    pub name: Seq<char>,
    pub requirement: Seq<char>,
    pub source: Option<Seq<char>>,
}

impl View for Dependency {
    type V = DependencyView;

    open spec fn view(&self) -> DependencyView {
        DependencyView {
            name: self.name@,
            requirement: self.requirement@,
            source: match self.source {
                Some(source) => Some(source@),
                None => None,
            },
        }
    }
}

/// The query parameter that carries the tag.
pub open spec fn tag_parameter() -> Seq<char> {
    seq!['t', 'a', 'g', '=']
}

/// The tag without the first of these prefixes that it begins with: the
/// dependency's name and a hyphen, `v.`, `v`. A tag that begins with none of
/// them is left as it is.
pub open spec fn strip_tag_prefix(name: Seq<char>, tag: Seq<char>) -> Seq<char> {
    if name.push('-').is_prefix_of(tag) {
        tag.skip(name.len() as int + 1)
    } else if seq!['v', '.'].is_prefix_of(tag) {
        tag.skip(2)
    } else if seq!['v'].is_prefix_of(tag) {
        tag.skip(1)
    } else {
        tag
    }
}

/// A parameter that begins with `tag=` stands at the place `at` of the query:
/// at the start of the query or right after an `&`.
pub open spec fn tag_at(query: Seq<char>, at: int) -> bool {
    &&& 0 <= at <= query.len()
    &&& (at == 0 || query[at - 1] == '&')
    &&& tag_parameter().is_prefix_of(query.skip(at))
}

/// The first parameter of the query that begins with `tag=` stands at `at`.
pub open spec fn first_tag_at(query: Seq<char>, at: int) -> bool {
    tag_at(query, at) && forall|before: int| 0 <= before < at ==> !tag_at(query, before)
}

/// The tag of a query: what follows `tag=` in the first parameter that
/// begins with `tag=`, up to the end of the query. A query without such a
/// parameter has no tag.
pub open spec fn tag_value(query: Seq<char>) -> Option<Seq<char>> {
    if exists|at: int| first_tag_at(query, at) {
        Some(query.skip((choose|at: int| first_tag_at(query, at)) + 4))
    } else {
        None
    }
}

/// The version token of a query: none without a query or without a tag in
/// it, otherwise the tag, stripped.
pub open spec fn tag_version(name: Seq<char>, query: Option<Seq<char>>) -> Option<Seq<char>> {
    match query {
        Some(text) => match tag_value(text) {
            Some(tag) => Some(strip_tag_prefix(name, tag)),
            None => None,
        },
        None => None,
    }
}

/// The characters of an optional text.
pub open spec fn text_view(text: Option<&str>) -> Option<Seq<char>> {
    match text {
        Some(text) => Some(text@),
        None => None,
    }
}

/// Where the first parameter with `tag=` stands, there the tag begins four
/// characters on.
pub proof fn lemma_tag_value_at(query: Seq<char>, at: int)
    requires
        first_tag_at(query, at),
    ensures
        tag_value(query) == Some(query.skip(at + 4)),
{
    let chosen = choose|at: int| first_tag_at(query, at);
    assert(chosen == at);
}

/// A query has no tag exactly when none of its parameters begins with
/// `tag=`.
pub proof fn lemma_tag_value_none(query: Seq<char>)
    ensures
        tag_value(query) is None <==> forall|at: int| !tag_at(query, at),
{
    if exists|at: int| tag_at(query, at) {
        lemma_first_tag_exists(query, choose|at: int| tag_at(query, at));
    }
}

/// Before a parameter with `tag=` there is a first one.
pub proof fn lemma_first_tag_exists(query: Seq<char>, at: int)
    requires
        tag_at(query, at),
    ensures
        exists|first: int| first_tag_at(query, first),
    decreases at,
{
    if exists|before: int| 0 <= before < at && tag_at(query, before) {
        let earlier = choose|before: int| 0 <= before < at && tag_at(query, before);
        lemma_first_tag_exists(query, earlier);
    } else {
        assert(first_tag_at(query, at));
    }
}

/// The tag of the query: what follows `tag=` in the first parameter that
/// begins with it, or nothing where no parameter does.
pub fn get_tag_from_query<'a>(query: &'a str) -> (tag: Option<&'a str>)
    ensures
        text_view(tag) == tag_value(query@),
{
    let len = query.unicode_len();
    let mut chars = query.chars();
    let mut at: usize = 0;
    let mut starts = true;
    loop
        invariant
            len == query@.len(),
            at <= len,
            chars.remaining() == query@.skip(at as int),
            starts == (at == 0 || query@[at - 1] == '&'),
            forall|before: int| 0 <= before < at ==> !tag_at(query@, before),
        decreases len - at,
    {
        if starts {
            let rest = query.substring_char(at, len);
            proof {
                reveal_strlit("tag=");
            }
            match strip_prefix(rest, "tag=") {
                Some(tag) => {
                    proof {
                        lemma_tag_value_at(query@, at as int);
                    }
                    return Some(tag);
                },
                None => {},
            }
        }
        match chars.next() {
            Some(c) => {
                starts = c == '&';
                at = at + 1;
            },
            None => {
                proof {
                    lemma_tag_value_none(query@);
                }
                return None;
            },
        }
    }
}

/// The version token that the query of a source names for the dependency
/// `name`, if it names one.
pub fn get_tag_version_from_query<'a>(name: &str, query: Option<&'a str>) -> (token: Option<
    &'a str,
>)
    ensures
        text_view(token) == tag_version(name@, text_view(query)),
{
    proof {
        reveal_strlit("-");
        reveal_strlit("v.");
        reveal_strlit("v");
    }
    let tag = match query {
        Some(text) => get_tag_from_query(text),
        None => None,
    };
    match tag {
        Some(tag) => {
            let named = name.to_owned().concat("-");
            match strip_prefix(tag, named.as_str()) {
                Some(rest) => Some(rest),
                None => match strip_prefix(tag, "v.") {
                    Some(rest) => Some(rest),
                    None => match strip_prefix(tag, "v") {
                        Some(rest) => Some(rest),
                        None => Some(tag),
                    },
                },
            }
        },
        None => None,
    }
}

/// Whether `semver::Version::parse` accepts the text.
pub uninterp spec fn semver_parses(text: Seq<char>) -> bool;

/// What `url::Url::parse` and then `url::Url::query` make of a source: `None`
/// where the source is no absolute URL, `Some(None)` where the URL has no
/// query, otherwise the query.
pub uninterp spec fn url_query(source: Seq<char>) -> Option<Option<Seq<char>>>;

/// The characters of what [`url_query`] names.
pub open spec fn query_view(query: Option<Option<String>>) -> Option<Option<Seq<char>>> {
    match query {
        Some(Some(text)) => Some(Some(text@)),
        Some(None) => Some(None),
        None => None,
    }
}

/// Asks `semver::Version::parse` whether the text is a semantic version. The
/// answer is taken as a function of the text alone; nothing more is claimed
/// of it.
#[verifier::external_body]
fn parses_as_version(text: &str) -> (accepted: bool)
    ensures
        accepted == semver_parses(text@),
{
    semver::Version::parse(text).is_ok()
}

/// Parses the source with `url::Url::parse` and hands out the query that
/// `url::Url::query` finds in it. The answer is taken as a function of the
/// source alone; nothing more is claimed of it.
#[verifier::external_body]
fn query_of_source(source: &str) -> (query: Option<Option<String>>)
    ensures
        query_view(query) == url_query(source@),
{
    match url::Url::parse(source) {
        Ok(parsed) => Some(parsed.query().map(str::to_owned)),
        Err(_) => None,
    }
}

/// A source is pinned for the dependency `name` when it parses as a URL whose
/// query names a tag that, stripped, is a semantic version.
pub open spec fn pinned_by_tag(name: Seq<char>, source: Seq<char>) -> bool {
    match url_query(source) {
        Some(query) => match tag_version(name, query) {
            Some(token) => semver_parses(token),
            None => false,
        },
        None => false,
    }
}

impl DependencyView {
    /// The dependency asks for any version and comes from the organization's
    /// repositories.
    pub open spec fn unpinned(self) -> bool {
        &&& self.requirement == WILDCARD@
        &&& self.source matches Some(source) && TRUSTED_ORIGIN@.is_prefix_of(source)
    }

    /// The dependency is unpinned and its source does not pin it either.
    pub open spec fn invalid(self) -> bool {
        self.unpinned() && !pinned_by_tag(self.name, self.source->0)
    }
}

/// The version token under what the parser made of a source: none where the
/// source did not parse, otherwise what the query names for `name`.
pub fn token_of_query<'a>(name: &str, parsed: &'a Option<Option<String>>) -> (token: Option<
    &'a str,
>)
    ensures
        text_view(token) == match query_view(*parsed) {
            Some(query) => tag_version(name@, query),
            None => None,
        },
{
    match parsed {
        Some(query) => {
            let query: Option<&str> = match query {
                Some(text) => Some(text.as_str()),
                None => None,
            };
            get_tag_version_from_query(name, query)
        },
        None => None,
    }
}

/// Whether there is a token and it reads as a semantic version.
pub fn token_is_version(token: Option<&str>) -> (accepted: bool)
    ensures
        accepted == match text_view(token) {
            Some(text) => semver_parses(text),
            None => false,
        },
{
    match token {
        Some(text) => parses_as_version(text),
        None => false,
    }
}

/// Whether the query of `source` names a valid version tag for `name`.
pub fn has_version_tag(name: &str, source: &str) -> (pinned: bool)
    ensures
        pinned == pinned_by_tag(name@, source@),
{
    let parsed = query_of_source(source);
    token_is_version(token_of_query(name, &parsed))
}

impl Dependency {
    /// Whether the dependency asks for any version and comes from the
    /// organization's repositories.
    pub fn is_unpinned(&self) -> (unpinned: bool)
        ensures
            unpinned == self@.unpinned(),
    {
        same_text(self.requirement.as_str(), WILDCARD) && match &self.source {
            Some(source) => starts_with(source.as_str(), TRUSTED_ORIGIN),
            None => false,
        }
    }

    /// Whether the dependency is unpinned and carries no valid version tag.
    pub fn is_invalid(&self) -> (invalid: bool)
        ensures
            invalid == self@.invalid(),
    {
        if self.is_unpinned() {
            match &self.source {
                Some(source) => !has_version_tag(self.name.as_str(), source.as_str()),
                None => false,
            }
        } else {
            false
        }
    }
}

/// The invalid ones among `deps`, in their order.
pub open spec fn invalid_among(deps: Seq<Dependency>) -> Seq<Dependency> {
    deps.filter(|dep: Dependency| dep@.invalid())
}

/// The dependencies that are unpinned and carry no valid version tag, in the
/// order of `deps`.
pub fn get_invalid_git_dusk_deps(deps: &[Dependency]) -> (invalid: Vec<&Dependency>)
    ensures
        invalid@.map_values(|dep: &Dependency| *dep) == invalid_among(deps@),
{
    let ghost flagged = |dep: Dependency| dep@.invalid();
    let mut invalid: Vec<&Dependency> = Vec::new();
    let mut at: usize = 0;
    while at < deps.len()
        invariant
            at <= deps.len(),
            flagged == |dep: Dependency| dep@.invalid(),
            invalid@.map_values(|dep: &Dependency| *dep) == deps@.take(at as int).filter(flagged),
        decreases deps.len() - at,
    {
        let dep = &deps[at];
        if dep.is_invalid() {
            invalid.push(dep);
        }
        proof {
            deps@.take(at as int).lemma_filter_push(*dep, flagged);
            assert(deps@.take(at as int + 1) =~= deps@.take(at as int).push(*dep));
        }
        at = at + 1;
    }
    proof {
        assert(deps@.take(at as int) =~= deps@);
    }
    invalid
}

/// Success without invalid dependencies, otherwise their number.
pub open spec fn dependency_outcome(invalid: nat) -> Result<(), AnalyzeErrorView> {
    if invalid == 0 {
        Ok(())
    } else {
        Err(AnalyzeErrorView::InvalidDependencies(invalid as usize))
    }
}

/// The verdict on a package of which `invalid` dependencies were found
/// invalid.
pub fn report_invalid(invalid: usize) -> (outcome: Result<(), AnalyzeError>)
    ensures
        outcome_view(outcome) == dependency_outcome(invalid as nat),
{
    if invalid > 0 {
        Err(AnalyzeError::InvalidDependencies(invalid))
    } else {
        Ok(())
    }
}

/// Checks the dependencies of a package: fails with the number of invalid
/// ones if there is any.
pub fn analyze_deps(deps: &[Dependency]) -> (outcome: Result<(), AnalyzeError>)
    ensures
        outcome_view(outcome) == dependency_outcome(invalid_among(deps@).len()),
{
    let invalid = get_invalid_git_dusk_deps(deps);
    report_invalid(invalid.len())
}

/// The tag begins with one of the prefixes that stripping removes.
pub open spec fn has_tag_prefix(name: Seq<char>, tag: Seq<char>) -> bool {
    ||| name.push('-').is_prefix_of(tag)
    ||| seq!['v', '.'].is_prefix_of(tag)
    ||| seq!['v'].is_prefix_of(tag)
}

/// An unpinned dependency is invalid exactly when its source yields no query
/// with a parameter that begins with `tag=`, or when the tag, stripped, is no
/// semantic version.
pub proof fn lemma_unpinned_invalid_iff(dep: DependencyView)
    requires
        dep.unpinned(),
    ensures
        dep.invalid() <==> match url_query(dep.source->0) {
            Some(Some(query)) => match tag_value(query) {
                Some(tag) => !semver_parses(strip_tag_prefix(dep.name, tag)),
                None => true,
            },
            _ => true,
        },
{
}

/// A dependency with any requirement but the wildcard is not invalid,
/// whatever its source.
pub proof fn lemma_pinned_requirement_is_valid(dep: DependencyView)
    requires
        dep.requirement != WILDCARD@,
    ensures
        !dep.invalid(),
{
}

/// A dependency without a source, or with a source outside the
/// organization's repositories, is not invalid, whatever its requirement.
pub proof fn lemma_foreign_source_is_valid(dep: DependencyView)
    requires
        dep.source matches Some(source) ==> !TRUSTED_ORIGIN@.is_prefix_of(source),
    ensures
        !dep.invalid(),
{
}

/// Every dependency among the invalid ones is one of `deps`, asks for any
/// version, comes from the organization's repositories, and is not pinned by
/// its source; and every such dependency of `deps` is among them.
pub proof fn lemma_invalid_among(deps: Seq<Dependency>)
    ensures
        forall|i: int|
            0 <= i < invalid_among(deps).len() ==> {
                &&& deps.contains(#[trigger] invalid_among(deps)[i])
                &&& invalid_among(deps)[i]@.requirement == WILDCARD@
                &&& invalid_among(deps)[i]@.source is Some
                &&& TRUSTED_ORIGIN@.is_prefix_of(invalid_among(deps)[i]@.source->0)
                &&& invalid_among(deps)[i]@.invalid()
            },
        forall|i: int|
            0 <= i < deps.len() && (#[trigger] deps[i])@.invalid() ==> invalid_among(
                deps,
            ).contains(deps[i]),
{
    let flagged = |dep: Dependency| dep@.invalid();
    assert forall|i: int| 0 <= i < invalid_among(deps).len() implies {
        &&& deps.contains(#[trigger] invalid_among(deps)[i])
        &&& invalid_among(deps)[i]@.invalid()
    } by {
        deps.lemma_filter_pred(flagged, i);
        deps.lemma_filter_contains_rev(flagged, invalid_among(deps)[i]);
    }
    assert forall|i: int|
        0 <= i < deps.len() && (#[trigger] deps[i])@.invalid() implies invalid_among(
        deps,
    ).contains(deps[i]) by {
        deps.lemma_filter_contains(flagged, i);
    }
}

/// The name and a hyphen go first: a tag made of them and a rest strips to
/// that rest, whether or not it also begins with `v`.
pub proof fn lemma_strip_name(name: Seq<char>, rest: Seq<char>)
    ensures
        strip_tag_prefix(name, name.push('-') + rest) == rest,
{
}

/// `v.` goes before `v`: a tag made of `v.` and a rest strips to that rest,
/// not to the rest behind a dot, unless the name and a hyphen go first.
pub proof fn lemma_strip_v_dot(name: Seq<char>, rest: Seq<char>)
    requires
        !name.push('-').is_prefix_of(seq!['v', '.'] + rest),
    ensures
        strip_tag_prefix(name, seq!['v', '.'] + rest) == rest,
{
}

/// A tag made of `v` and a rest strips to that rest, unless one of the
/// prefixes before `v` goes first.
pub proof fn lemma_strip_v(name: Seq<char>, rest: Seq<char>)
    requires
        !name.push('-').is_prefix_of(seq!['v'] + rest),
        !seq!['v', '.'].is_prefix_of(seq!['v'] + rest),
    ensures
        strip_tag_prefix(name, seq!['v'] + rest) == rest,
{
}

/// Stripping removes one prefix and no more: to strip again changes nothing
/// exactly when what was left begins with none of the prefixes. A tag that
/// begins with none of them is left as it is.
pub proof fn lemma_strip_again(name: Seq<char>, tag: Seq<char>)
    ensures
        !has_tag_prefix(name, tag) ==> strip_tag_prefix(name, tag) == tag,
        strip_tag_prefix(name, strip_tag_prefix(name, tag)) == strip_tag_prefix(name, tag)
            <==> !has_tag_prefix(name, strip_tag_prefix(name, tag)),
{
}

} // verus!

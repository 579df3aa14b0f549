use vstd::prelude::*;
use crate::sources::{join_fragments, joined, views};
use crate::text::{has_partial, has_partial_call};
use crate::yaml::yaml_valid;
use handlebars::Handlebars;

verus! {

/// Why template resolution stopped without a result.
#[derive(Debug, Clone, PartialEq, Eq)]
pub enum ResolveError {
    /// The text is not valid YAML.
    Yaml(String),
    /// A template expression could not be evaluated.
    Template(String),
    /// No fixed point was reached within the allowed number of passes.
    NotConverged,
}

/// One resolution pass over a YAML `text` without partial calls: `None`
/// where one of its template expressions fails, else the text with every
/// expression evaluated against the data that `text` itself denotes.
pub uninterp spec fn pass_of(text: Seq<char>) -> Option<Seq<char>>;

/// Relies on serde_yaml's `from_str` into a `Value` and on handlebars'
/// `Handlebars::render_template`: the text is read as YAML, which fails
/// exactly where `yaml_valid` does not hold, and then rendered as a template
/// against that value. Partial calls are left out: an inline partial that
/// calls itself recurses without end.
#[verifier::external_body]
fn render_pass(text: &String) -> (r: Result<String, ResolveError>)
    requires
        !has_partial(text@),
    ensures
        !yaml_valid(text@) ==> r matches Err(ResolveError::Yaml(_)),
        yaml_valid(text@) ==> match r {
            Ok(t) => pass_of(text@) == Some(t@),
            Err(e) => pass_of(text@) is None && e is Template,
        },
{
    let data: serde_yaml::Value = serde_yaml::from_str(text).map_err(
        |e| ResolveError::Yaml(e.to_string()),
    )?;
    Handlebars::new().render_template(text, &data).map_err(|e| ResolveError::Template(e.to_string()))
}

/// How resolution of a text ends.
pub ghost enum Resolution {
    /// A pass left this text unchanged.
    Settled(Seq<char>),
    /// A text to be resolved is not YAML.
    NotYaml,
    /// A text to be resolved holds a partial call, or one of its template
    /// expressions fails.
    BadTemplate,
    /// The passes allowed were used up before a pass left its text unchanged.
    Unsettled,
}

/// Resolution of `text` with at most `passes` passes: each pass is applied to
/// the text that the one before produced, until one returns its input.
pub open spec fn resolution(text: Seq<char>, passes: nat) -> Resolution
    decreases passes,
{
    if passes == 0 {
        Resolution::Unsettled
    } else if has_partial(text) {
        Resolution::BadTemplate
    } else if !yaml_valid(text) {
        Resolution::NotYaml
    } else {
        match pass_of(text) {
            None => Resolution::BadTemplate,
            Some(next) => if next == text {
                Resolution::Settled(text)
            } else {
                resolution(next, (passes - 1) as nat)
            },
        }
    }
}

/// What `resolve` returns for a given resolution.
pub open spec fn resolve_result_matches(
    res: Resolution,
    r: Result<String, ResolveError>,
) -> bool {
    match res {
        Resolution::Settled(t) => r matches Ok(s) && s@ == t,
        Resolution::NotYaml => r matches Err(ResolveError::Yaml(_)),
        Resolution::BadTemplate => r matches Err(ResolveError::Template(_)),
        Resolution::Unsettled => r == Err::<String, ResolveError>(ResolveError::NotConverged),
    }
}

/// Substitutes the template expressions of `text` against the data it
/// denotes, pass after pass, until a pass leaves the text unchanged, and
/// returns that text. `max_passes` bounds the number of passes; a text that
/// has not settled by then is refused as a configuration that does not
/// converge.
pub fn resolve(text: String, max_passes: u64) -> (r: Result<String, ResolveError>)
    ensures
        resolve_result_matches(resolution(text@, max_passes as nat), r),
{
    let mut current = text;
    let mut left: u64 = max_passes;
    while left > 0
        invariant
            resolution(text@, max_passes as nat) == resolution(current@, left as nat),
        decreases left,
    {
        if has_partial_call(&current) {
            return Err(ResolveError::Template("partial calls are not supported".to_owned()));
        }
        let next = match render_pass(&current) {
            Ok(t) => t,
            Err(e) => return Err(e),
        };
        if next == current {
            return Ok(current);
        }
        current = next;
        left = left - 1;
    }
    Err(ResolveError::NotConverged)
}

/// Joins the fragments (each preceded by a newline) and resolves the result.
pub fn resolve_fragments(texts: &Vec<String>, max_passes: u64) -> (r: Result<
    String,
    ResolveError,
>)
    ensures
        resolve_result_matches(resolution(joined(views(texts@)), max_passes as nat), r),
{
    resolve(join_fragments(texts), max_passes)
}

/// A settled text is a fixed point: it is YAML without partial calls, and a
/// pass over it returns it unchanged.
pub proof fn lemma_settled_is_fixed_point(text: Seq<char>, passes: nat)
    requires
        resolution(text, passes) is Settled,
    ensures
        pass_of(resolution(text, passes)->Settled_0) == Some(resolution(text, passes)->Settled_0),
        !has_partial(resolution(text, passes)->Settled_0),
        yaml_valid(resolution(text, passes)->Settled_0),
    decreases passes,
{
    if pass_of(text) != Some(text) {
        lemma_settled_is_fixed_point(pass_of(text).unwrap(), (passes - 1) as nat);
    }
}

/// Resolution is idempotent: resolving a text that resolution returned, with
/// at least one pass allowed, returns that same text.
pub proof fn lemma_resolution_idempotent(text: Seq<char>, passes: nat, again: nat)
    requires
        resolution(text, passes) is Settled,
        again >= 1,
    ensures
        resolution(resolution(text, passes)->Settled_0, again) == resolution(text, passes),
{
    lemma_settled_is_fixed_point(text, passes);
}

} // verus!

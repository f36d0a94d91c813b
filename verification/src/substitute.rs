//! Substitution of `$NAME`, `${NAME}` and `${NAME:default}` variables in
//! text, with escapes by backslash.

use vstd::prelude::*;

use crate::pairs::pairs_map;

verus! {

/// The text that `subst::substitute` makes of `template` with the variables
/// `vars`; `None` when it refuses the template (a malformed variable, an
/// unknown variable without default, a bad escape).
pub uninterp spec fn substituted(template: Seq<char>, vars: Map<Seq<char>, Seq<char>>) -> Option<
    Seq<char>,
>;

/// Whether a text holds neither a `$` nor a backslash, so that substitution
/// leaves it as it is.
pub open spec fn is_plain_text(s: Seq<char>) -> bool {
    forall|i: int| 0 <= i < s.len() ==> s[i] != '$' && s[i] != '\\'
}

/// `subst::substitute` with the variables given as name-value pairs (a later
/// pair overriding an earlier one, as when they are collected into a map).
/// A text without `$` and backslash comes back unchanged. When substitution
/// fails, the error's text is returned; what it says is not stated.
#[verifier::external_body]
pub(crate) fn substitute(template: &str, vars: &Vec<(String, String)>) -> (r: Result<String, String>)
    ensures
        r is Ok <==> substituted(template@, pairs_map(vars@)) is Some,
        r is Ok ==> substituted(template@, pairs_map(vars@)) == Some(r->Ok_0@),
        is_plain_text(template@) ==> r is Ok && r->Ok_0@ == template@,
{
    let map: std::collections::HashMap<String, String> = vars.iter().cloned().collect();
    match subst::substitute(template, &map) {
        Ok(text) => Ok(text),
        Err(e) => Err(e.to_string()),
    }
}

} // verus!

//! Spaces: the typed creation payload, the space-name rule checked at
//! ingress, and the JSON shapes in which spaces are reported.

use vstd::prelude::*;
use crate::json::find_object_field;
use crate::json::string_field_content;
use crate::text::chars_vec;
use crate::text::parse_u64_range;

verus! {

/// The part of a space-creation payload that the core models: the remaining
/// index configuration travels with the command but does not steer the core.
pub struct SpaceConfig {
    pub name: Vec<char>,
    pub dimension: u64,
    pub metric: Vec<char>,
}

#[verifier::ext_equal]
pub struct SpaceConfigView {
    pub name: Seq<char>,
    pub dimension: u64,
    pub metric: Seq<char>,
}

impl View for SpaceConfig {
    type V = SpaceConfigView;

    open spec fn view(&self) -> SpaceConfigView {
        SpaceConfigView { name: self.name@, dimension: self.dimension, metric: self.metric@ }
    }
}

/// Space names admit ASCII letters, digits, `_` and `-`, and nothing else.
pub open spec fn is_name_char(c: char) -> bool {
    ('A' <= c && c <= 'Z') || ('a' <= c && c <= 'z') || ('0' <= c && c <= '9') || c == '_' || c
        == '-'
}

/// A valid space name is a nonempty run of name characters.
pub open spec fn valid_space_name(s: Seq<char>) -> bool {
    s.len() > 0 && forall|i: int| 0 <= i < s.len() ==> is_name_char(#[trigger] s[i])
}

/// Decides the space-name rule.
pub fn is_valid_space_name(v: &Vec<char>) -> (r: bool)
    ensures
        r == valid_space_name(v@),
{
    if v.len() == 0 {
        return false;
    }
    let n: usize = v.len();
    let mut i: usize = 0;
    while i < n
        invariant
            n == v@.len(),
            i <= n,
            forall|j: int| 0 <= j < i ==> is_name_char(#[trigger] v@[j]),
        decreases n - i,
    {
        let c = v[i];
        let ok = ('A' <= c && c <= 'Z') || ('a' <= c && c <= 'z') || ('0' <= c && c <= '9') || c
            == '_' || c == '-';
        if !ok {
            return false;
        }
        i += 1;
    }
    true
}

/// What a space-creation payload reads as: the required string `name`,
/// the `dimension` (0 when absent or not a plain number), and the `metric`
/// (`l2` when absent or not a string).
pub open spec fn spec_parse_space_config(v: Seq<char>) -> Option<SpaceConfigView> {
    match crate::json::spec_string_field(v, "name"@) {
        None => None,
        Some(name) => Some(
            SpaceConfigView {
                name,
                dimension: crate::json::spec_u64_field_or(v, "dimension"@, 0),
                metric: match crate::json::spec_string_field(v, "metric"@) {
                    Some(m) => m,
                    None => "l2"@,
                },
            },
        ),
    }
}

/// Reads the fields the core models out of a space-creation payload.
/// The `name` field is required and must be a string; a missing `dimension`
/// is 0 and a missing `metric` is `l2`.
pub fn parse_space_config(v: &Vec<char>) -> (r: Option<SpaceConfig>)
    ensures
        match r {
            Some(cfg) => spec_parse_space_config(v@) == Some(cfg@),
            None => spec_parse_space_config(v@) is None,
        },
{
    let name_key = chars_vec("name");
    let name = match find_object_field(v, &name_key) {
        Some((s, e)) => match string_field_content(v, s, e) {
            Some(content) => content,
            None => {
                return None;
            },
        },
        None => {
            return None;
        },
    };
    let dim_key = chars_vec("dimension");
    let dimension: u64 = match find_object_field(v, &dim_key) {
        Some((s, e)) => match parse_u64_range(v, s, e) {
            Some(n) => n,
            None => 0,
        },
        None => 0,
    };
    let metric_key = chars_vec("metric");
    let metric = match find_object_field(v, &metric_key) {
        Some((s, e)) => match string_field_content(v, s, e) {
            Some(content) => content,
            None => chars_vec("l2"),
        },
        None => chars_vec("l2"),
    };
    Some(SpaceConfig { name, dimension, metric })
}

} // verus!

//! Versions: the typed creation payload read out of a version request body.

use vstd::prelude::*;
use crate::json::extent_is;
use crate::json::find_object_field;
use crate::json::string_field_content;
use crate::text::chars_vec;

verus! {

/// What a version-creation request carries.
pub struct VersionPayload {
    pub name: Vec<char>,
    pub description: Vec<char>,
    pub tag: Vec<char>,
    pub is_default: bool,
}

#[verifier::ext_equal]
pub struct VersionPayloadView {
    pub name: Seq<char>,
    pub description: Seq<char>,
    pub tag: Seq<char>,
    pub is_default: bool,
}

impl View for VersionPayload {
    type V = VersionPayloadView;

    open spec fn view(&self) -> VersionPayloadView {
        VersionPayloadView {
            name: self.name@,
            description: self.description@,
            tag: self.tag@,
            is_default: self.is_default,
        }
    }
}

/// What a version-creation payload reads as: the required string `name`,
/// `description` and `tag` (empty when absent or not strings), and
/// `is_default` (false unless the field spells `true`).
pub open spec fn spec_parse_version_payload(v: Seq<char>) -> Option<VersionPayloadView> {
    match crate::json::spec_string_field(v, "name"@) {
        None => None,
        Some(name) => Some(
            VersionPayloadView {
                name,
                description: match crate::json::spec_string_field(v, "description"@) {
                    Some(d) => d,
                    None => Seq::<char>::empty(),
                },
                tag: match crate::json::spec_string_field(v, "tag"@) {
                    Some(t) => t,
                    None => Seq::<char>::empty(),
                },
                is_default: match crate::json::find_field_spec(v, "is_default"@) {
                    Some((s, e)) => v.subrange(s, e) == "true"@,
                    None => false,
                },
            },
        ),
    }
}

/// Reads a version-creation payload. `name` is required; `description` and
/// `tag` default to empty; `is_default` defaults to false.
pub fn parse_version_payload(v: &Vec<char>) -> (r: Option<VersionPayload>)
    ensures
        match r {
            Some(vp) => spec_parse_version_payload(v@) == Some(vp@),
            None => spec_parse_version_payload(v@) is None,
        },
{
    let name_key = chars_vec("name");
    let name = match find_object_field(v, &name_key) {
        Some((s, e)) => match string_field_content(v, s, e) {
            Some(content) => content,
            None => {
                return None;
            },
        },
        None => {
            return None;
        },
    };
    let desc_key = chars_vec("description");
    let description = match find_object_field(v, &desc_key) {
        Some((s, e)) => match string_field_content(v, s, e) {
            Some(content) => content,
            None => Vec::new(),
        },
        None => Vec::new(),
    };
    let tag_key = chars_vec("tag");
    let tag = match find_object_field(v, &tag_key) {
        Some((s, e)) => match string_field_content(v, s, e) {
            Some(content) => content,
            None => Vec::new(),
        },
        None => Vec::new(),
    };
    let def_key = chars_vec("is_default");
    let is_default = match find_object_field(v, &def_key) {
        Some((s, e)) => extent_is(v, s, e, "true"),
        None => false,
    };
    Some(VersionPayload { name, description, tag, is_default })
}

} // verus!

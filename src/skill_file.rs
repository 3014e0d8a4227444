//! Turning the fields read from a definition file and its overlay descriptor
//! into a skill record.

use vstd::prelude::*;

use crate::skills::{SkillInterface, SkillMetadata, SkillScope};
use crate::text::{trim, trim_optional, trimmed, trimmed_non_empty};

verus! {

/// A required front-matter field.
#[derive(Clone, Copy, Debug, PartialEq, Eq, Structural)]
pub enum SkillField {
    Name,
    Description,
}

impl SkillField {
    /// The key of the field in the front matter.
    pub fn key(self) -> (r: &'static str)
        ensures
            self == SkillField::Name ==> r@ == seq!['n', 'a', 'm', 'e'],
            self == SkillField::Description ==> r@ == seq!['d', 'e', 's', 'c', 'r', 'i', 'p', 't', 'i', 'o', 'n'],
    {
        proof {
            reveal_strlit("name");
            reveal_strlit("description");
        }
        match self {
            SkillField::Name => "name",
            SkillField::Description => "description",
        }
    }
}

/// Why a definition file was skipped.
#[derive(Clone, Debug, PartialEq, Eq)]
pub enum SkillParseError {
    /// The file could not be read; the reason as the reader reported it.
    Read(String),
    /// No front-matter block delimited by `---` lines.
    MissingFrontmatter,
    /// The front matter is not the expected mapping; the parser's reason.
    InvalidYaml(String),
    /// A required field is empty once trimmed.
    MissingField(SkillField),
}

/// The fields of a front-matter block, as the mapping held them.
#[derive(Clone, Debug, PartialEq, Eq)]
pub struct SkillFrontmatter {
    pub name: String,
    pub description: String,
    /// `metadata.short-description`.
    pub short_description: Option<String>,
}

/// The optional field trimmed, kept only when something remains.
pub open spec fn trimmed_field(s: Option<String>) -> Option<Seq<char>> {
    match s {
        Some(v) => trimmed_non_empty(v@),
        None => None,
    }
}

/// The view of an optional string.
pub open spec fn opt_view(s: Option<String>) -> Option<Seq<char>> {
    match s {
        Some(v) => Some(v@),
        None => None,
    }
}

/// Builds the record for a definition file from its front-matter fields.
/// `name` and `description` must not be blank; all three texts are trimmed,
/// and a blank short description is dropped.
pub fn skill_from_frontmatter(
    fm: &SkillFrontmatter,
    path: String,
    scope: SkillScope,
    interface: Option<SkillInterface>,
) -> (r: Result<SkillMetadata, SkillParseError>)
    ensures
        trimmed(fm.name@).len() == 0 ==> r == Err::<SkillMetadata, SkillParseError>(
            SkillParseError::MissingField(SkillField::Name),
        ),
        trimmed(fm.name@).len() > 0 && trimmed(fm.description@).len() == 0 ==> r == Err::<
            SkillMetadata,
            SkillParseError,
        >(SkillParseError::MissingField(SkillField::Description)),
        trimmed(fm.name@).len() > 0 && trimmed(fm.description@).len() > 0 ==> r is Ok,
        match r {
            Ok(m) => {
                &&& m.name@ == trimmed(fm.name@)
                &&& m.description@ == trimmed(fm.description@)
                &&& opt_view(m.short_description) == trimmed_field(fm.short_description)
                &&& m.interface == interface
                &&& m.path == path
                &&& m.scope == scope
            },
            Err(_) => true,
        },
{
    let name = trim(fm.name.as_str());
    if name.is_empty() {
        return Err(SkillParseError::MissingField(SkillField::Name));
    }
    let description = trim(fm.description.as_str());
    if description.is_empty() {
        return Err(SkillParseError::MissingField(SkillField::Description));
    }
    let short_description = trim_optional(&fm.short_description);
    Ok(
        SkillMetadata {
            name: name.to_owned(),
            description: description.to_owned(),
            short_description,
            interface,
            path,
            scope,
        },
    )
}

/// The display overrides of an overlay descriptor's `interface` section: each
/// value trimmed and dropped when blank; no overlay when neither remains.
pub fn interface_from_overlay(display_name: &Option<String>, short_description: &Option<String>) -> (r:
    Option<SkillInterface>)
    ensures
        trimmed_field(*display_name) is None && trimmed_field(*short_description) is None <==> r is None,
        match r {
            Some(i) => opt_view(i.display_name) == trimmed_field(*display_name) && opt_view(
                i.short_description,
            ) == trimmed_field(*short_description),
            None => true,
        },
{
    let display_name = trim_optional(display_name);
    let short_description = trim_optional(short_description);
    if display_name.is_none() && short_description.is_none() {
        None
    } else {
        Some(SkillInterface { display_name, short_description })
    }
}

} // verus!

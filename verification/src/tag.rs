//! Language tags: the keys under which output is filed.

use crate::text::str_eq;
use vstd::prelude::*;

verus! {

/// Whether `tag` is a well-formed language tag in the sense of RFC 5646,
/// section 2.2.9, as `oxilangtag` decides it.
pub uninterp spec fn well_formed_tag(tag: Seq<char>) -> bool;

/// `oxilangtag::LanguageTag::parse`: whether it accepts `tag`. The parser
/// checks the tag and leaves its text as it is.
#[verifier::external_body]
fn parses_as_tag(tag: &str) -> (accepted: bool)
    ensures
        accepted == well_formed_tag(tag@),
{
    oxilangtag::LanguageTag::parse(tag).is_ok()
}

/// A language tag that was checked when it was made.
#[derive(Debug)]
pub struct LanguageTag {
    tag: String,
}

impl View for LanguageTag {
    type V = Seq<char>;

    closed spec fn view(&self) -> Seq<char> {
        self.tag@
    }
}

impl LanguageTag {
    #[verifier::type_invariant]
    spec fn checked(self) -> bool {
        well_formed_tag(self.tag@)
    }

    /// The tag with the text `tag`, where that text is well formed. Case is
    /// kept as it is written.
    pub fn parse(tag: String) -> (parsed: Option<LanguageTag>)
        ensures
            parsed is Some <==> well_formed_tag(tag@),
            parsed is Some ==> parsed->Some_0@ == tag@,
    {
        if parses_as_tag(tag.as_str()) {
            Some(LanguageTag { tag })
        } else {
            None
        }
    }

    /// The text of the tag.
    pub fn as_str(&self) -> (text: &str)
        ensures
            text@ == self@,
            well_formed_tag(text@),
    {
        proof {
            use_type_invariant(self);
        }
        self.tag.as_str()
    }

    /// The text of the tag, which the tag gives up.
    pub fn into_inner(self) -> (text: String)
        ensures
            text@ == self@,
            well_formed_tag(text@),
    {
        proof {
            use_type_invariant(&self);
        }
        self.tag
    }

    /// Whether both tags have the same text.
    pub fn same_as(&self, other: &LanguageTag) -> (same: bool)
        ensures
            same == (self@ == other@),
    {
        str_eq(self.tag.as_str(), other.tag.as_str())
    }
}

} // verus!

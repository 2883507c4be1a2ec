//! The languages that the pipeline writes.

use crate::text::str_eq;
use vstd::prelude::*;

verus! {

/// Number of languages in [`LANG`].
pub const NB_LANG: usize = 176;

/// The codes of the supported languages, in the order of their writers.
pub const LANG: [&'static str; 176] = [
    "af", "als", "am", "an", "ar", "arz", "as", "ast", "av", "az", "azb",
    "ba", "bar", "bcl", "be", "bg", "bh", "bn", "bo", "bpy", "br", "bs",
    "bxr", "ca", "cbk", "ce", "ceb", "ckb", "co", "cs", "cv", "cy", "da",
    "de", "diq", "dsb", "dty", "dv", "el", "eml", "en", "eo", "es", "et",
    "eu", "fa", "fi", "fr", "frr", "fy", "ga", "gd", "gl", "gn", "gom",
    "gu", "gv", "he", "hi", "hif", "hr", "hsb", "ht", "hu", "hy", "ia",
    "id", "ie", "ilo", "io", "is", "it", "ja", "jbo", "jv", "ka", "kk",
    "km", "kn", "ko", "krc", "ku", "kv", "kw", "ky", "la", "lb", "lez",
    "li", "lmo", "lo", "lrc", "lt", "lv", "mai", "mg", "mhr", "min", "mk",
    "ml", "mn", "mr", "mrj", "ms", "mt", "mwl", "my", "myv", "mzn", "nah",
    "nap", "nds", "ne", "new", "nl", "nn", "no", "oc", "or", "os", "pa",
    "pam", "pfl", "pl", "pms", "pnb", "ps", "pt", "qu", "rm", "ro", "ru",
    "rue", "sa", "sah", "sc", "scn", "sco", "sd", "sh", "si", "sk", "sl",
    "so", "sq", "sr", "su", "sv", "sw", "ta", "te", "tg", "th", "tk",
    "tl", "tr", "tt", "tyv", "ug", "uk", "ur", "uz", "vec", "vep", "vi",
    "vls", "vo", "wa", "war", "wuu", "xal", "xmf", "yi", "yo", "yue", "zh",
];

/// The supported codes, as sequences of characters.
pub open spec fn lang_codes() -> Seq<Seq<char>> {
    Seq::new(LANG@.len(), |i: int| LANG@[i]@)
}

/// Whether `label` is the code of a supported language.
pub open spec fn is_supported(label: Seq<char>) -> bool {
    lang_codes().contains(label)
}

/// Where `label` stands among the supported codes, for a label that is one
/// of them.
pub open spec fn lang_index(label: Seq<char>) -> int {
    lang_codes().index_of_first(label)->Some_0
}

/// Where `label` stands in [`LANG`].
pub fn position(label: &str) -> (found: Option<usize>)
    ensures
        found is Some ==> found->Some_0 < NB_LANG,
        found is Some <==> is_supported(label@),
        lang_codes().index_of_first(label@) == match found {
            Some(i) => Some(i as int),
            None => None,
        },
{
    let mut i: usize = 0;
    while i < NB_LANG
        invariant
            i <= NB_LANG,
            NB_LANG == LANG@.len(),
            forall|j: int| 0 <= j < i ==> lang_codes()[j] != label@,
        decreases NB_LANG - i,
    {
        if str_eq(LANG[i], label) {
            proof {
                assert(lang_codes()[i as int] == label@);
                lang_codes().index_of_first_ensures(label@);
            }
            return Some(i);
        }
        i = i + 1;
    }
    proof {
        lang_codes().index_of_first_ensures(label@);
    }
    None
}

/// The supported code that equals `label`, if there is one: the registry's
/// own string, which lives as long as the program.
pub fn lookup(label: &str) -> (found: Option<&'static str>)
    ensures
        found is Some <==> is_supported(label@),
        found is Some ==> found->Some_0@ == label@,
{
    proof {
        lang_codes().index_of_first_ensures(label@);
    }
    match position(label) {
        Some(i) => Some(LANG[i]),
        None => None,
    }
}

} // verus!

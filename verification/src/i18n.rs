//! Language detection from an `Accept-Language` header.

use vstd::prelude::*;
use crate::text::{
    chars_of, lemma_split_on_nonempty, spec_lowercase, split_chars, split_on, string_of, texts, to_lowercase,
    trim, trim_chars,
};

verus! {

/// The primary language subtag of one entry of an `Accept-Language` list,
/// as written: the text before the first `;`, trimmed, up to the first `-`.
pub open spec fn raw_subtag(entry: Seq<char>) -> Seq<char> {
    split_on(trim(split_on(entry, ';')[0]), '-')[0]
}

/// The primary language subtag of one entry, lowercased.
pub open spec fn primary_subtag(entry: Seq<char>) -> Seq<char> {
    spec_lowercase(raw_subtag(entry))
}

/// The languages the dashboard is translated into: German and English.
pub open spec fn is_supported(tag: Seq<char>) -> bool {
    tag == seq!['d', 'e'] || tag == seq!['e', 'n']
}

/// Tag `i` is the first of `tags` naming a supported language.
pub open spec fn is_first_supported(tags: Seq<Seq<char>>, i: int) -> bool {
    &&& 0 <= i < tags.len()
    &&& is_supported(tags[i])
    &&& forall|j: int| 0 <= j < i ==> !is_supported(tags[j])
}

/// The first tag naming a supported language, or English when there is none.
pub open spec fn spec_first_supported(tags: Seq<Seq<char>>) -> Seq<char> {
    if exists|i: int| is_first_supported(tags, i) {
        tags[choose|i: int| is_first_supported(tags, i)]
    } else {
        seq!['e', 'n']
    }
}

/// The lowercased primary subtags of a header's comma-separated entries.
pub open spec fn header_tags(header: Seq<char>) -> Seq<Seq<char>> {
    split_on(header, ',').map_values(|e: Seq<char>| primary_subtag(e))
}

/// The language chosen for a header: the primary subtag of the first supported
/// comma-separated entry, or English when the header is absent, empty, or
/// names no supported language.
pub open spec fn spec_detect_language(header: Option<Seq<char>>) -> Seq<char> {
    match header {
        None => seq!['e', 'n'],
        Some(h) => if h.len() == 0 {
            seq!['e', 'n']
        } else {
            spec_first_supported(header_tags(h))
        },
    }
}

/// The header's text, if there is a header.
pub open spec fn header_view(header: Option<&str>) -> Option<Seq<char>> {
    match header {
        Some(h) => Some(h@),
        None => None,
    }
}

proof fn lemma_first_supported_unique(tags: Seq<Seq<char>>, i: int, k: int)
    requires
        is_first_supported(tags, i),
        is_first_supported(tags, k),
    ensures
        i == k,
{
    if i < k {
        assert(!is_supported(tags[i]));
    }
    if k < i {
        assert(!is_supported(tags[k]));
    }
}


/// The first of the given lowercased language tags that the dashboard
/// supports (`"de"` or `"en"`), or `"en"` when none is.
pub fn first_supported_language(tags: &Vec<String>) -> (lang: &'static str)
    ensures
        lang@ == spec_first_supported(texts(tags@)),
        is_supported(lang@),
{
    proof {
        reveal_strlit("de");
        reveal_strlit("en");
        assert("de"@ =~= seq!['d', 'e']);
        assert("en"@ =~= seq!['e', 'n']);
    }
    let ghost ts = texts(tags@);
    let mut i: usize = 0;
    while i < tags.len()
        invariant
            i <= tags@.len(),
            ts == texts(tags@),
            "de"@ == seq!['d', 'e'],
            "en"@ == seq!['e', 'n'],
            forall|j: int| 0 <= j < i ==> !is_supported(ts[j]),
        decreases tags@.len() - i,
    {
        let tag = chars_of(tags[i].as_str());
        let is_de = tag.len() == 2 && tag[0] == 'd' && tag[1] == 'e';
        let is_en = tag.len() == 2 && tag[0] == 'e' && tag[1] == 'n';
        assert(tag@ == ts[i as int]);
        if is_de || is_en {
            if is_de {
                assert(tag@ =~= seq!['d', 'e']);
            } else {
                assert(tag@ =~= seq!['e', 'n']);
            }
            assert(is_first_supported(ts, i as int));
            proof {
                assert forall|k: int| is_first_supported(ts, k) implies k == i by {
                    lemma_first_supported_unique(ts, i as int, k);
                }
            }
            if is_de {
                return "de";
            } else {
                return "en";
            }
        }
        assert(!is_supported(ts[i as int])) by {
            if ts[i as int] == seq!['d', 'e'] {
                assert(tag@[0] == 'd' && tag@[1] == 'e');
            }
            if ts[i as int] == seq!['e', 'n'] {
                assert(tag@[0] == 'e' && tag@[1] == 'n');
            }
        }
        i = i + 1;
    }
    "en"
}

/// The lowercased primary subtag of one header entry.
fn entry_primary_subtag(entry: &[char]) -> (tag: String)
    ensures
        tag@ == primary_subtag(entry@),
{
    proof {
        lemma_split_on_nonempty(entry@, ';');
    }
    let pieces = split_chars(entry, ';');
    let lang = trim_chars(pieces[0].as_slice());
    proof {
        lemma_split_on_nonempty(lang@, '-');
    }
    let sub = split_chars(lang.as_slice(), '-');
    let text = string_of(sub[0].as_slice());
    to_lowercase(text.as_str())
}

/// Parse an `Accept-Language` header and return the first supported language
/// (`"de"` or `"en"`), defaulting to `"en"`.
pub fn detect_language(accept_language: Option<&str>) -> (lang: &'static str)
    ensures
        lang@ == spec_detect_language(header_view(accept_language)),
        is_supported(lang@),
{
    proof {
        reveal_strlit("en");
        assert("en"@ =~= seq!['e', 'n']);
    }
    let header = match accept_language {
        None => {
            return "en";
        },
        Some(h) => h,
    };
    let chars = chars_of(header);
    if chars.len() == 0 {
        return "en";
    }
    let entries = split_chars(chars.as_slice(), ',');
    let ghost spec_entries = split_on(header@, ',');
    let mut tags: Vec<String> = Vec::new();
    let mut i: usize = 0;
    while i < entries.len()
        invariant
            i <= entries@.len(),
            spec_entries == split_on(header@, ','),
            entries@.len() == spec_entries.len(),
            forall|k: int| 0 <= k < entries@.len() ==> #[trigger] entries@[k]@ == spec_entries[k],
            tags@.len() == i,
            forall|k: int| 0 <= k < i ==> #[trigger] tags@[k]@ == primary_subtag(spec_entries[k]),
        decreases entries@.len() - i,
    {
        let tag = entry_primary_subtag(entries[i].as_slice());
        tags.push(tag);
        i = i + 1;
    }
    assert(texts(tags@) =~= header_tags(header@));
    first_supported_language(&tags)
}

} // verus!

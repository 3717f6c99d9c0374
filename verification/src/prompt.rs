use vstd::prelude::*;
use vstd::string::StrSliceExecFns;
use vstd::string::StringExecFns;

use crate::text::find_from;
use crate::text::lemma_find_from_spec;
use crate::text::occurs_at;
use crate::text::spec_find;
use crate::text::spec_find_from;
use crate::text::spec_trim;
use crate::text::str_chars;
use crate::text::trim_range;

verus! {

// The marker-delimited wire protocol: the outbound instruction text embeds two
// sentinel strings, and the translation is whatever the model placed between
// the first occurrence of each, trimmed of outer white space. Free-form
// commentary before the start marker or after the end marker is ignored.

pub open spec fn spec_marker_start() -> Seq<char> {
    "<<<TRANSLATION>>>"@
}

pub open spec fn spec_marker_end() -> Seq<char> {
    "<<<END_TRANSLATION>>>"@
}

/// The sentinel that must precede the translation in the model's output.
pub fn marker_start() -> (r: &'static str)
    ensures
        r@ == spec_marker_start(),
{
    "<<<TRANSLATION>>>"
}

/// The sentinel that must follow the translation in the model's output.
pub fn marker_end() -> (r: &'static str)
    ensures
        r@ == spec_marker_end(),
{
    "<<<END_TRANSLATION>>>"
}

/// The exact instruction text sent for a given input and target language: a
/// fixed template with the language substituted twice and the two markers
/// spliced in, followed by the input itself.
pub open spec fn spec_build_prompt(input: Seq<char>, target_lang: Seq<char>) -> Seq<char> {
    "You are a professional "@ + target_lang
        + " native translator who needs to fluently translate text into "@ + target_lang
        + ".\n\n## Translation Rules\n1. Output only the translated content, wrapped by the required markers and nothing else\n2. The returned translation must maintain exactly the same number of paragraphs and format as the original text\n3. If the text contains HTML tags, consider where the tags should be placed in the translation while maintaining fluency\n4. For content that should not be translated (such as proper nouns, code, etc.), keep the original text.\n5. If input contains %%, use %% in your output, if input has no %%, don't use %% in your output\n\n## OUTPUT FORMAT:\n- **Single paragraph input** -> Output translation directly (no separators, no extra text)\n- **Multi-paragraph input** -> Use %% as paragraph separator between translations\n\n## Marking Requirement\nWrap the final translation between "@
        + spec_marker_start() + " and "@ + spec_marker_end()
        + " on a single output. Output nothing outside the markers.\n\n## Examples\n### Multi-paragraph Input:\nParagraph A\n%%\nParagraph B\n%%\nParagraph C\n%%\nParagraph D\n\n### Multi-paragraph Output:\nTranslation A\n%%\nTranslation B\n%%\nTranslation C\n%%\nTranslation D\n\n### Single paragraph Input:\nSingle paragraph content\n\n### Single paragraph Output:\nDirect translation without separators\n\n\n### Input\n"@
        + input
}

/// Build the outbound instruction text for `input` and `target_lang`.
pub fn build_prompt(input: &str, target_lang: &str) -> (r: String)
    ensures
        r@ == spec_build_prompt(input@, target_lang@),
{
    let mut r = String::new();
    r.append("You are a professional ");
    r.append(target_lang);
    r.append(" native translator who needs to fluently translate text into ");
    r.append(target_lang);
    r.append(".\n\n## Translation Rules\n1. Output only the translated content, wrapped by the required markers and nothing else\n2. The returned translation must maintain exactly the same number of paragraphs and format as the original text\n3. If the text contains HTML tags, consider where the tags should be placed in the translation while maintaining fluency\n4. For content that should not be translated (such as proper nouns, code, etc.), keep the original text.\n5. If input contains %%, use %% in your output, if input has no %%, don't use %% in your output\n\n## OUTPUT FORMAT:\n- **Single paragraph input** -> Output translation directly (no separators, no extra text)\n- **Multi-paragraph input** -> Use %% as paragraph separator between translations\n\n## Marking Requirement\nWrap the final translation between ");
    r.append(marker_start());
    r.append(" and ");
    r.append(marker_end());
    r.append(" on a single output. Output nothing outside the markers.\n\n## Examples\n### Multi-paragraph Input:\nParagraph A\n%%\nParagraph B\n%%\nParagraph C\n%%\nParagraph D\n\n### Multi-paragraph Output:\nTranslation A\n%%\nTranslation B\n%%\nTranslation C\n%%\nTranslation D\n\n### Single paragraph Input:\nSingle paragraph content\n\n### Single paragraph Output:\nDirect translation without separators\n\n\n### Input\n");
    r.append(input);
    r
}

/// What `extract_translation` returns: the text strictly between the first
/// start marker and the first end marker after it, trimmed; `None` when either
/// marker is missing or the trimmed text is empty.
pub open spec fn spec_extract(content: Seq<char>) -> Option<Seq<char>> {
    match spec_find(content, spec_marker_start()) {
        None => None,
        Some(s) => {
            let b = s + spec_marker_start().len();
            match spec_find_from(content, spec_marker_end(), b as nat) {
                None => None,
                Some(e) => {
                    let t = spec_trim(content.subrange(b as int, e as int));
                    if t.len() == 0 {
                        None
                    } else {
                        Some(t)
                    }
                },
            }
        },
    }
}

/// Pull the marker-delimited translation out of the model's free-form output.
pub fn extract_translation(content: &str) -> (r: Option<String>)
    ensures
        match r {
            Some(s) => spec_extract(content@) == Some(s@),
            None => spec_extract(content@) is None,
        },
{
    let v = str_chars(content);
    let sm = str_chars(marker_start());
    let em = str_chars(marker_end());
    let vlen = v.len();
    match find_from(&v, &sm, 0) {
        None => None,
        Some(s) => {
            proof {
                lemma_find_from_spec(v@, sm@, 0);
                assert(s + sm@.len() <= vlen);
            }
            let b = s + sm.len();
            match find_from(&v, &em, b) {
                None => None,
                Some(e) => {
                    proof {
                        lemma_find_from_spec(v@, em@, b as nat);
                    }
                    let (ts, te) = trim_range(&v, b, e);
                    if ts == te {
                        None
                    } else {
                        Some(content.substring_char(ts, te).to_owned())
                    }
                },
            }
        },
    }
}

/// The first marker pair wins: if the start marker first occurs at `p`, and
/// the end marker first occurs at `q` past it, then extraction yields exactly
/// the trimmed text between them — whatever surrounds the pair — provided
/// that text is not all white space.
pub proof fn lemma_extract_first_pair(content: Seq<char>, p: int, q: int)
    requires
        occurs_at(content, spec_marker_start(), p),
        forall|j: int| 0 <= j < p ==> !occurs_at(content, spec_marker_start(), j),
        p + spec_marker_start().len() <= q,
        occurs_at(content, spec_marker_end(), q),
        forall|j: int|
            p + spec_marker_start().len() <= j < q ==> !occurs_at(content, spec_marker_end(), j),
        spec_trim(content.subrange(p + spec_marker_start().len(), q)).len() > 0,
    ensures
        spec_extract(content) == Some(
            spec_trim(content.subrange(p + spec_marker_start().len(), q)),
        ),
{
    let b = p + spec_marker_start().len();
    lemma_find_from_spec(content, spec_marker_start(), 0);
    match spec_find(content, spec_marker_start()) {
        None => {
            assert(false);
        },
        Some(i) => {
            assert(i == p);
        },
    }
    lemma_find_from_spec(content, spec_marker_end(), b as nat);
    match spec_find_from(content, spec_marker_end(), b as nat) {
        None => {
            assert(false);
        },
        Some(e) => {
            assert(e == q);
        },
    }
}

/// Extraction fails exactly when the start marker is missing, the end marker
/// is missing after the start marker, or the text between them trims to
/// nothing.
pub proof fn lemma_extract_failure(content: Seq<char>)
    ensures
        spec_extract(content) is None <==> match spec_find(content, spec_marker_start()) {
            None => true,
            Some(s) => {
                let b = s + spec_marker_start().len();
                match spec_find_from(content, spec_marker_end(), b as nat) {
                    None => true,
                    Some(e) => spec_trim(content.subrange(b as int, e as int)).len() == 0,
                }
            },
        },
{
}

} // verus!

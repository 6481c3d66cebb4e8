//! Processing of transcription segments and prompts: normalising what the
//! speech-to-text collaborator returns, and deciding whether a prompt
//! addresses the assistant.
//!
//! Pattern matching and case folding are done by outside code behind trusted
//! wrappers; everything around them is verified.

use vstd::prelude::*;
use crate::text::{spec_trim, spec_views, trim_str};

verus! {

/// regex's compiled pattern, declared so it can appear in signatures; its
/// contents stay opaque.
#[verifier::external_type_specification]
#[verifier::external_body]
pub struct ExRegex(regex::Regex);

/// Whether the pattern compiles as a regular expression; a function of the
/// pattern text alone.
pub uninterp spec fn spec_regex_compiles(pattern: Seq<char>) -> bool;

/// Whether the compiled pattern matches somewhere in the text; a function of
/// pattern and text alone.
pub uninterp spec fn spec_regex_matches(pattern: Seq<char>, text: Seq<char>) -> bool;

/// What removing every non-overlapping match of the pattern leaves of the
/// text; a function of pattern and text alone.
pub uninterp spec fn spec_regex_strip(pattern: Seq<char>, text: Seq<char>) -> Seq<char>;

/// The lower-case form of the text; a function of the characters alone.
pub uninterp spec fn spec_lower(s: Seq<char>) -> Seq<char>;

/// Relies on regex::Regex::new and regex::Regex::is_match: compiles the
/// pattern, then asks whether it matches anywhere in the text; compilation
/// succeeds as a function of the pattern, the match decision as a function
/// of pattern and text.
#[verifier::external_body]
fn regex_is_match(pattern: &str, text: &str) -> (r: Option<bool>)
    ensures
        r is Some <==> spec_regex_compiles(pattern@),
        r matches Some(b) ==> b == spec_regex_matches(pattern@, text@),
{
    match regex::Regex::new(pattern) {
        Ok(re) => Some(re.is_match(text)),
        Err(_) => None,
    }
}

/// Whether the text holds no opening bracket of either kind, so the
/// annotation pattern can have no match in it.
pub open spec fn spec_no_open_brackets(s: Seq<char>) -> bool {
    forall|j: int| 0 <= j < s.len() ==> (#[trigger] s[j]) != '[' && s[j] != '('
}

/// Relies on regex::Regex::new and regex::Regex::replace_all: compiles the
/// pattern, then replaces every non-overlapping match in the text with
/// nothing; compilation succeeds as a function of the pattern, the stripped
/// text is a function of pattern and text. Since matches are only removed,
/// the result is never longer than the text, and a text without any match
/// is returned unchanged; every match of the bracket-annotation pattern
/// starts with an opening bracket or parenthesis, so a text holding neither
/// character is unchanged.
#[verifier::external_body]
fn regex_strip_all(pattern: &str, text: &str) -> (r: Option<String>)
    ensures
        r is Some <==> spec_regex_compiles(pattern@),
        r matches Some(s) ==> s@ == spec_regex_strip(pattern@, text@),
        r matches Some(s) ==> s@.len() <= text@.len(),
        pattern@ == "[\\[\\(].+?[\\]\\)]"@ && spec_no_open_brackets(text@) ==> (r matches Some(s)
            ==> s@ == text@),
{
    match regex::Regex::new(pattern) {
        Ok(re) => Some(re.replace_all(text, "").into_owned()),
        Err(_) => None,
    }
}

/// Relies on str::to_lowercase: the result depends on the characters alone;
/// an empty text stays empty.
#[verifier::external_body]
fn lowercase(s: &str) -> (r: String)
    ensures
        r@ == spec_lower(s@),
        s@.len() == 0 ==> r@.len() == 0,
{
    s.to_lowercase()
}

/// The segments joined with single spaces, in order.
pub open spec fn spec_join(parts: Seq<Seq<char>>) -> Seq<char>
    decreases parts.len(),
{
    if parts.len() == 0 {
        Seq::empty()
    } else if parts.len() == 1 {
        parts[0]
    } else {
        spec_join(parts.drop_last()) + seq![' '] + parts.last()
    }
}

/// Join the transcription segments into one prompt, separated by single
/// spaces.
pub fn join_segments(parts: &Vec<String>) -> (r: String)
    ensures
        r@ == spec_join(spec_views(parts@)),
{
    let mut r = String::new();
    proof {
        assert(spec_views(parts@).take(0) =~= Seq::<Seq<char>>::empty());
    }
    let mut i: usize = 0;
    while i < parts.len()
        invariant
            i <= parts.len(),
            r@ == spec_join(spec_views(parts@).take(i as int)),
        decreases parts.len() - i,
    {
        if i > 0 {
            r.append(" ");
        }
        let p = &parts[i];
        r.append(p.as_str());
        proof {
            reveal_strlit(" ");
            assert(" "@ =~= seq![' ']);
            let views = spec_views(parts@);
            assert(views.take(i + 1).drop_last() =~= views.take(i as int));
            assert(views.take(i + 1).last() == p@);
        }
        i = i + 1;
    }
    proof {
        assert(spec_views(parts@).take(parts@.len() as int) =~= spec_views(parts@));
    }
    r
}

/// Strip bracketed non-speech annotations: every shortest span from an
/// opening bracket or parenthesis to a closing one is removed. The result
/// is never longer than the input, and an input holding no opening bracket
/// of either kind is returned unchanged. When the annotation pattern itself
/// does not compile the text is returned unchanged.
pub fn strip_brackets(input: &str) -> (r: String)
    ensures
        spec_regex_compiles("[\\[\\(].+?[\\]\\)]"@) ==> r@ == spec_regex_strip(
            "[\\[\\(].+?[\\]\\)]"@,
            input@,
        ),
        !spec_regex_compiles("[\\[\\(].+?[\\]\\)]"@) ==> r@ == input@,
        r@.len() <= input@.len(),
        spec_no_open_brackets(input@) ==> r@ == input@,
{
    match regex_strip_all("[\\[\\(].+?[\\]\\)]", input) {
        Some(s) => s,
        None => input.to_owned(),
    }
}

/// Normalise one transcription segment: trim it, fold it to lower case,
/// and strip bracketed annotations.
pub fn clean_segment(segment: &str) -> (r: String)
    ensures
        spec_regex_compiles("[\\[\\(].+?[\\]\\)]"@) ==> r@ == spec_regex_strip(
            "[\\[\\(].+?[\\]\\)]"@,
            spec_lower(spec_trim(segment@)),
        ),
        !spec_regex_compiles("[\\[\\(].+?[\\]\\)]"@) ==> r@ == spec_lower(spec_trim(segment@)),
{
    let t = trim_str(segment);
    let l = lowercase(t.as_str());
    strip_brackets(l.as_str())
}

/// Whether the prompt addresses the assistant: it begins with one of the
/// invocation names (the transcription sometimes hears a word before
/// "peter"). Nothing is returned only when the invocation pattern itself
/// does not compile.
pub fn prompt_invokes_assistant(prompt: &str) -> (r: Option<bool>)
    ensures
        r is Some <==> spec_regex_compiles("^(computer|peter|[a-zA-Z]+ peter)"@),
        r matches Some(b) ==> b == spec_regex_matches(
            "^(computer|peter|[a-zA-Z]+ peter)"@,
            prompt@,
        ),
{
    regex_is_match("^(computer|peter|[a-zA-Z]+ peter)", prompt)
}

/// The JSON-shaped user turn the chat collaborator expects, wrapping the
/// prompt text.
pub fn format_user_turn(prompt: &str) -> (r: String)
    ensures
        r@ == "{\"type\": \"user\", \"content\": \""@ + prompt@ + "\"}"@,
{
    let mut r = "{\"type\": \"user\", \"content\": \"".to_owned();
    r.append(prompt);
    r.append("\"}");
    r
}

} // verus!
